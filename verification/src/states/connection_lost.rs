//! The screen shown after the connection to the server was lost.

use vstd::prelude::*;
use crate::input::keyboard::Keyboard;
use crate::input::keys;
use crate::renderer::text_renderer::{Align, ColorRange, Style, TextOp, ops_post, lemma_ops_push, lemma_ops_none};
use crate::renderer::ui_renderer::{UiRenderer, UiRect, rects_queued, lemma_rects_queued_concat};
use crate::states::{CursorIcon, MenuEvent, frame_rects, draw_frame, menu_text, menu_text_color, push_rect};

verus! {

/// The "Connection lost" screen; it remembers whether the mouse is over its
/// button.
pub struct ConnectionLostState {
    hovered: bool,
}

/// What the caller is to do after an event or a frame.
#[derive(Clone, Copy, PartialEq, Eq, Structural, Debug)]
pub enum ConnectionLostAction {
    Nothing,
    SetCursorIcon(CursorIcon),
    /// Leave for the username query screen.
    GoToUsernameQuery,
}

/// Whether the point `(x, y)` (from the bottom left) is on the "Ok" button of
/// a screen `w` by `h` pixels: 86 wide, 49 high, centered, its bottom 45
/// below the middle.
pub open spec fn on_ok_button(w: u16, h: u16, x: u16, y: u16) -> bool {
    &&& w / 2 - 43 <= x <= w / 2 + 43
    &&& h / 2 - 45 <= y <= h / 2 - 45 + 49
}

/// The "Ok" button: outline (hovered lighter), inner border, fill.
pub open spec fn ok_button_rects(w: u16, h: u16, hover: bool) -> Seq<UiRect> {
    let outline: u32 = if hover { 0x5d5b7aFF } else { 0x4c4964FF };
    seq![
        UiRect { x: (w / 2 - 43) as u16, y: (h / 2 - 45) as u16, w: 86, h: 49, color: outline },
        UiRect { x: (w / 2 - 43 + 2) as u16, y: (h / 2 + 2 - 45) as u16, w: 82, h: 45, color: 0x28263cFF },
        UiRect { x: (w / 2 - 43 + 4) as u16, y: (h / 2 + 4 - 45) as u16, w: 78, h: 41, color: 0x4c4964FF },
    ]
}

/// The texts of the screen: the title in the default style, the button's
/// label in the menu color.
pub open spec fn connection_lost_texts(w: u16, h: u16) -> Seq<TextOp> {
    seq![
        TextOp::Plain("Connection lost"@, (w / 2 - 97) as u16, (h / 2 + 30) as u16, Seq::empty()),
        TextOp::Plain("Ok"@, (w / 2 - 16) as u16, (h / 2 - 45 + 15) as u16, seq![ColorRange(menu_text_color(), u32::MAX)]),
    ]
}

impl ConnectionLostState {
    pub closed spec fn spec_hovered(&self) -> bool {
        self.hovered
    }

    /// The mouse is not over the button.
    pub fn new() -> (r: Self)
        ensures
            !r.spec_hovered(),
    {
        Self { hovered: false }
    }

    /// Whether the mouse at `(x, y)` (from the bottom left) is over the button.
    pub fn get_hovering(win_size: (u16, u16), mouse_xy: (u16, u16)) -> (r: bool)
        requires
            win_size.0 / 2 >= 43,
            win_size.0 / 2 - 43 <= mouse_xy.0 <= win_size.0 / 2 + 43 ==> win_size.1 / 2 >= 45,
        ensures
            r == on_ok_button(win_size.0, win_size.1, mouse_xy.0, mouse_xy.1),
    {
        let (w, h) = win_size;
        let (x, y) = mouse_xy;
        if x >= w / 2 - 86 / 2 && x <= w / 2 + 86 / 2 && y >= h / 2 - 45 && y <= h / 2 - 45 + 49 {
            return true;
        }
        false
    }

    /// Handles input: moving the mouse onto or off the button changes the
    /// cursor, and a left click on it leaves for the username query screen.
    pub fn on_event(&mut self, event: MenuEvent, win_size: (u16, u16)) -> (r: ConnectionLostAction)
        requires
            win_size.0 >= 86,
            win_size.1 >= 90,
        ensures
            match event {
                MenuEvent::CursorMoved(x, y) => {
                    let hover = on_ok_button(win_size.0, win_size.1, x, crate::text_box::sat_sub(win_size.1 as int, y as int) as u16);
                    &&& final(self).spec_hovered() == hover
                    &&& r == if hover == old(self).spec_hovered() {
                        ConnectionLostAction::Nothing
                    } else if hover {
                        ConnectionLostAction::SetCursorIcon(CursorIcon::Hand)
                    } else {
                        ConnectionLostAction::SetCursorIcon(CursorIcon::Default)
                    }
                },
                MenuEvent::LeftPressed => {
                    &&& final(self).spec_hovered() == old(self).spec_hovered()
                    &&& r == if old(self).spec_hovered() {
                        ConnectionLostAction::GoToUsernameQuery
                    } else {
                        ConnectionLostAction::Nothing
                    }
                },
                MenuEvent::Other => final(self).spec_hovered() == old(self).spec_hovered() && r
                    == ConnectionLostAction::Nothing,
            },
    {
        match event {
            MenuEvent::CursorMoved(x, y) => {
                let (w, h) = win_size;
                let yu = if h >= y { h - y } else { 0 };
                let hover = Self::get_hovering(win_size, (x, yu));
                if hover != self.hovered {
                    self.hovered = hover;
                    if hover {
                        ConnectionLostAction::SetCursorIcon(CursorIcon::Hand)
                    } else {
                        ConnectionLostAction::SetCursorIcon(CursorIcon::Default)
                    }
                } else {
                    ConnectionLostAction::Nothing
                }
            },
            MenuEvent::LeftPressed => {
                if self.hovered {
                    ConnectionLostAction::GoToUsernameQuery
                } else {
                    ConnectionLostAction::Nothing
                }
            },
            MenuEvent::Other => ConnectionLostAction::Nothing,
        }
    }

    /// A frame: releasing return or space leaves for the username query
    /// screen; otherwise the screen is drawn.
    pub fn on_update(&mut self, kb: &mut Keyboard, ui: &mut UiRenderer, win_size: (u16, u16)) -> (r: ConnectionLostAction)
        requires
            old(kb).wf(),
            old(ui).wf(),
            win_size.0 >= 194,
            win_size.1 >= 160,
            old(ui).spec_text().spec_text_buffer().len() + 17 <= u32::MAX,
        ensures
            final(kb).wf(),
            final(self).spec_hovered() == old(self).spec_hovered(),
            r == if old(kb).spec_pressed_frames(keys::RETURN) > 0 || old(kb).spec_pressed_frames(keys::SPACE) > 0 {
                ConnectionLostAction::GoToUsernameQuery
            } else {
                ConnectionLostAction::Nothing
            },
            r == ConnectionLostAction::Nothing ==> final(self).drawn(old(ui), final(ui), win_size),
            r != ConnectionLostAction::Nothing ==> *final(ui) == *old(ui),
    {
        if kb.release(keys::RETURN) || kb.release(keys::SPACE) {
            return ConnectionLostAction::GoToUsernameQuery;
        }
        self.draw_ui(ui, win_size);
        ConnectionLostAction::Nothing
    }

    /// What drawing the screen does: `ui` is the renderer before, `after` the
    /// one after.
    pub open spec fn drawn(&self, ui: &UiRenderer, after: &UiRenderer, win_size: (u16, u16)) -> bool {
        let (w, h) = win_size;
        &&& after.wf()
        &&& rects_queued(ui.spec_vertices(), after.spec_vertices(), frame_rects(w, h) + ok_button_rects(w, h, self.spec_hovered()))
        &&& ops_post(ui.spec_text(), after.spec_text(), connection_lost_texts(w, h))
        &&& after.spec_num_verts_to_draw() == ui.spec_num_verts_to_draw()
    }

    /// Draws the screen: the border, the title, and the "Ok" button, lit
    /// while the mouse is over it.
    pub fn draw_ui(&self, ui: &mut UiRenderer, win_size: (u16, u16))
        requires
            old(ui).wf(),
            win_size.0 >= 194,
            win_size.1 >= 160,
            old(ui).spec_text().spec_text_buffer().len() + 17 <= u32::MAX,
        ensures
            self.drawn(old(ui), final(ui), win_size),
    {
        let (w, h) = win_size;
        let ghost v0 = ui.spec_vertices();
        let ghost t0 = ui.spec_text();
        draw_frame(ui, w, h);
        let ghost v1 = ui.spec_vertices();
        let text_color = menu_text();
        let outline: u32 = if self.hovered { 0x5d5b7aFF } else { 0x4c4964FF };
        proof {
            lemma_ops_none(t0);
            reveal_strlit("Connection lost");
            reveal_strlit("Ok");
        }
        let title_pos = ui.draw_text("Connection lost", w / 2 - 195 / 2, h / 2 + 30);
        let ghost t1 = ui.spec_text();
        let ghost op0 = TextOp::Plain("Connection lost"@, (w / 2 - 97) as u16, (h / 2 + 30) as u16, Seq::empty());
        proof {
            let style = choose|style: Style|
                style.colors@ == Seq::<ColorRange>::empty() && style.align == Align::Left && !style.italic
                    && t0.draw_post(t1, "Connection lost"@, (w / 2 - 97) as u16, (h / 2 + 30) as u16, style, title_pos);
            t0.lemma_plain_op(t1, "Connection lost"@, (w / 2 - 97) as u16, (h / 2 + 30) as u16, style, title_pos);
            lemma_ops_push(t0, t0, t1, Seq::empty(), op0);
            t0.lemma_op_growth(t1, op0);
        }
        let ok_pos = ui.draw_text_colored("Ok", w / 2 - 33 / 2, h / 2 - 45 + 15, text_color);
        proof {
            let t2 = ui.spec_text();
            let colors = seq![ColorRange(menu_text_color(), u32::MAX)];
            let op = TextOp::Plain("Ok"@, (w / 2 - 16) as u16, (h / 2 - 45 + 15) as u16, colors);
            let style = choose|style: Style|
                style.colors@ == colors && style.align == Align::Left && !style.italic
                    && t1.draw_post(t2, "Ok"@, (w / 2 - 16) as u16, (h / 2 - 45 + 15) as u16, style, ok_pos);
            t1.lemma_plain_op(t2, "Ok"@, (w / 2 - 16) as u16, (h / 2 - 45 + 15) as u16, style, ok_pos);
            assert(Seq::<TextOp>::empty().push(op0) =~= seq![op0]);
            lemma_ops_push(t0, t1, t2, seq![op0], op);
            assert(seq![op0].push(op) =~= connection_lost_texts(w, h));
        }
        let ghost fr = frame_rects(w, h);
        let r0 = UiRect { x: w / 2 - 86 / 2, y: h / 2 - 45, w: 86, h: 49, color: outline };
        let r1 = UiRect { x: w / 2 - 86 / 2 + 2, y: h / 2 + 2 - 45, w: 86 - 4, h: 49 - 4, color: 0x28263cFF };
        let r2 = UiRect { x: w / 2 - 86 / 2 + 4, y: h / 2 + 4 - 45, w: 86 - 8, h: 49 - 8, color: 0x4c4964FF };
        push_rect(ui, r0, Ghost(v0), Ghost(fr));
        push_rect(ui, r1, Ghost(v0), Ghost(fr.push(r0)));
        push_rect(ui, r2, Ghost(v0), Ghost(fr.push(r0).push(r1)));
        assert(fr.push(r0).push(r1).push(r2) =~= fr + ok_button_rects(w, h, self.hovered));
    }
}

} // verus!
