//! The screen that asks for a username and a server address.

use vstd::prelude::*;
use crate::text::{str_chars, utf8_byte_len, byte_offset, concat_str};
use crate::text_box::{
    TextBox, TextBoxBuilder, ValidChars, TextBoxEvent, TextBoxInput, ClipboardRequest, sat_sub, es_paste,
    lemma_paste_limit,
};
use crate::text_box::Style as BoxStyle;
use crate::renderer::text_renderer::{
    TextRenderer, TextOp, ColorRange, GlyphData, Style, Align, ops_post, lemma_ops_push, lemma_ops_none, linebreaks,
    linebreak_state, linebreak_list, width_units, lemma_linebreaks_shape, lemma_width_units_bound, text_lines,
    char_at_byte, lemma_text_line_bounds,
};
use crate::renderer::ui_renderer::{UiRenderer, UiRect, rects_queued, lemma_rects_queued_concat};
use crate::input::keys;
use crate::input::keyboard::Keyboard;
use crate::text::str_slice;
use crate::renderer::text_renderer::{TextColor, packed_r6g6b6a3};
use crate::states::{CursorIcon, menu_text, menu_text_color, frame_rects, draw_frame, push_rect, draw_label};

verus! {

/// Characters a username may hold.
pub const USERNAME_CHARS: &'static str = "abcdefghijklmnopqrstuvwxyzABCDEFGHIJKLMNOPQRSTUVWXYZ0123456789";

/// Characters a server address may hold.
pub const ADDRESS_CHARS: &'static str = "abcdefghijklmnopqrstuvwxyzABCDEFGHIJKLMNOPQRSTUVWXYZ0123456789:[].";

/// "No item": the hovered or selected index when there is none.
pub const NO_ITEM: u32 = u32::MAX;

/// The color of error messages.
pub open spec fn error_color() -> TextColor {
    TextColor(packed_r6g6b6a3(220, 50, 60, 255) as u32)
}

/// The username and address to connect with, as typed.
pub struct JoinRequest {
    pub username: Vec<char>,
    pub address: Vec<char>,
}

/// What looking up the typed server address gave.
pub enum AddressLookup {
    /// An address was found; connecting starts.
    Found,
    /// The name resolved to no address.
    NotFound,
    /// The address could not be parsed or resolved; the error's text.
    Invalid(String),
}

/// The username query screen: two text boxes (username, server address) and
/// two buttons (join, quit), numbered 0 to 3; while connecting, only a cancel
/// button (0).
pub struct UsernameQueryState {
    username_box: TextBox,
    address_box: TextBox,
    connecting: bool,
    selected: u32,
    hovered: u32,
    message: String,
    message_color: TextColor,
}

impl UsernameQueryState {
    pub closed spec fn spec_username_box(&self) -> TextBox {
        self.username_box
    }

    pub closed spec fn spec_address_box(&self) -> TextBox {
        self.address_box
    }

    /// Whether a connection attempt is under way.
    pub closed spec fn spec_connecting(&self) -> bool {
        self.connecting
    }

    pub closed spec fn spec_selected(&self) -> u32 {
        self.selected
    }

    pub closed spec fn spec_hovered(&self) -> u32 {
        self.hovered
    }

    pub closed spec fn spec_message(&self) -> Seq<char> {
        self.message@
    }

    pub closed spec fn spec_message_color(&self) -> TextColor {
        self.message_color
    }

    /// The boxes are well formed and within their limits of 14 and 24
    /// characters; an item is selected, and the hovered one is an item or none.
    pub open spec fn wf(&self) -> bool {
        &&& self.spec_username_box().wf()
        &&& self.spec_address_box().wf()
        &&& self.spec_username_box().spec_length_limit() == 14
        &&& self.spec_address_box().spec_length_limit() == 24
        &&& self.spec_username_box().spec_buffer().len() <= 14
        &&& self.spec_address_box().spec_buffer().len() <= 24
        &&& self.spec_selected() < 4
        &&& self.spec_hovered() < 4 || self.spec_hovered() == NO_ITEM
    }

    /// The screen as it opens: empty boxes 214 pixels wide, the username box
    /// selected, nothing hovered, no message.
    pub fn new() -> (r: Self)
        ensures
            r.wf(),
            r.spec_username_box().spec_buffer().len() == 0,
            r.spec_address_box().spec_buffer().len() == 0,
            r.spec_username_box().spec_valid_chars() == USERNAME_CHARS@.to_set(),
            r.spec_address_box().spec_valid_chars() == ADDRESS_CHARS@.to_set(),
            r.spec_username_box().spec_width() == 214,
            r.spec_address_box().spec_width() == 214,
            !r.spec_connecting(),
            r.spec_selected() == 0,
            r.spec_hovered() == NO_ITEM,
            r.spec_message().len() == 0,
    {
        let username_chars = str_chars(USERNAME_CHARS);
        let address_chars = str_chars(ADDRESS_CHARS);
        let username_box = TextBoxBuilder::new_at(93, 317).with_length_limit(14).with_valid_chars(
            ValidChars::from_chars(username_chars.as_slice()),
        ).with_width(246 - 2 * 16).build();
        let address_box = TextBoxBuilder::new_at(93, 216).with_length_limit(24).with_valid_chars(
            ValidChars::from_chars(address_chars.as_slice()),
        ).with_width(246 - 2 * 16).build();
        let message = String::new();
        Self {
            username_box,
            address_box,
            connecting: false,
            selected: 0,
            hovered: NO_ITEM,
            message,
            message_color: TextColor::default(),
        }
    }
}

/// Whether `v` is in `lo..=hi`.
pub open spec fn within(v: int, lo: int, hi: int) -> bool {
    lo <= v <= hi
}

/// The item under the point `(x, y)` (from the bottom left) of a screen `w`
/// by `h` pixels: while connecting, the cancel button (0; 112 by 49, its
/// bottom 128 below the middle); otherwise the username box (0; 246 by 53,
/// its bottom 60 above the middle), the address box (1; its bottom 41 below
/// the middle), the join button (2; 86 by 49, 60 left of the middle, its
/// bottom 128 below it) or the quit button (3; 60 right of the middle).
pub open spec fn hover_target(w: u16, h: u16, x: u16, y: u16, connecting: bool) -> u32 {
    if connecting {
        if within(x as int, w / 2 - 56, w / 2 + 56) && within(y as int, h / 2 - 128, h / 2 - 128 + 49) {
            0
        } else {
            NO_ITEM
        }
    } else if within(x as int, w / 2 - 123, w / 2 + 123) && within(y as int, h / 2 + 60, h / 2 + 60 + 53) {
        0
    } else if within(x as int, w / 2 - 123, w / 2 + 123) && within(y as int, h / 2 - 41, h / 2 - 41 + 53) {
        1
    } else if within(x as int, w / 2 - 43 - 60, w / 2 + 43 - 60) && within(y as int, h / 2 - 128, h / 2 - 128 + 49) {
        2
    } else if within(x as int, w / 2 - 43 + 60, w / 2 + 43 + 60) && within(y as int, h / 2 - 128, h / 2 - 128 + 49) {
        3
    } else {
        NO_ITEM
    }
}

/// Whether the hover test is defined at the point `(x, y)` (from the bottom
/// left) of a screen `w` by `h` pixels, taking its tests in order: the items'
/// left edges lie within the screen, and each item's bottom edge lies within it
/// where that item is tested, that is where the point is level with the item
/// and no item tested before it was hit.
pub open spec fn hover_defined(w: u16, h: u16, x: u16, y: u16, connecting: bool) -> bool {
    if connecting {
        &&& w / 2 >= 56
        &&& within(x as int, w / 2 - 56, w / 2 + 56) ==> h / 2 >= 128
    } else {
        let in_row0 = within(y as int, h / 2 + 60, h / 2 + 60 + 53);
        let in_row1 = within(y as int, h / 2 - 41, h / 2 - 41 + 53);
        &&& w / 2 >= 123
        &&& within(x as int, w / 2 - 123, w / 2 + 123) && !in_row0 ==> h / 2 >= 41
        &&& (within(x as int, w / 2 - 103, w / 2 - 17) || within(x as int, w / 2 + 17, w / 2 + 103)) && !in_row0
            && !in_row1 ==> h / 2 >= 128
    }
}

impl UsernameQueryState {
    /// The item under the mouse at `(x, y)` (from the bottom left).
    pub fn get_hovering(win_size: (u16, u16), mouse_xy: (u16, u16), connecting: bool) -> (r: u32)
        requires
            hover_defined(win_size.0, win_size.1, mouse_xy.0, mouse_xy.1, connecting),
        ensures
            r == hover_target(win_size.0, win_size.1, mouse_xy.0, mouse_xy.1, connecting),
    {
        let (w, h) = win_size;
        let (x, y) = mouse_xy;
        if connecting {
            if x >= w / 2 - 112 / 2 && x <= w / 2 + 112 / 2 && y >= h / 2 - 128 && y <= h / 2 - 128 + 49 {
                return 0;
            }
            return NO_ITEM;
        }
        if x >= w / 2 - 246 / 2 && x <= w / 2 + 246 / 2 && y >= h / 2 + 60 && y <= h / 2 + 60 + 53 {
            return 0;
        }
        if x >= w / 2 - 246 / 2 && x <= w / 2 + 246 / 2 && y >= h / 2 - 41 && y <= h / 2 - 41 + 53 {
            return 1;
        }
        if x >= w / 2 - 86 / 2 - 60 && x <= w / 2 + 86 / 2 - 60 && y >= h / 2 - 128 && y <= h / 2 - 128 + 49 {
            return 2;
        }
        if x >= w / 2 - 86 / 2 + 60 && x <= w / 2 + 86 / 2 + 60 && y >= h / 2 - 128 && y <= h / 2 - 128 + 49 {
            return 3;
        }
        NO_ITEM
    }

    /// What pressing the join button does to the state: `self` is the state
    /// after, `before` the one before. The hover is reset to the first item; a
    /// username shorter than 3 bytes gives an error message and no request,
    /// else the typed username and address are handed out to be looked up.
    pub open spec fn joined(&self, before: &UsernameQueryState, r: Option<JoinRequest>) -> bool {
        let name = before.spec_username_box().spec_buffer();
        &&& self.spec_hovered() == 0
        &&& self.spec_username_box() == before.spec_username_box()
        &&& self.spec_address_box() == before.spec_address_box()
        &&& self.spec_connecting() == before.spec_connecting()
        &&& self.spec_selected() == before.spec_selected()
        &&& if byte_offset(name, name.len() as int) < 3 {
            &&& r is None
            &&& self.spec_message() == "Username is too short"@
            &&& self.spec_message_color() == error_color()
        } else {
            &&& r matches Some(j) && j.username@ == name && j.address@
                == before.spec_address_box().spec_buffer()
            &&& self.spec_message() == before.spec_message()
            &&& self.spec_message_color() == before.spec_message_color()
        }
    }

    /// Presses the join button (not while connecting): checks the username and
    /// hands out what to connect to; see [`UsernameQueryState::address_found`]
    /// for the rest.
    pub fn press_join_button(&mut self) -> (r: Option<JoinRequest>)
        requires
            old(self).wf(),
            !old(self).spec_connecting(),
        ensures
            final(self).wf(),
            final(self).joined(old(self), r),
    {
        self.hovered = 0;
        let username = self.username_box.contents();
        if utf8_byte_len(username) < 3 {
            self.message = "Username is too short".to_owned();
            self.message_color = TextColor::from_rgba(220, 50, 60, 255);
            return None;
        }
        let username = vstd::slice::slice_to_vec(username);
        let address = vstd::slice::slice_to_vec(self.address_box.contents());
        Some(JoinRequest { username, address })
    }

    /// What looking up the address gave: connecting starts with a message
    /// saying so, or an error message says why not.
    pub fn address_found(&mut self, lookup: AddressLookup)
        requires
            old(self).wf(),
        ensures
            final(self).wf(),
            final(self).spec_username_box() == old(self).spec_username_box(),
            final(self).spec_address_box() == old(self).spec_address_box(),
            final(self).spec_selected() == old(self).spec_selected(),
            final(self).spec_hovered() == old(self).spec_hovered(),
            match lookup {
                AddressLookup::Found => {
                    &&& final(self).spec_connecting()
                    &&& final(self).spec_message() == "Connecting..."@
                    &&& final(self).spec_message_color() == menu_text_color()
                },
                AddressLookup::NotFound => {
                    &&& final(self).spec_connecting() == old(self).spec_connecting()
                    &&& final(self).spec_message() == "No such address"@
                    &&& final(self).spec_message_color() == error_color()
                },
                AddressLookup::Invalid(e) => {
                    &&& final(self).spec_connecting() == old(self).spec_connecting()
                    &&& final(self).spec_message() == "Invalid address: "@ + e@
                    &&& final(self).spec_message_color() == error_color()
                },
            },
    {
        match lookup {
            AddressLookup::Found => {
                self.connecting = true;
                self.message = "Connecting...".to_owned();
                self.message_color = menu_text();
            },
            AddressLookup::NotFound => {
                self.message = "No such address".to_owned();
                self.message_color = TextColor::from_rgba(220, 50, 60, 255);
            },
            AddressLookup::Invalid(e) => {
                self.message = concat_str("Invalid address: ", e.as_str());
                self.message_color = TextColor::from_rgba(220, 50, 60, 255);
            },
        }
    }
}

/// What handling an event asks of the caller.
pub struct QueryResponse {
    /// Whether the selected text box consumed the event.
    pub consumed: bool,
    /// What the selected text box asks of the clipboard.
    pub clipboard: ClipboardRequest,
    /// Forget that the left mouse button is down (the click moved the
    /// selection to another item).
    pub release_left_mouse: bool,
    /// Drop the connection attempt.
    pub cancel_connection: bool,
    /// Look up this address and connect (see [`UsernameQueryState::address_found`]).
    pub join: Option<JoinRequest>,
    /// Quit the game.
    pub exit: bool,
}

impl UsernameQueryState {
    /// Everything but the boxes is as in `other`.
    pub open spec fn same_but_boxes(&self, other: &UsernameQueryState) -> bool {
        &&& self.spec_connecting() == other.spec_connecting()
        &&& self.spec_selected() == other.spec_selected()
        &&& self.spec_hovered() == other.spec_hovered()
        &&& self.spec_message() == other.spec_message()
        &&& self.spec_message_color() == other.spec_message_color()
    }

    /// Whether an event can be handled: it must suit the selected text box,
    /// and, for a click on the cancel button (which finds the item under the
    /// mouse anew), the hover test must be defined where the mouse is.
    pub open spec fn event_ok(
        &self,
        event: TextBoxEvent,
        input: TextBoxInput,
        tr: &TextRenderer,
        win_size: (u16, u16),
        mouse_xy: (u16, u16),
    ) -> bool {
        &&& self.spec_selected() == 0 ==> self.spec_username_box().event_ok(event, input, tr)
        &&& self.spec_selected() == 1 ==> self.spec_address_box().event_ok(event, input, tr)
        &&& (event == TextBoxEvent::LeftMousePressed && self.spec_connecting() && self.spec_hovered() == 0)
            ==> hover_defined(win_size.0, win_size.1, mouse_xy.0, sat_sub(win_size.1 as int, mouse_xy.1 as int) as u16, false)
    }

    /// What handling an event does (see [`UsernameQueryState::on_event`]):
    /// `self` is the state after, `before` the one before, `r` the response.
    pub open spec fn event_post(
        &self,
        before: &UsernameQueryState,
        event: TextBoxEvent,
        input: TextBoxInput,
        tr: &TextRenderer,
        win_size: (u16, u16),
        mouse_xy: (u16, u16),
        r: QueryResponse,
    ) -> bool {
        let sel = before.spec_selected();
        let hov = before.spec_hovered();
        let ub = self.spec_username_box();
        let ab = self.spec_address_box();
        &&& if sel == 0 {
            ub.event_post(&before.spec_username_box(), event, input, tr, (r.consumed, r.clipboard))
                && ab == before.spec_address_box()
        } else if sel == 1 {
            ab.event_post(&before.spec_address_box(), event, input, tr, (r.consumed, r.clipboard))
                && ub == before.spec_username_box()
        } else {
            &&& ub == before.spec_username_box()
            &&& ab == before.spec_address_box()
            &&& !r.consumed
            &&& r.clipboard == ClipboardRequest::Nothing
        }
        &&& if event == TextBoxEvent::KeyPressed(keys::TAB) && !input.mods.alt {
            &&& self.spec_selected() == if input.mods.shift {
                if sel == 0 { 3 } else { (sel - 1) as u32 }
            } else {
                if sel == 3 { 0 } else { (sel + 1) as u32 }
            }
            &&& self.spec_connecting() == before.spec_connecting()
            &&& self.spec_hovered() == hov
            &&& self.spec_message() == before.spec_message()
            &&& self.spec_message_color() == before.spec_message_color()
            &&& !r.release_left_mouse && !r.cancel_connection && r.join is None && !r.exit
        } else if event == TextBoxEvent::LeftMousePressed && hov != NO_ITEM {
            &&& r.release_left_mouse == (sel != hov)
            &&& if before.spec_connecting() {
                &&& r.join is None && !r.exit
                &&& r.cancel_connection == (hov == 0)
                &&& if hov == 0 {
                    &&& !self.spec_connecting()
                    &&& self.spec_selected() == 2
                    &&& self.spec_message().len() == 0
                    &&& self.spec_message_color() == before.spec_message_color()
                    &&& self.spec_hovered() == hover_target(
                        win_size.0,
                        win_size.1,
                        mouse_xy.0,
                        sat_sub(win_size.1 as int, mouse_xy.1 as int) as u16,
                        false,
                    )
                } else {
                    &&& self.spec_selected() == hov
                    &&& self.spec_connecting() == before.spec_connecting()
                    &&& self.spec_hovered() == hov
                    &&& self.spec_message() == before.spec_message()
                    &&& self.spec_message_color() == before.spec_message_color()
                }
            } else {
                &&& !r.cancel_connection
                &&& self.spec_selected() == hov
                &&& self.spec_connecting() == before.spec_connecting()
                &&& r.exit == (hov == 3)
                &&& if hov == 2 {
                    let name = before.spec_username_box().spec_buffer();
                    &&& self.spec_hovered() == 0
                    &&& if byte_offset(name, name.len() as int) < 3 {
                        &&& r.join is None
                        &&& self.spec_message() == "Username is too short"@
                        &&& self.spec_message_color() == error_color()
                    } else {
                        &&& r.join matches Some(j) && j.username@ == name && j.address@
                            == before.spec_address_box().spec_buffer()
                        &&& self.spec_message() == before.spec_message()
                        &&& self.spec_message_color() == before.spec_message_color()
                    }
                } else {
                    &&& r.join is None
                    &&& self.spec_hovered() == hov
                    &&& self.spec_message() == before.spec_message()
                    &&& self.spec_message_color() == before.spec_message_color()
                }
            }
        } else {
            &&& self.same_but_boxes(before)
            &&& !r.release_left_mouse && !r.cancel_connection && r.join is None && !r.exit
        }
    }

    /// Handles an input event: it goes to the selected text box; tab (without
    /// alt) selects the next item, shift+tab the previous one; a left click on
    /// an item selects it, and on a button presses it: cancel drops the
    /// connection attempt, join checks the username and hands out what to
    /// connect to, quit exits.
    pub fn on_event(
        &mut self,
        event: TextBoxEvent,
        input: TextBoxInput,
        tr: &TextRenderer,
        win_size: (u16, u16),
        mouse_xy: (u16, u16),
    ) -> (r: QueryResponse)
        requires
            old(self).wf(),
            tr.wf(),
            old(self).event_ok(event, input, tr, win_size, mouse_xy),
        ensures
            final(self).wf(),
            final(self).event_post(old(self), event, input, tr, win_size, mouse_xy, r),
    {
        let (consumed, clipboard) = if self.selected == 0 {
            let ghost b = self.username_box;
            let res = self.username_box.process_event(event, input, tr);
            proof {
                self.username_box.lemma_event_keeps_limit(&b, event, input, tr, res);
            }
            res
        } else if self.selected == 1 {
            let ghost b = self.address_box;
            let res = self.address_box.process_event(event, input, tr);
            proof {
                self.address_box.lemma_event_keeps_limit(&b, event, input, tr, res);
            }
            res
        } else {
            (false, ClipboardRequest::Nothing)
        };
        let mut r = QueryResponse {
            consumed,
            clipboard,
            release_left_mouse: false,
            cancel_connection: false,
            join: None,
            exit: false,
        };
        if event == TextBoxEvent::KeyPressed(keys::TAB) && !input.mods.alt {
            if input.mods.shift {
                if self.selected == 0 {
                    self.selected = 3;
                } else {
                    self.selected -= 1;
                }
            } else {
                if self.selected == 3 {
                    self.selected = 0;
                } else {
                    self.selected += 1;
                }
            }
        } else if event == TextBoxEvent::LeftMousePressed && self.hovered != NO_ITEM {
            if self.selected != self.hovered {
                r.release_left_mouse = true;
            }
            self.selected = self.hovered;
            if self.connecting {
                if self.selected == 0 {
                    self.connecting = false;
                    r.cancel_connection = true;
                    self.selected = 2;
                    self.message = String::new();
                    let (w, h) = win_size;
                    let (mx, my) = mouse_xy;
                    let yu = if h >= my { h - my } else { 0 };
                    self.hovered = Self::get_hovering(win_size, (mx, yu), false);
                }
            } else {
                if self.hovered == 2 {
                    r.join = self.press_join_button();
                }
                if self.hovered == 3 {
                    r.exit = true;
                    return r;
                }
            }
        }
        r
    }
}

/// Outline and fill of a selected item.
pub const SELECTED: u32 = 0x4c4964FF;
/// Outline and fill of an unselected item.
pub const UNSELECTED: u32 = 0x3c3a53FF;
/// Outline of a hovered item.
pub const HOVERED: u32 = 0x5d5b7aFF;
/// The dark inner border of items.
pub const DARK: u32 = 0x28263cFF;
/// Fill of the text boxes and buttons while connecting.
pub const CONNECTING_FILL: u32 = 0x302F43FF;

/// The (outline, fill) colors of the four items: the selected one lighter,
/// the hovered one with a light outline; while connecting, all dimmed.
pub open spec fn item_colors(selected: u32, hover: u32, connecting: bool) -> Seq<(u32, u32)> {
    if connecting {
        seq![(UNSELECTED, CONNECTING_FILL), (UNSELECTED, CONNECTING_FILL), (UNSELECTED, CONNECTING_FILL), (UNSELECTED, CONNECTING_FILL)]
    } else {
        let base = Seq::new(4, |i: int| if i == selected { (SELECTED, SELECTED) } else { (UNSELECTED, UNSELECTED) });
        if hover != NO_ITEM {
            base.update(hover as int, (HOVERED, SELECTED))
        } else {
            base
        }
    }
}

/// An item's rectangles at `(x, y)`, `w` by `h`: outline, a dark border 2
/// pixels in, and the fill 4 pixels in.
pub open spec fn item_rects(x: int, y: int, w: int, h: int, c: (u32, u32)) -> Seq<UiRect> {
    seq![
        UiRect { x: x as u16, y: y as u16, w: w as u16, h: h as u16, color: c.0 },
        UiRect { x: (x + 2) as u16, y: (y + 2) as u16, w: (w - 4) as u16, h: (h - 4) as u16, color: DARK },
        UiRect { x: (x + 4) as u16, y: (y + 4) as u16, w: (w - 8) as u16, h: (h - 8) as u16, color: c.1 },
    ]
}

/// The rectangles of the buttons: while connecting a cancel button in the
/// middle, otherwise join and quit 60 pixels left and right of it.
pub open spec fn button_rects(w: u16, h: u16, c: Seq<(u32, u32)>, connecting: bool) -> Seq<UiRect> {
    if connecting {
        item_rects(w / 2 - 56, h / 2 - 128, 112, 49, (SELECTED, SELECTED))
    } else {
        item_rects(w / 2 - 43 - 60, h / 2 - 128, 86, 49, c[2]) + item_rects(w / 2 - 43 + 60, h / 2 - 128, 86, 49, c[3])
    }
}

/// The button labels.
pub open spec fn button_texts(w: u16, h: u16, connecting: bool) -> Seq<TextOp> {
    let colors = seq![ColorRange(menu_text_color(), u32::MAX)];
    if connecting {
        seq![TextOp::Plain("Cancel"@, (w / 2 - 39) as u16, (h / 2 - 128 + 15) as u16, colors)]
    } else {
        seq![
            TextOp::Plain("Join"@, (w / 2 - 43 + 16 - 60) as u16, (h / 2 - 128 + 15) as u16, colors),
            TextOp::Plain("Quit"@, (w / 2 - 43 + 16 + 60) as u16, (h / 2 - 128 + 15) as u16, colors),
        ]
    }
}

/// The style the text boxes are drawn in: dimmed text while connecting.
pub open spec fn box_style(connecting: bool) -> BoxStyle {
    BoxStyle {
        cursor_color: 0xa7a4bfFF,
        text_color: if connecting {
            TextColor(packed_r6g6b6a3(0x4c, 0x49, 0x64, 0xff) as u32)
        } else {
            menu_text_color()
        },
    }
}

/// One item's colors, as [`item_colors`] gives them.
fn item_color(i: u32, selected: u32, hover: u32, connecting: bool) -> (r: (u32, u32))
    requires
        i < 4,
        selected < 4,
        hover < 4 || hover == NO_ITEM,
    ensures
        r == item_colors(selected, hover, connecting)[i as int],
{
    if connecting {
        (UNSELECTED, CONNECTING_FILL)
    } else if hover != NO_ITEM && i == hover {
        (HOVERED, SELECTED)
    } else if i == selected {
        (SELECTED, SELECTED)
    } else {
        (UNSELECTED, UNSELECTED)
    }
}

/// Queues an item's three rectangles.
fn draw_item(
    ui: &mut UiRenderer,
    x: u16,
    y: u16,
    w: u16,
    h: u16,
    c: (u32, u32),
    Ghost(start): Ghost<Seq<crate::renderer::ui_renderer::UiVertex>>,
    Ghost(done): Ghost<Seq<UiRect>>,
)
    requires
        x + w <= u16::MAX,
        y + h <= u16::MAX,
        w >= 8,
        h >= 8,
        rects_queued(start, old(ui).spec_vertices(), done),
    ensures
        rects_queued(start, final(ui).spec_vertices(), done + item_rects(x as int, y as int, w as int, h as int, c)),
        final(ui).spec_text() == old(ui).spec_text(),
        final(ui).spec_num_verts_to_draw() == old(ui).spec_num_verts_to_draw(),
{
    let r0 = UiRect { x, y, w, h, color: c.0 };
    let r1 = UiRect { x: x + 2, y: y + 2, w: w - 4, h: h - 4, color: DARK };
    let r2 = UiRect { x: x + 4, y: y + 4, w: w - 8, h: h - 8, color: c.1 };
    push_rect(ui, r0, Ghost(start), Ghost(done));
    push_rect(ui, r1, Ghost(start), Ghost(done.push(r0)));
    push_rect(ui, r2, Ghost(start), Ghost(done.push(r0).push(r1)));
    assert(done.push(r0).push(r1).push(r2) =~= done + item_rects(x as int, y as int, w as int, h as int, c));
}

/// How many lines of the message are drawn from `y0` down, 30 pixels apart:
/// lines stop once one is drawn below 30.
pub open spec fn message_line_count(n_lines: int, y0: int) -> int {
    vstd::math::min(n_lines, y0 / 30 + 1)
}

/// The message's text drawing steps on a screen `w` by `h` pixels: its lines,
/// each centered, the first with its base 162 below the middle.
pub open spec fn message_ops(glyphs: Seq<GlyphData>, msg: Seq<char>, w: u16, h: u16, color: TextColor) -> Seq<TextOp> {
    if msg.len() == 0 {
        Seq::empty()
    } else {
        let lines = text_lines(glyphs, msg, w - 60);
        let y0 = h / 2 - 162;
        Seq::new(
            message_line_count(lines.len() as int, y0) as nat,
            |k: int|
                TextOp::Plain(
                    lines[k],
                    (w / 2 - (3 * width_units(glyphs, lines[k])) / 2) as u16,
                    (y0 - 30 * k) as u16,
                    seq![ColorRange(color, u32::MAX)],
                ),
        )
    }
}

/// Whether the message can be drawn on a screen `w` by `h` pixels: the screen
/// is large enough, the message's bytes fit `u16`, its lines fit the 16-bit
/// widths, and no line is wider than the screen.
pub open spec fn message_fits(glyphs: Seq<GlyphData>, msg: Seq<char>, w: u16, h: u16) -> bool {
    msg.len() > 0 ==> {
        let lines = text_lines(glyphs, msg, w - 60);
        &&& h / 2 >= 162
        &&& w >= 60
        &&& byte_offset(msg, msg.len() as int) <= u16::MAX
        &&& linebreak_state(glyphs, msg, w - 60, msg.len() as int).fits
        &&& forall|k: int|
            0 <= k < message_line_count(lines.len() as int, h / 2 - 162) ==> {
                &&& 3 * width_units(glyphs, #[trigger] lines[k]) <= u16::MAX
                &&& (3 * width_units(glyphs, lines[k])) / 2 <= w / 2
            }
    }
}

impl UsernameQueryState {
    /// Draws the message, broken into lines no wider than the screen less 60
    /// pixels, centered, from 162 below the middle down.
    fn draw_message(&self, ui: &mut UiRenderer, w: u16, h: u16)
        requires
            old(ui).wf(),
            message_fits(old(ui).spec_text().spec_glyphs(), self.spec_message(), w, h),
            old(ui).spec_text().spec_text_buffer().len() + self.spec_message().len() <= u32::MAX,
        ensures
            final(ui).wf(),
            final(ui).spec_vertices() == old(ui).spec_vertices(),
            final(ui).spec_num_verts_to_draw() == old(ui).spec_num_verts_to_draw(),
            ops_post(
                old(ui).spec_text(),
                final(ui).spec_text(),
                message_ops(old(ui).spec_text().spec_glyphs(), self.spec_message(), w, h, self.spec_message_color()),
            ),
    {
        let ghost t0 = ui.spec_text();
        let ghost g = t0.spec_glyphs();
        let ghost msg = self.message@;
        proof {
            lemma_ops_none(t0);
        }
        if self.message.as_str().is_empty() {
            return;
        }
        let max_w = w - 60;
        let ghost bs = linebreaks(g, msg, max_w as int);
        let ghost lines = text_lines(g, msg, max_w as int);
        let ghost ops = message_ops(g, msg, w, h, self.message_color);
        proof {
            lemma_linebreaks_shape(g, msg, max_w as int);
            crate::text::lemma_byte_offset_bounds(msg, 0, msg.len() as int);
        }
        let breaks = ui.text_ref().compute_linebreaks(self.message.as_str(), max_w).to_vec();
        let ghost y0: int = h / 2 - 162;
        let mut prev: usize = 0;
        let mut y: u16 = h / 2 - 162;
        let mut k: usize = 0;
        let mut done = false;
        proof {
            assert(byte_offset(msg, 0) == 0);
            assert(char_at_byte(msg, 0) == 0) by {
                let i = char_at_byte(msg, 0);
                assert(byte_offset(msg, 0) == 0);
                crate::text::lemma_byte_offset_injective(msg, i, 0);
            }
            assert(ops.take(0) =~= Seq::<TextOp>::empty());
        }
        while !done && k < breaks.len()
            invariant
                breaks@ == bs,
                bs == linebreaks(g, msg, max_w as int),
                lines == text_lines(g, msg, max_w as int),
                ops == message_ops(g, msg, w, h, self.message_color),
                msg == self.message@,
                msg.len() > 0,
                g == t0.spec_glyphs(),
                max_w == w - 60,
                y0 == h / 2 - 162,
                h / 2 >= 162,
                message_fits(g, msg, w, h),
                byte_offset(msg, msg.len() as int) <= u16::MAX,
                t0.spec_text_buffer().len() + msg.len() <= u32::MAX,
                k <= bs.len(),
                done ==> ops.len() == k,
                !done ==> y == y0 - 30 * k,
                prev == if k == 0 { 0 } else { bs[k - 1] as int },
                0 <= char_at_byte(msg, prev as int) <= msg.len(),
                byte_offset(msg, char_at_byte(msg, prev as int)) == prev,
                ui.wf(),
                ui.spec_text().spec_glyphs() == g,
                ui.spec_text().spec_text_buffer().len() <= t0.spec_text_buffer().len() + char_at_byte(msg, prev as int),
                ui.spec_vertices() == old(ui).spec_vertices(),
                ui.spec_num_verts_to_draw() == old(ui).spec_num_verts_to_draw(),
                ops_post(t0, ui.spec_text(), ops.take(k as int)),
            decreases bs.len() - k,
        {
            let ghost cur = ui.spec_text();
            proof {
                lemma_text_line_bounds(g, msg, max_w as int, k as int);
                assert(k <= y0 / 30) by (nonlinear_arith)
                    requires
                        y == y0 - 30 * k,
                        y >= 0,
                        y0 >= 0,
                        k >= 0;
            }
            let ghost a = char_at_byte(msg, prev as int);
            let ghost b = char_at_byte(msg, bs[k as int] as int);
            let lb = breaks[k] as usize;
            let line = crate::text::str_slice(self.message.as_str(), prev, lb);
            assert(line@ == msg.subrange(a, b));
            assert(line@ == lines[k as int]);
            assert(ops[k as int] == TextOp::Plain(
                lines[k as int],
                (w / 2 - (3 * width_units(g, lines[k as int])) / 2) as u16,
                (y0 - 30 * k) as u16,
                seq![ColorRange(self.message_color, u32::MAX)],
            ));
            let length = ui.text_ref().compute_width(line);
            let pos = ui.draw_text_colored(line, w / 2 - length / 2, y, self.message_color);
            proof {
                let next = ui.spec_text();
                let op = ops[k as int];
                if line@.len() > 0 {
                    let colors = seq![ColorRange(self.message_color, u32::MAX)];
                    let style = choose|style: Style|
                        style.colors@ == colors && style.align == Align::Left && !style.italic
                            && cur.draw_post(next, line@, (w / 2 - length / 2) as u16, y, style, pos);
                    cur.lemma_plain_op(next, line@, (w / 2 - length / 2) as u16, y, style, pos);
                }
                lemma_ops_push(t0, cur, next, ops.take(k as int), op);
                assert(ops.take(k as int).push(op) =~= ops.take(k as int + 1));
                cur.lemma_op_growth(next, op);
            }
            prev = lb;
            k += 1;
            if y < 30 {
                done = true;
                proof {
                    assert(y0 / 30 == k - 1) by (nonlinear_arith)
                        requires
                            y == y0 - 30 * (k - 1),
                            y < 30,
                            y >= 0;
                }
            } else {
                y -= 30;
            }
        }
        proof {
            if !done {
                assert(k <= y0 / 30) by (nonlinear_arith)
                    requires
                        y == y0 - 30 * k,
                        y >= 0,
                        y0 >= 0,
                        k >= 0;
            }
            assert(ops.take(k as int) =~= ops);
        }
    }
}

impl UsernameQueryState {
    /// The item that shows as selected: none while connecting.
    pub open spec fn shown_selected(&self) -> u32 {
        if self.spec_connecting() {
            NO_ITEM
        } else {
            self.spec_selected()
        }
    }

    /// The username box placed for drawing on a screen `w` by `h`: active when
    /// shown as selected, 16 pixels into its frame above the middle.
    pub open spec fn placed_username_box(&self, w: u16, h: u16, time_ms: u32) -> TextBox {
        self.spec_username_box().with_active(self.shown_selected() == 0, time_ms, true).with_pos(
            ((w / 2 - 123 + 16) as u16, (h / 2 + 60 + 17) as u16),
        )
    }

    /// The address box placed for drawing, below the middle.
    pub open spec fn placed_address_box(&self, w: u16, h: u16, time_ms: u32) -> TextBox {
        self.spec_address_box().with_active(self.shown_selected() == 1, time_ms, true).with_pos(
            ((w / 2 - 123 + 16) as u16, (h / 2 - 41 + 17) as u16),
        )
    }

    /// Whether the screen can be drawn `w` by `h` pixels after `queued` glyph
    /// vertices: the screen is large enough, both boxes can be drawn, and so
    /// can the message.
    pub open spec fn draw_ok(&self, tr: &TextRenderer, queued: int, w: u16, h: u16, time_ms: u32) -> bool {
        let ub = self.placed_username_box(w, h, time_ms);
        let ab = self.placed_address_box(w, h, time_ms);
        &&& w >= 246
        &&& h >= 256
        &&& ub.draw_fits(tr, queued + 100, ub.scrolled_visible_start(tr), h, time_ms)
        &&& ab.draw_fits(tr, queued + 100, ab.scrolled_visible_start(tr), h, time_ms)
        &&& message_fits(tr.spec_glyphs(), self.spec_message(), w, h)
        &&& queued + 200 + self.spec_message().len() <= u32::MAX
    }

    /// What drawing the screen does: `self` is the state after, `before` the
    /// one before, `ui` and `after` the renderer before and after.
    pub open spec fn drawn(
        &self,
        before: &UsernameQueryState,
        ui: &UiRenderer,
        after: &UiRenderer,
        w: u16,
        h: u16,
        hover: u32,
        time_ms: u32,
    ) -> bool {
        let tr = ui.spec_text();
        let ub = self.spec_username_box();
        let ab = self.spec_address_box();
        let c = item_colors(before.spec_selected(), hover, before.spec_connecting());
        let style = box_style(before.spec_connecting());
        let label = seq![ColorRange(menu_text_color(), u32::MAX)];
        &&& ub == before.placed_username_box(w, h, time_ms).with_scroll(&tr)
        &&& ab == before.placed_address_box(w, h, time_ms).with_scroll(&tr)
        &&& self.same_but_boxes(before)
        &&& after.wf()
        &&& after.spec_num_verts_to_draw() == ui.spec_num_verts_to_draw()
        &&& rects_queued(
            ui.spec_vertices(),
            after.spec_vertices(),
            frame_rects(w, h) + item_rects(w / 2 - 123, h / 2 + 60, 246, 53, c[0]) + ub.draw_rects(
                &tr,
                ub.spec_visible_start() as int,
                time_ms,
                style,
            ) + item_rects(w / 2 - 123, h / 2 - 41, 246, 53, c[1]) + ab.draw_rects(
                &tr,
                ab.spec_visible_start() as int,
                time_ms,
                style,
            ) + button_rects(w, h, c, before.spec_connecting()),
        )
        &&& ops_post(
            tr,
            after.spec_text(),
            seq![
                TextOp::Plain("Username"@, (w / 2 - 123 + 60) as u16, (h / 2 + 60 + 63) as u16, label),
                ub.draw_op(h, style.text_color),
                TextOp::Plain("Server address"@, (w / 2 - 123 + 22) as u16, (h / 2 - 41 + 63) as u16, label),
                ab.draw_op(h, style.text_color),
            ] + button_texts(w, h, before.spec_connecting()) + message_ops(
                tr.spec_glyphs(),
                before.spec_message(),
                w,
                h,
                before.spec_message_color(),
            ),
        )
    }

    /// After drawing, the username box is active exactly when the screen is
    /// not connecting and the username box is selected, the address box
    /// exactly when not connecting and it is selected; both keep their text,
    /// and the rest of the screen's state is unchanged.
    pub proof fn lemma_drawn_boxes(
        &self,
        before: &UsernameQueryState,
        ui: &UiRenderer,
        after: &UiRenderer,
        w: u16,
        h: u16,
        hover: u32,
        time_ms: u32,
    )
        requires
            self.drawn(before, ui, after, w, h, hover, time_ms),
        ensures
            self.spec_username_box().spec_active() == (!before.spec_connecting() && before.spec_selected() == 0),
            self.spec_address_box().spec_active() == (!before.spec_connecting() && before.spec_selected() == 1),
            self.spec_username_box().spec_buffer() == before.spec_username_box().spec_buffer(),
            self.spec_address_box().spec_buffer() == before.spec_address_box().spec_buffer(),
            self.spec_selected() == before.spec_selected(),
            self.spec_connecting() == before.spec_connecting(),
            self.spec_message() == before.spec_message(),
    {
        let tr = ui.spec_text();
        let u0 = before.spec_username_box();
        let a0 = before.spec_address_box();
        let ua = u0.with_active(before.shown_selected() == 0, time_ms, true);
        let aa = a0.with_active(before.shown_selected() == 1, time_ms, true);
        u0.lemma_with_active(before.shown_selected() == 0, time_ms, true);
        a0.lemma_with_active(before.shown_selected() == 1, time_ms, true);
        let up = ((w / 2 - 123 + 16) as u16, (h / 2 + 60 + 17) as u16);
        let ap = ((w / 2 - 123 + 16) as u16, (h / 2 - 41 + 17) as u16);
        ua.lemma_with_pos(up);
        aa.lemma_with_pos(ap);
        ua.with_pos(up).lemma_with_scroll(&tr);
        aa.with_pos(ap).lemma_with_scroll(&tr);
    }

    /// Draws the screen: the border, the two labelled text boxes, the buttons
    /// (join and quit, or cancel while connecting) and the message.
    #[verifier::spinoff_prover]
    #[verifier::rlimit(100)]
    pub fn draw_ui(&mut self, ui: &mut UiRenderer, win_size: (u16, u16), hover: u32, time_ms: u32)
        requires
            old(self).wf(),
            old(ui).wf(),
            hover < 4 || hover == NO_ITEM,
            old(self).draw_ok(
                &old(ui).spec_text(),
                old(ui).spec_text().spec_text_buffer().len() as int,
                win_size.0,
                win_size.1,
                time_ms,
            ),
        ensures
            final(self).wf(),
            final(self).drawn(old(self), old(ui), final(ui), win_size.0, win_size.1, hover, time_ms),
    {
        let (w, h) = win_size;
        let ghost v0 = ui.spec_vertices();
        let ghost t0 = ui.spec_text();
        let ghost q0 = t0.spec_text_buffer().len() as int;
        let ghost g = t0.spec_glyphs();
        let ghost before = *self;
        let text = menu_text();
        let connecting = self.connecting;
        let sel = if connecting { NO_ITEM } else { self.selected };
        let c0 = item_color(0, self.selected, hover, connecting);
        let c1 = item_color(1, self.selected, hover, connecting);
        let c2 = item_color(2, self.selected, hover, connecting);
        let c3 = item_color(3, self.selected, hover, connecting);
        let ghost c = item_colors(self.selected, hover, connecting);
        let style = BoxStyle {
            cursor_color: 0xa7a4bfFF,
            text_color: if connecting { TextColor::from_rgba32(0x4c4964FF) } else { text },
        };
        proof {
            assert(crate::renderer::text_renderer::rgba_bytes(0x4c4964FFu32) == (0x4cu8, 0x49u8, 0x64u8, 0xffu8));
            assert(style == box_style(connecting));
            reveal_strlit("Username");
            reveal_strlit("Server address");
            reveal_strlit("Cancel");
            reveal_strlit("Join");
            reveal_strlit("Quit");
            crate::renderer::text_renderer::lemma_ops_none(t0);
        }
        let ghost label = seq![ColorRange(menu_text_color(), u32::MAX)];
        draw_frame(ui, w, h);
        let ghost rs1 = frame_rects(w, h);
        // Username: label, frame, box.
        draw_label(ui, "Username", w / 2 - 246 / 2 + 60, h / 2 + 60 + 63, text, Ghost(t0), Ghost(Seq::empty()));
        let ghost ops1 = Seq::<TextOp>::empty().push(
            TextOp::Plain("Username"@, (w / 2 - 123 + 60) as u16, (h / 2 + 60 + 63) as u16, label),
        );
        draw_item(ui, w / 2 - 246 / 2, h / 2 + 60, 246, 53, c0, Ghost(v0), Ghost(rs1));
        let ghost rs2 = rs1 + item_rects(w / 2 - 123, h / 2 + 60, 246, 53, c[0]);
        self.username_box.set_active(sel == 0, time_ms, true);
        self.username_box.set_pos((w / 2 - 246 / 2 + 16, h / 2 + 60 + 17));
        let ghost ub0 = self.username_box;
        let ghost ui2 = *ui;
        let ghost t2 = ui.spec_text();
        proof {
            assert(ub0 == before.placed_username_box(w, h, time_ms));
            ub0.lemma_with_scroll_glyphs(&t0, &t2);
        }
        let ur = self.username_box.draw_styled(ui, h, time_ms, style);
        let ghost ub = self.username_box;
        let ghost ui3 = *ui;
        let ghost rs3 = rs2 + ub.draw_rects(&t0, ub.spec_visible_start() as int, time_ms, style);
        let ghost ops3 = ops1.push(ub.draw_op(h, style.text_color));
        proof {
            ub.lemma_drawn_op(&ub0, &ui2, &ui3, h, time_ms, style, ur);
            lemma_rects_queued_concat(v0, ui2.spec_vertices(), ui3.spec_vertices(), rs2, ub.draw_rects(&t2, ub.spec_visible_start() as int, time_ms, style));
            crate::renderer::text_renderer::lemma_ops_push(t0, t2, ui3.spec_text(), ops1, ub.draw_op(h, style.text_color));
            t2.lemma_op_growth(ui3.spec_text(), ub.draw_op(h, style.text_color));
        }
        // Server address: label, frame, box.
        draw_label(ui, "Server address", w / 2 - 246 / 2 + 22, h / 2 - 41 + 63, text, Ghost(t0), Ghost(ops3));
        let ghost ops4 = ops3.push(
            TextOp::Plain("Server address"@, (w / 2 - 123 + 22) as u16, (h / 2 - 41 + 63) as u16, label),
        );
        draw_item(ui, w / 2 - 246 / 2, h / 2 - 41, 246, 53, c1, Ghost(v0), Ghost(rs3));
        let ghost rs4 = rs3 + item_rects(w / 2 - 123, h / 2 - 41, 246, 53, c[1]);
        self.address_box.set_active(sel == 1, time_ms, true);
        self.address_box.set_pos((w / 2 - 246 / 2 + 16, h / 2 - 41 + 17));
        let ghost ab0 = self.address_box;
        let ghost ui4 = *ui;
        let ghost t4 = ui.spec_text();
        proof {
            assert(ab0 == before.placed_address_box(w, h, time_ms));
            ab0.lemma_with_scroll_glyphs(&t0, &t4);
        }
        let ar = self.address_box.draw_styled(ui, h, time_ms, style);
        let ghost ab = self.address_box;
        let ghost ui5 = *ui;
        let ghost rs5 = rs4 + ab.draw_rects(&t0, ab.spec_visible_start() as int, time_ms, style);
        let ghost ops5 = ops4.push(ab.draw_op(h, style.text_color));
        proof {
            ab.lemma_drawn_op(&ab0, &ui4, &ui5, h, time_ms, style, ar);
            lemma_rects_queued_concat(v0, ui4.spec_vertices(), ui5.spec_vertices(), rs4, ab.draw_rects(&t4, ab.spec_visible_start() as int, time_ms, style));
            crate::renderer::text_renderer::lemma_ops_push(t0, t4, ui5.spec_text(), ops4, ab.draw_op(h, style.text_color));
            t4.lemma_op_growth(ui5.spec_text(), ab.draw_op(h, style.text_color));
        }
        // Buttons.
        if connecting {
            draw_label(ui, "Cancel", w / 2 - 78 / 2, h / 2 - 128 + 15, text, Ghost(t0), Ghost(ops5));
            draw_item(ui, w / 2 - 112 / 2, h / 2 - 128, 112, 49, (SELECTED, SELECTED), Ghost(v0), Ghost(rs5));
            proof {
                assert(ops5.push(TextOp::Plain("Cancel"@, (w / 2 - 39) as u16, (h / 2 - 128 + 15) as u16, label))
                    =~= ops5 + button_texts(w, h, connecting));
            }
        } else {
            draw_label(ui, "Join", w / 2 - 86 / 2 + 16 - 60, h / 2 - 128 + 15, text, Ghost(t0), Ghost(ops5));
            draw_item(ui, w / 2 - 86 / 2 - 60, h / 2 - 128, 86, 49, c2, Ghost(v0), Ghost(rs5));
            let ghost ops6 = ops5.push(
                TextOp::Plain("Join"@, (w / 2 - 43 + 16 - 60) as u16, (h / 2 - 128 + 15) as u16, label),
            );
            let ghost rs6 = rs5 + item_rects(w / 2 - 43 - 60, h / 2 - 128, 86, 49, c[2]);
            draw_label(ui, "Quit", w / 2 - 86 / 2 + 16 + 60, h / 2 - 128 + 15, text, Ghost(t0), Ghost(ops6));
            draw_item(ui, w / 2 - 86 / 2 + 60, h / 2 - 128, 86, 49, c3, Ghost(v0), Ghost(rs6));
            proof {
                assert(ops6.push(TextOp::Plain("Quit"@, (w / 2 - 43 + 16 + 60) as u16, (h / 2 - 128 + 15) as u16, label))
                    =~= ops5 + button_texts(w, h, connecting));
                assert(rs6 + item_rects(w / 2 - 43 + 60, h / 2 - 128, 86, 49, c[3]) =~= rs5 + button_rects(w, h, c, connecting));
            }
        }
        let ghost ops7 = ops5 + button_texts(w, h, connecting);
        let ghost t7 = ui.spec_text();
        self.draw_message(ui, w, h);
        proof {
            crate::renderer::text_renderer::lemma_ops_concat(
                t0,
                t7,
                ui.spec_text(),
                ops7,
                message_ops(t7.spec_glyphs(), self.message@, w, h, self.message_color),
            );
            assert(ops5 =~= seq![
                TextOp::Plain("Username"@, (w / 2 - 123 + 60) as u16, (h / 2 + 60 + 63) as u16, label),
                ub.draw_op(h, style.text_color),
                TextOp::Plain("Server address"@, (w / 2 - 123 + 22) as u16, (h / 2 - 41 + 63) as u16, label),
                ab.draw_op(h, style.text_color),
            ]);
            assert(rs5 + button_rects(w, h, c, connecting) =~= frame_rects(w, h) + item_rects(w / 2 - 123, h / 2 + 60, 246, 53, c[0]) + ub.draw_rects(
                &t0,
                ub.spec_visible_start() as int,
                time_ms,
                style,
            ) + item_rects(w / 2 - 123, h / 2 - 41, 246, 53, c[1]) + ab.draw_rects(
                &t0,
                ab.spec_visible_start() as int,
                time_ms,
                style,
            ) + button_rects(w, h, c, connecting));
        }
    }
}

/// How the connection attempt stands, as polled before a frame.
pub enum ConnectionPoll {
    /// Still connecting (or not connecting at all).
    Pending,
    /// Connected and logged in.
    Connected,
    /// The attempt failed; the error's text.
    Failed(String),
}

/// What a frame asks of the caller.
pub struct UpdateResponse {
    /// The mouse cursor's new look, when the hovered item changed.
    pub cursor_icon: Option<CursorIcon>,
    /// Drop the connection attempt.
    pub cancel_connection: bool,
    /// Look up this address and connect (see [`UsernameQueryState::address_found`]).
    pub join: Option<JoinRequest>,
    /// Enter the game as this user.
    pub enter_game: Option<Vec<char>>,
    /// Quit the game.
    pub exit: bool,
    /// Draw the screen ([`UsernameQueryState::draw_ui`]) this frame.
    pub draw: bool,
}

/// The cursor's look over an item: a text cursor over a text box (when not
/// connecting), a hand over a button, the default elsewhere.
pub open spec fn hover_icon(hover: u32, connecting: bool) -> CursorIcon {
    if hover == NO_ITEM {
        CursorIcon::Default
    } else if (hover == 0 || hover == 1) && !connecting {
        CursorIcon::Text
    } else {
        CursorIcon::Hand
    }
}

/// The "Connecting" message with 0 to 3 dots, padded to the same length,
/// changing every second.
pub open spec fn connecting_message(time_ms: u32) -> Seq<char> {
    let anim = (time_ms / 1000 % 4) as int;
    "Connecting"@ + "...   "@.subrange(3 - anim, 6 - anim)
}

impl UsernameQueryState {
    /// A frame, before drawing: the hovered item follows the mouse at `(x, y)`
    /// (from the top left). While connecting, the message animates; a finished
    /// connection enters the game, and a failed one (or releasing return or
    /// space) ends the attempt with the join button selected, showing the
    /// error or nothing. Otherwise releasing return (or space on the join
    /// button) presses join, and space on the quit button quits.
    pub fn on_update(
        &mut self,
        kb: &mut Keyboard,
        win_size: (u16, u16),
        mouse_xy: (u16, u16),
        time_ms: u32,
        poll: ConnectionPoll,
    ) -> (r: UpdateResponse)
        requires
            old(self).wf(),
            old(kb).wf(),
            hover_defined(
                win_size.0,
                win_size.1,
                mouse_xy.0,
                sat_sub(win_size.1 as int, mouse_xy.1 as int) as u16,
                old(self).spec_connecting(),
            ),
        ensures
            final(self).wf(),
            final(kb).wf(),
            final(self).updated(old(self), old(kb), win_size, mouse_xy, time_ms, poll, r),
            final(kb).spec_pressed() == released_keys(
                old(kb).spec_pressed(),
                old(self).keys_read(old(kb), poll).0,
                old(self).keys_read(old(kb), poll).1,
            ),
            final(kb).spec_just_released() == old(kb).spec_just_released(),
            final(kb).spec_frame_counter() == old(kb).spec_frame_counter(),
    {
        let (w, h) = win_size;
        let (mx, my) = mouse_xy;
        let yu = if h >= my { h - my } else { 0 };
        let hover = Self::get_hovering(win_size, (mx, yu), self.connecting);
        let mut r = UpdateResponse {
            cursor_icon: None,
            cancel_connection: false,
            join: None,
            enter_game: None,
            exit: false,
            draw: true,
        };
        if hover != self.hovered {
            self.hovered = hover;
            r.cursor_icon = Some(
                if hover != NO_ITEM {
                    if (hover == 0 || hover == 1) && !self.connecting {
                        CursorIcon::Text
                    } else {
                        CursorIcon::Hand
                    }
                } else {
                    CursorIcon::Default
                },
            );
        }
        if self.connecting {
            let anim = (time_ms / 1000 % 4) as usize;
            let dots = "...   ";
            proof {
                reveal_strlit("...   ");
                crate::text::lemma_ascii_byte_offset(dots@, 3 - anim as int);
                crate::text::lemma_ascii_byte_offset(dots@, 6 - anim as int);
            }
            self.message = concat_str("Connecting", str_slice(dots, 3 - anim, 6 - anim));
            let mut error = false;
            match poll {
                ConnectionPoll::Pending => {},
                ConnectionPoll::Connected => {
                    r.enter_game = Some(vstd::slice::slice_to_vec(self.username_box.contents()));
                    r.draw = false;
                    return r;
                },
                ConnectionPoll::Failed(e) => {
                    self.message = e;
                    self.message_color = TextColor::from_rgba(220, 50, 60, 255);
                    error = true;
                },
            }
            if error || kb.release(keys::RETURN) || kb.release(keys::SPACE) {
                self.connecting = false;
                r.cancel_connection = true;
                self.selected = 2;
                if !error {
                    self.message = String::new();
                }
            }
        } else {
            if kb.release(keys::RETURN) || (self.selected == 2 && kb.release(keys::SPACE)) {
                r.join = self.press_join_button();
            }
            if self.selected == 3 && kb.release(keys::SPACE) {
                r.exit = true;
                r.draw = false;
                return r;
            }
        }
        r
    }
}

/// Key-down frames after releasing return and space where asked.
pub open spec fn released_keys(pressed: Seq<u32>, ret: bool, space: bool) -> Seq<u32> {
    let p1 = if ret { pressed.update(keys::RETURN as int, 0) } else { pressed };
    if space { p1.update(keys::SPACE as int, 0) } else { p1 }
}

impl UsernameQueryState {
    /// What a frame does (see [`UsernameQueryState::on_update`]): `self` is
    /// the state after, `before` the one before, `kb` the keyboard before.
    pub open spec fn updated(
        &self,
        before: &UsernameQueryState,
        kb: &Keyboard,
        win_size: (u16, u16),
        mouse_xy: (u16, u16),
        time_ms: u32,
        poll: ConnectionPoll,
        r: UpdateResponse,
    ) -> bool {
        let (w, h) = win_size;
        let hover = hover_target(w, h, mouse_xy.0, sat_sub(h as int, mouse_xy.1 as int) as u16, before.spec_connecting());
        let ret = kb.spec_pressed_frames(keys::RETURN) > 0;
        let space = kb.spec_pressed_frames(keys::SPACE) > 0;
        &&& r.cursor_icon == if hover == before.spec_hovered() {
            None
        } else {
            Some(hover_icon(hover, before.spec_connecting()))
        }
        &&& self.spec_username_box() == before.spec_username_box()
        &&& self.spec_address_box() == before.spec_address_box()
        &&& if before.spec_connecting() {
            &&& r.join is None
            &&& !r.exit
            &&& self.spec_hovered() == hover
            &&& match poll {
                ConnectionPoll::Connected => {
                    &&& r.enter_game matches Some(u) && u@ == before.spec_username_box().spec_buffer()
                    &&& !r.draw
                    &&& !r.cancel_connection
                    &&& self.spec_connecting()
                    &&& self.spec_selected() == before.spec_selected()
                    &&& self.spec_message() == connecting_message(time_ms)
                    &&& self.spec_message_color() == before.spec_message_color()
                },
                ConnectionPoll::Failed(e) => {
                    &&& r.enter_game is None
                    &&& r.draw
                    &&& r.cancel_connection
                    &&& !self.spec_connecting()
                    &&& self.spec_selected() == 2
                    &&& self.spec_message() == e@
                    &&& self.spec_message_color() == error_color()
                },
                ConnectionPoll::Pending => {
                    &&& r.enter_game is None
                    &&& r.draw
                    &&& self.spec_message_color() == before.spec_message_color()
                    &&& r.cancel_connection == (ret || space)
                    &&& if ret || space {
                        &&& !self.spec_connecting()
                        &&& self.spec_selected() == 2
                        &&& self.spec_message().len() == 0
                    } else {
                        &&& self.spec_connecting()
                        &&& self.spec_selected() == before.spec_selected()
                        &&& self.spec_message() == connecting_message(time_ms)
                    }
                },
            }
        } else {
            let join = ret || (before.spec_selected() == 2 && space);
            let name = before.spec_username_box().spec_buffer();
            &&& r.enter_game is None
            &&& !r.cancel_connection
            &&& !self.spec_connecting()
            &&& self.spec_selected() == before.spec_selected()
            &&& r.exit == (before.spec_selected() == 3 && space)
            &&& r.draw == !r.exit
            &&& if join {
                &&& self.spec_hovered() == 0
                &&& if byte_offset(name, name.len() as int) < 3 {
                    &&& r.join is None
                    &&& self.spec_message() == "Username is too short"@
                    &&& self.spec_message_color() == error_color()
                } else {
                    &&& r.join matches Some(j) && j.username@ == name && j.address@
                        == before.spec_address_box().spec_buffer()
                    &&& self.spec_message() == before.spec_message()
                    &&& self.spec_message_color() == before.spec_message_color()
                }
            } else {
                &&& r.join is None
                &&& self.spec_hovered() == hover
                &&& self.spec_message() == before.spec_message()
                &&& self.spec_message_color() == before.spec_message_color()
            }
        }
    }
}

impl UsernameQueryState {
    /// Which of return and space a frame releases: while connecting and still
    /// waiting, return, and space unless return was down; when not
    /// connecting, return, and space when the join button is selected and
    /// return was up, or when the quit button is selected.
    pub open spec fn keys_read(&self, kb: &Keyboard, poll: ConnectionPoll) -> (bool, bool) {
        let ret = kb.spec_pressed_frames(keys::RETURN) > 0;
        if self.spec_connecting() {
            match poll {
                ConnectionPoll::Pending => (true, !ret),
                _ => (false, false),
            }
        } else {
            (true, (!ret && self.spec_selected() == 2) || self.spec_selected() == 3)
        }
    }
}

impl UsernameQueryState {
    /// The item under the mouse, as last seen.
    pub fn hovered(&self) -> (r: u32)
        ensures
            r == self.spec_hovered(),
    {
        self.hovered
    }

    /// Pastes clipboard text (after a paste request) into the selected text
    /// box; with a button selected nothing changes.
    pub fn paste_text(&mut self, clipboard_text: Option<Vec<char>>)
        requires
            old(self).wf(),
        ensures
            final(self).wf(),
            final(self).same_but_boxes(old(self)),
            old(self).spec_selected() == 0 ==> {
                &&& final(self).spec_username_box().same_settings(&old(self).spec_username_box())
                &&& final(self).spec_username_box().edit() == match clipboard_text {
                    Some(t) => es_paste(
                        old(self).spec_username_box().edit(),
                        t@,
                        old(self).spec_username_box().spec_valid_chars(),
                        14,
                    ),
                    None => old(self).spec_username_box().edit(),
                }
                &&& final(self).spec_address_box() == old(self).spec_address_box()
            },
            old(self).spec_selected() == 1 ==> {
                &&& final(self).spec_address_box().same_settings(&old(self).spec_address_box())
                &&& final(self).spec_address_box().edit() == match clipboard_text {
                    Some(t) => es_paste(
                        old(self).spec_address_box().edit(),
                        t@,
                        old(self).spec_address_box().spec_valid_chars(),
                        24,
                    ),
                    None => old(self).spec_address_box().edit(),
                }
                &&& final(self).spec_username_box() == old(self).spec_username_box()
            },
            old(self).spec_selected() >= 2 ==> *final(self) == *old(self),
    {
        if self.selected == 0 {
            proof {
                if clipboard_text is Some {
                    lemma_paste_limit(self.username_box.edit(), clipboard_text->0@, self.username_box.spec_valid_chars(), 14);
                }
            }
            self.username_box.paste_text(clipboard_text);
        } else if self.selected == 1 {
            proof {
                if clipboard_text is Some {
                    lemma_paste_limit(self.address_box.edit(), clipboard_text->0@, self.address_box.spec_valid_chars(), 24);
                }
            }
            self.address_box.paste_text(clipboard_text);
        }
    }
}

/// [`message_fits`]: whether a message can be drawn on a screen `w` by `h`.
pub fn message_fits_check(tr: &TextRenderer, msg: &str, w: u16, h: u16) -> (r: bool)
    requires
        tr.wf(),
    ensures
        r == message_fits(tr.spec_glyphs(), msg@, w, h),
{
    let ghost g = tr.spec_glyphs();
    let ghost s = msg@;
    let chars = str_chars(msg);
    if chars.len() == 0 {
        return true;
    }
    if h / 2 < 162 || w < 60 {
        return false;
    }
    proof {
        crate::text::lemma_byte_offset_bounds(s, 0, s.len() as int);
    }
    if chars.len() > 0xffff {
        return false;
    }
    let bytes = utf8_byte_len(chars.as_slice());
    if bytes > 0xffff {
        return false;
    }
    let max_w = w - 60;
    if !tr.linebreaks_fit(chars.as_slice(), max_w) {
        return false;
    }
    let ghost bs = linebreaks(g, s, max_w as int);
    let ghost lines = text_lines(g, s, max_w as int);
    let breaks = tr.compute_linebreaks(msg, max_w).to_vec();
    let y0: u16 = h / 2 - 162;
    let count: usize = if breaks.len() < (y0 / 30) as usize + 1 { breaks.len() } else { (y0 / 30) as usize + 1 };
    assert(count == message_line_count(lines.len() as int, y0 as int));
    let mut prev: usize = 0;
    let mut k: usize = 0;
    while k < count
        invariant
            count == message_line_count(lines.len() as int, y0 as int),
            y0 == h / 2 - 162,
            max_w == w - 60,
            breaks@ == bs,
            bs == linebreaks(g, s, max_w as int),
            lines == text_lines(g, s, max_w as int),
            g == tr.spec_glyphs(),
            s == msg@,
            tr.wf(),
            byte_offset(s, s.len() as int) <= u16::MAX,
            count <= bs.len(),
            k <= count,
            prev == if k == 0 { 0 } else { bs[k - 1] as int },
            forall|j: int|
                0 <= j < k ==> {
                    &&& 3 * width_units(g, #[trigger] lines[j]) <= u16::MAX
                    &&& (3 * width_units(g, lines[j])) / 2 <= w / 2
                },
        decreases count - k,
    {
        proof {
            lemma_text_line_bounds(g, s, max_w as int, k as int);
        }
        let ghost a = char_at_byte(s, prev as int);
        let ghost b = char_at_byte(s, bs[k as int] as int);
        let lb = breaks[k] as usize;
        let line = str_slice(msg, prev, lb);
        assert(line@ == s.subrange(a, b));
        assert(line@ == lines[k as int]);
        let line_chars = str_chars(line);
        if !tr.width_fits_u16(line_chars.as_slice()) {
            proof {
                assert(3 * width_units(g, lines[k as int]) > u16::MAX);
                assert(k < message_line_count(lines.len() as int, y0 as int));
            }
            return false;
        }
        let length = tr.compute_width_chars(line_chars.as_slice());
        if length / 2 > w / 2 {
            proof {
                assert((3 * width_units(g, lines[k as int])) / 2 > w / 2);
                assert(k < message_line_count(lines.len() as int, y0 as int));
            }
            return false;
        }
        prev = lb;
        k += 1;
    }
    true
}

impl UsernameQueryState {
    /// Whether the screen can be drawn ([`UsernameQueryState::draw_ok`]).
    pub fn draw_ok_check(&self, tr: &TextRenderer, queued: u64, w: u16, h: u16, time_ms: u32) -> (r: bool)
        requires
            self.wf(),
            tr.wf(),
            queued <= u32::MAX,
        ensures
            r == self.draw_ok(tr, queued as int, w, h, time_ms),
    {
        if w < 246 || h < 256 || queued > u32::MAX as u64 - 200 {
            return false;
        }
        let shown = if self.connecting { NO_ITEM } else { self.selected };
        let ub = self.username_box.placed_draw_fits(
            shown == 0,
            (w / 2 - 123 + 16, h / 2 + 60 + 17),
            tr,
            queued + 100,
            h,
            time_ms,
        );
        let ab = self.address_box.placed_draw_fits(
            shown == 1,
            (w / 2 - 123 + 16, h / 2 - 41 + 17),
            tr,
            queued + 100,
            h,
            time_ms,
        );
        let mf = message_fits_check(tr, self.message.as_str(), w, h);
        let n = self.message.as_str().unicode_len();
        ub && ab && mf && n as u64 <= u32::MAX as u64 - 200 - queued
    }
}

/// Whether the hover test is defined ([`hover_defined`]) with the mouse at
/// window pixel `mouse_xy` (from the top left), for callers that must check
/// before asking.
pub fn hover_defined_check(win_size: (u16, u16), mouse_xy: (u16, u16), connecting: bool) -> (r: bool)
    ensures
        r == hover_defined(
            win_size.0,
            win_size.1,
            mouse_xy.0,
            sat_sub(win_size.1 as int, mouse_xy.1 as int) as u16,
            connecting,
        ),
{
    let (w, h) = win_size;
    let x = mouse_xy.0 as u32;
    let y: u32 = if h >= mouse_xy.1 { (h - mouse_xy.1) as u32 } else { 0 };
    let (w2, h2) = ((w / 2) as u32, (h / 2) as u32);
    if connecting {
        w2 >= 56 && (!(w2 - 56 <= x && x <= w2 + 56) || h2 >= 128)
    } else {
        let in_row0 = h2 + 60 <= y && y <= h2 + 60 + 53;
        let in_col = w2 >= 123 && w2 - 123 <= x && x <= w2 + 123;
        if w2 < 123 {
            return false;
        }
        if in_col && !in_row0 && h2 < 41 {
            return false;
        }
        let in_row1 = h2 >= 41 && h2 - 41 <= y && y <= h2 - 41 + 53;
        let in_buttons = (w2 - 103 <= x && x <= w2 - 17) || (w2 + 17 <= x && x <= w2 + 103);
        !(in_buttons && !in_row0 && !in_row1) || h2 >= 128
    }
}

impl UsernameQueryState {
    /// Whether an event can be handled ([`UsernameQueryState::event_ok`]), for
    /// callers that must check before handing one over.
    pub fn event_ok_check(
        &self,
        event: TextBoxEvent,
        input: TextBoxInput,
        tr: &TextRenderer,
        win_size: (u16, u16),
        mouse_xy: (u16, u16),
    ) -> (r: bool)
        requires
            self.wf(),
            tr.wf(),
        ensures
            r == self.event_ok(event, input, tr, win_size, mouse_xy),
    {
        let box_ok = if self.selected == 0 {
            self.username_box.event_ok_check(event, input, tr)
        } else if self.selected == 1 {
            self.address_box.event_ok_check(event, input, tr)
        } else {
            true
        };
        let cancel_click = event == TextBoxEvent::LeftMousePressed && self.connecting && self.hovered == 0;
        box_ok && (!cancel_click || hover_defined_check(win_size, mouse_xy, false))
    }

    /// Whether a connection attempt is under way.
    pub fn connecting(&self) -> (r: bool)
        ensures
            r == self.spec_connecting(),
    {
        self.connecting
    }
}

} // verus!
