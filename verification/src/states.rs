//! The menu screens shown outside the game: asking for a username and server,
//! and telling that the connection was lost.

pub mod connection_lost;
pub mod username_query;
pub mod game;

use vstd::prelude::*;
use crate::renderer::text_renderer::{
    TextColor, TextRenderer, TextOp, ColorRange, Style, Align, packed_r6g6b6a3, ops_post, lemma_ops_push,
};
use crate::renderer::ui_renderer::{UiRenderer, UiRect, rects_queued, lemma_rects_queued_concat};

verus! {

/// The mouse cursor's look.
#[derive(Clone, Copy, PartialEq, Eq, Structural, Debug)]
pub enum CursorIcon {
    Default,
    Text,
    Hand,
}

/// Input a menu screen reacts to.
#[derive(Clone, Copy, PartialEq, Eq, Structural, Debug)]
pub enum MenuEvent {
    /// The mouse moved to window pixel `(x, y)`, `y` counted from the top.
    CursorMoved(u16, u16),
    /// The left mouse button went down.
    LeftPressed,
    /// Anything else.
    Other,
}

/// The color of menu text.
pub open spec fn menu_text_color() -> TextColor {
    TextColor(packed_r6g6b6a3(0xa7, 0xa4, 0xbf, 0xff) as u32)
}

/// [`menu_text_color`].
pub fn menu_text() -> (r: TextColor)
    ensures
        r == menu_text_color(),
{
    let c = TextColor::from_rgba32(0xa7a4bfFF);
    assert(crate::renderer::text_renderer::rgba_bytes(0xa7a4bfFFu32) == (0xa7u8, 0xa4u8, 0xbfu8, 0xffu8));
    c
}

/// The decorated border of a menu screen `w` by `h` pixels: a square in each
/// corner, and two bars along each edge.
pub open spec fn frame_rects(w: u16, h: u16) -> Seq<UiRect> {
    let x2 = (w - 48) as u16;
    let y2 = (h - 48) as u16;
    seq![
        UiRect { x: 0, y: 0, w: 48, h: 48, color: 0x4c4964FF },
        UiRect { x: 16, y: 16, w: 16, h: 16, color: 0x28263cFF },
        UiRect { x: 0, y: y2, w: 48, h: 48, color: 0x4c4964FF },
        UiRect { x: 16, y: (y2 + 16) as u16, w: 16, h: 16, color: 0x28263cFF },
        UiRect { x: x2, y: 0, w: 48, h: 48, color: 0x4c4964FF },
        UiRect { x: (x2 + 16) as u16, y: 16, w: 16, h: 16, color: 0x28263cFF },
        UiRect { x: x2, y: y2, w: 48, h: 48, color: 0x4c4964FF },
        UiRect { x: (x2 + 16) as u16, y: (y2 + 16) as u16, w: 16, h: 16, color: 0x28263cFF },
        UiRect { x: 64, y: 0, w: (x2 - 80) as u16, h: 32, color: 0x3c3a53FF },
        UiRect { x: 64, y: (y2 + 16) as u16, w: (x2 - 80) as u16, h: 32, color: 0x3c3a53FF },
        UiRect { x: 0, y: 64, w: 32, h: (y2 - 80) as u16, color: 0x3c3a53FF },
        UiRect { x: (x2 + 16) as u16, y: 64, w: 32, h: (y2 - 80) as u16, color: 0x3c3a53FF },
        UiRect { x: 80, y: 0, w: (x2 - 112) as u16, h: 16, color: 0x28263cFF },
        UiRect { x: 80, y: (y2 + 32) as u16, w: (x2 - 112) as u16, h: 16, color: 0x28263cFF },
        UiRect { x: 0, y: 80, w: 16, h: (y2 - 112) as u16, color: 0x28263cFF },
        UiRect { x: (x2 + 32) as u16, y: 80, w: 16, h: (y2 - 112) as u16, color: 0x28263cFF },
    ]
}

/// Queues a rectangle and extends the record of what was queued.
pub(crate) fn push_rect(ui: &mut UiRenderer, r: UiRect, Ghost(start): Ghost<Seq<crate::renderer::ui_renderer::UiVertex>>, Ghost(done): Ghost<Seq<UiRect>>)
    requires
        r.x + r.w <= u16::MAX,
        r.y + r.h <= u16::MAX,
        rects_queued(start, old(ui).spec_vertices(), done),
    ensures
        rects_queued(start, final(ui).spec_vertices(), done.push(r)),
        final(ui).spec_text() == old(ui).spec_text(),
        final(ui).spec_num_verts_to_draw() == old(ui).spec_num_verts_to_draw(),
{
    let ghost v = ui.spec_vertices();
    ui.draw_rect_xy_wh((r.x, r.y), (r.w, r.h), r.color);
    proof {
        lemma_rects_queued_concat(start, v, ui.spec_vertices(), done, seq![r]);
        assert(done + seq![r] =~= done.push(r));
    }
}

/// Queues the border of a menu screen `w` by `h` pixels.
pub fn draw_frame(ui: &mut UiRenderer, w: u16, h: u16)
    requires
        w >= 160,
        h >= 160,
    ensures
        rects_queued(old(ui).spec_vertices(), final(ui).spec_vertices(), frame_rects(w, h)),
        final(ui).spec_text() == old(ui).spec_text(),
        final(ui).spec_num_verts_to_draw() == old(ui).spec_num_verts_to_draw(),
{
    let ghost start = ui.spec_vertices();
    proof {
        crate::renderer::ui_renderer::lemma_rects_queued_none(start);
    }
    let x2 = w - 48;
    let y2 = h - 48;
    let rs = [
        UiRect { x: 0, y: 0, w: 48, h: 48, color: 0x4c4964FF },
        UiRect { x: 16, y: 16, w: 16, h: 16, color: 0x28263cFF },
        UiRect { x: 0, y: y2, w: 48, h: 48, color: 0x4c4964FF },
        UiRect { x: 16, y: y2 + 16, w: 16, h: 16, color: 0x28263cFF },
        UiRect { x: x2, y: 0, w: 48, h: 48, color: 0x4c4964FF },
        UiRect { x: x2 + 16, y: 16, w: 16, h: 16, color: 0x28263cFF },
        UiRect { x: x2, y: y2, w: 48, h: 48, color: 0x4c4964FF },
        UiRect { x: x2 + 16, y: y2 + 16, w: 16, h: 16, color: 0x28263cFF },
        UiRect { x: 64, y: 0, w: x2 - 80, h: 32, color: 0x3c3a53FF },
        UiRect { x: 64, y: y2 + 16, w: x2 - 80, h: 32, color: 0x3c3a53FF },
        UiRect { x: 0, y: 64, w: 32, h: y2 - 80, color: 0x3c3a53FF },
        UiRect { x: x2 + 16, y: 64, w: 32, h: y2 - 80, color: 0x3c3a53FF },
        UiRect { x: 80, y: 0, w: x2 - 112, h: 16, color: 0x28263cFF },
        UiRect { x: 80, y: y2 + 32, w: x2 - 112, h: 16, color: 0x28263cFF },
        UiRect { x: 0, y: 80, w: 16, h: y2 - 112, color: 0x28263cFF },
        UiRect { x: x2 + 32, y: 80, w: 16, h: y2 - 112, color: 0x28263cFF },
    ];
    assert(rs@ =~= frame_rects(w, h));
    let mut i: usize = 0;
    while i < 16
        invariant
            0 <= i <= 16,
            rs@ == frame_rects(w, h),
            w >= 160,
            h >= 160,
            rects_queued(start, ui.spec_vertices(), rs@.take(i as int)),
            ui.spec_text() == old(ui).spec_text(),
            ui.spec_num_verts_to_draw() == old(ui).spec_num_verts_to_draw(),
        decreases 16 - i,
    {
        push_rect(ui, rs[i], Ghost(start), Ghost(rs@.take(i as int)));
        assert(rs@.take(i as int).push(rs@[i as int]) =~= rs@.take(i as int + 1));
        i += 1;
    }
    assert(rs@.take(16) =~= rs@);
}

/// Queues a label in one color and extends the record of text drawn.
pub(crate) fn draw_label(
    ui: &mut UiRenderer,
    text: &str,
    x: u16,
    y: u16,
    color: TextColor,
    Ghost(t0): Ghost<TextRenderer>,
    Ghost(ops): Ghost<Seq<TextOp>>,
)
    requires
        old(ui).wf(),
        old(ui).spec_text().spec_text_buffer().len() + text@.len() <= u32::MAX,
        ops_post(t0, old(ui).spec_text(), ops),
    ensures
        final(ui).wf(),
        ops_post(t0, final(ui).spec_text(), ops.push(TextOp::Plain(text@, x, y, seq![ColorRange(color, u32::MAX)]))),
        final(ui).spec_text().spec_text_buffer().len() <= old(ui).spec_text().spec_text_buffer().len() + text@.len(),
        final(ui).spec_text().spec_glyphs() == old(ui).spec_text().spec_glyphs(),
        final(ui).spec_vertices() == old(ui).spec_vertices(),
        final(ui).spec_num_verts_to_draw() == old(ui).spec_num_verts_to_draw(),
{
    let ghost t1 = ui.spec_text();
    let pos = ui.draw_text_colored(text, x, y, color);
    proof {
        let t2 = ui.spec_text();
        let colors = seq![ColorRange(color, u32::MAX)];
        let op = TextOp::Plain(text@, x, y, colors);
        if text@.len() > 0 {
            let style = choose|style: Style|
                style.colors@ == colors && style.align == Align::Left && !style.italic && t1.draw_post(
                    t2,
                    text@,
                    x,
                    y,
                    style,
                    pos,
                );
            t1.lemma_plain_op(t2, text@, x, y, style, pos);
        }
        lemma_ops_push(t0, t1, t2, ops, op);
        t1.lemma_op_growth(t2, op);
    }
}

} // verus!
