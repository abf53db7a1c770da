use vstd::prelude::*;
use crate::renderer::text_renderer::{TextRenderer, Style, TextColor, ColorRange, Align};

verus! {

/// A vertex of the user interface.
#[derive(Clone, Copy, PartialEq, Eq, Structural, Debug)]
pub struct UiVertex {
    pub x: u16,
    pub y: u16,
    /// Either R8G8B8A7 or U16V15; the lowest bit: 0 colored, 1 textured.
    pub color_or_uv: u32,
}

impl UiVertex {
    /// A colored vertex.
    pub fn color(x: u16, y: u16, rgba: u32) -> (r: Self)
        ensures
            r == (UiVertex { x, y, color_or_uv: rgba }),
    {
        Self { x, y, color_or_uv: rgba }
    }
}

/// A 32-bit value with its bytes in reverse order.
pub open spec fn swap_bytes(x: u32) -> u32 {
    (((x & 0xffu32) << 24u32) | (((x >> 8u32) & 0xffu32) << 16u32)) | ((((x >> 16u32) & 0xffu32) << 8u32) | (x
        >> 24u32))
}

/// `u32::to_be`: the value in big-endian byte order. On a big-endian machine it
/// is the value itself, on a little-endian one its bytes reversed; which one
/// depends on the machine, so only that it is one of the two is stated.
#[verifier::external_body]
fn u32_to_be(x: u32) -> (r: u32)
    ensures
        r == x || r == swap_bytes(x),
{
    x.to_be()
}

/// The six vertices (two triangles) of a rectangle with one color.
pub open spec fn rect_vertices(x: u16, y: u16, w: u16, h: u16, c: u32) -> Seq<UiVertex> {
    seq![
        UiVertex { x, y, color_or_uv: c },
        UiVertex { x, y: (y + h) as u16, color_or_uv: c },
        UiVertex { x: (x + w) as u16, y, color_or_uv: c },
        UiVertex { x: (x + w) as u16, y, color_or_uv: c },
        UiVertex { x, y: (y + h) as u16, color_or_uv: c },
        UiVertex { x: (x + w) as u16, y: (y + h) as u16, color_or_uv: c },
    ]
}

/// A rectangle: its lower left corner, its size, and its color `0xRRGGBBAA`.
#[derive(Clone, Copy, PartialEq, Eq, Structural, Debug)]
pub struct UiRect {
    pub x: u16,
    pub y: u16,
    pub w: u16,
    pub h: u16,
    pub color: u32,
}

/// The six vertices of a rectangle start at `at` in `v`, in its color as
/// stored in the machine's byte order (the color or its bytes reversed).
pub open spec fn rect_queued_at(v: Seq<UiVertex>, at: int, r: UiRect) -> bool {
    exists|c: u32|
        (c == r.color || c == swap_bytes(r.color)) && #[trigger] v.subrange(at, at + 6) == rect_vertices(
            r.x,
            r.y,
            r.w,
            r.h,
            c,
        )
}

/// `after` is `before` followed by the vertices of the rectangles, in order.
pub open spec fn rects_queued(before: Seq<UiVertex>, after: Seq<UiVertex>, rects: Seq<UiRect>) -> bool {
    &&& after.len() == before.len() + 6 * rects.len()
    &&& after.take(before.len() as int) == before
    &&& forall|i: int| 0 <= i < rects.len() ==> #[trigger] rect_queued_at(after, before.len() + 6 * i, rects[i])
}

/// Queuing rectangles one list after another queues the joined list.
pub proof fn lemma_rects_queued_concat(
    a: Seq<UiVertex>,
    b: Seq<UiVertex>,
    c: Seq<UiVertex>,
    r1: Seq<UiRect>,
    r2: Seq<UiRect>,
)
    requires
        rects_queued(a, b, r1),
        rects_queued(b, c, r2),
    ensures
        rects_queued(a, c, r1 + r2),
{
    let r = r1 + r2;
    assert(c.take(a.len() as int) =~= b.take(a.len() as int)) by {
        assert forall|k: int| 0 <= k < a.len() implies c[k] == b[k] by {
            assert(c.take(b.len() as int)[k] == b[k]);
        }
    }
    assert forall|i: int| 0 <= i < r.len() implies #[trigger] rect_queued_at(c, a.len() + 6 * i, r[i]) by {
        if i < r1.len() {
            assert(rect_queued_at(b, a.len() + 6 * i, r1[i]));
            let w = choose|w: u32|
                (w == r1[i].color || w == swap_bytes(r1[i].color)) && #[trigger] b.subrange(
                    a.len() + 6 * i,
                    a.len() + 6 * i + 6,
                ) == rect_vertices(r1[i].x, r1[i].y, r1[i].w, r1[i].h, w);
            assert(c.subrange(a.len() + 6 * i, a.len() + 6 * i + 6) =~= b.subrange(
                a.len() + 6 * i,
                a.len() + 6 * i + 6,
            )) by {
                assert forall|k: int| a.len() + 6 * i <= k < a.len() + 6 * i + 6 implies #[trigger] c[k] == b[k] by {
                    assert(c.take(b.len() as int)[k] == b[k]);
                }
            }
        } else {
            let j = i - r1.len();
            assert(r[i] == r2[j]);
            assert(rect_queued_at(c, b.len() + 6 * j, r2[j]));
            assert(b.len() + 6 * j == a.len() + 6 * i);
        }
    }
}

/// Nothing queued: the vertices are unchanged.
pub proof fn lemma_rects_queued_none(a: Seq<UiVertex>)
    ensures
        rects_queued(a, a, Seq::empty()),
{
    assert(a.take(a.len() as int) =~= a);
}

/// The vertex queued for an integer position and four color channels.
pub open spec fn colored_vertex(v: ((i32, i32), (u32, u32, u32, u32))) -> UiVertex {
    let ((x, y), (r, g, b, a)) = v;
    UiVertex {
        x: x as u16,
        y: y as u16,
        color_or_uv: (r << 24u32) | (g << 16u32) | (b << 8u32) | a,
    }
}

/// The vertices queued for a list of integer positions and color channels.
pub open spec fn colored_vertices(vs: Seq<((i32, i32), (u32, u32, u32, u32))>) -> Seq<UiVertex> {
    vs.map_values(|v: ((i32, i32), (u32, u32, u32, u32))| colored_vertex(v))
}

/// The CPU side of the user interface renderer: the vertices queued this frame
/// and the text renderer.
pub struct UiRenderer {
    vertices: Vec<UiVertex>,
    text: TextRenderer,
    num_verts_to_draw: u32,
}

impl UiRenderer {
    pub closed spec fn spec_vertices(&self) -> Seq<UiVertex> {
        self.vertices@
    }

    pub closed spec fn spec_text(&self) -> TextRenderer {
        self.text
    }

    pub closed spec fn spec_num_verts_to_draw(&self) -> u32 {
        self.num_verts_to_draw
    }

    pub open spec fn wf(&self) -> bool {
        self.spec_text().wf()
    }

    /// A renderer with nothing queued.
    pub fn new(text: TextRenderer) -> (r: Self)
        ensures
            r.spec_vertices().len() == 0,
            r.spec_text() == text,
            r.spec_num_verts_to_draw() == 0,
    {
        Self { vertices: Vec::with_capacity(1024), text, num_verts_to_draw: 0 }
    }

    /// Queues vertices.
    pub fn draw(&mut self, vertices: &[UiVertex])
        ensures
            final(self).spec_vertices() == old(self).spec_vertices() + vertices@,
            final(self).spec_text() == old(self).spec_text(),
            final(self).spec_num_verts_to_draw() == old(self).spec_num_verts_to_draw(),
    {
        let mut i: usize = 0;
        while i < vertices.len()
            invariant
                i <= vertices@.len(),
                self.vertices@ == old(self).vertices@ + vertices@.take(i as int),
                self.text == old(self).text,
                self.num_verts_to_draw == old(self).num_verts_to_draw,
            decreases vertices@.len() - i,
        {
            self.vertices.push(vertices[i]);
            i += 1;
            assert(self.vertices@ =~= old(self).vertices@ + vertices@.take(i as int));
        }
        assert(vertices@.take(vertices@.len() as int) =~= vertices@);
    }

    /// Queues vertices given by an integer position and the four color
    /// channels; positions are cut to 16 bits and the channels packed as
    /// `0xRRGGBBAA`, each shifted into place within 32 bits.
    pub fn draw_colored(&mut self, vertices: &[((i32, i32), (u32, u32, u32, u32))])
        ensures
            final(self).spec_vertices() == old(self).spec_vertices() + colored_vertices(vertices@),
            final(self).spec_text() == old(self).spec_text(),
            final(self).spec_num_verts_to_draw() == old(self).spec_num_verts_to_draw(),
    {
        let mut i: usize = 0;
        while i < vertices.len()
            invariant
                i <= vertices@.len(),
                self.vertices@ == old(self).vertices@ + colored_vertices(vertices@.take(i as int)),
                self.text == old(self).text,
                self.num_verts_to_draw == old(self).num_verts_to_draw,
            decreases vertices@.len() - i,
        {
            let ((x, y), (r, g, b, a)) = vertices[i];
            let color = (r << 24u32) | (g << 16u32) | (b << 8u32) | a;
            let v = UiVertex { x: #[verifier::truncate] (x as u16), y: #[verifier::truncate] (y as u16), color_or_uv: color };
            assert(v == colored_vertex(vertices@[i as int]));
            self.vertices.push(v);
            i += 1;
            assert(colored_vertices(vertices@.take(i as int)) =~= colored_vertices(vertices@.take(i - 1)).push(v));
            assert(self.vertices@ =~= old(self).vertices@ + colored_vertices(vertices@.take(i as int)));
        }
        assert(vertices@.take(vertices@.len() as int) =~= vertices@);
    }

    /// Queues a rectangle with its lower left corner at `xy`, of size `wh`, in
    /// the color `0xRRGGBBAA` (in big-endian byte order).
    pub fn draw_rect_xy_wh(&mut self, xy: (u16, u16), wh: (u16, u16), color: u32)
        requires
            xy.0 + wh.0 <= u16::MAX,
            xy.1 + wh.1 <= u16::MAX,
        ensures
            rects_queued(
                old(self).spec_vertices(),
                final(self).spec_vertices(),
                seq![UiRect { x: xy.0, y: xy.1, w: wh.0, h: wh.1, color }],
            ),
            final(self).spec_text() == old(self).spec_text(),
            final(self).spec_num_verts_to_draw() == old(self).spec_num_verts_to_draw(),
    {
        let (x, y) = xy;
        let (w, h) = wh;
        let c = u32_to_be(color);
        let quad = [
            UiVertex::color(x, y, c),
            UiVertex::color(x, y + h, c),
            UiVertex::color(x + w, y, c),
            UiVertex::color(x + w, y, c),
            UiVertex::color(x, y + h, c),
            UiVertex::color(x + w, y + h, c),
        ];
        let ghost before = self.vertices@;
        self.draw(&quad);
        proof {
            let after = self.vertices@;
            let n = before.len() as int;
            assert(quad@ =~= rect_vertices(x, y, w, h, c));
            assert(after.take(n) =~= before);
            assert(after.subrange(n, n + 6) =~= rect_vertices(x, y, w, h, c));
            let rs = seq![UiRect { x: xy.0, y: xy.1, w: wh.0, h: wh.1, color }];
            assert(after.subrange(n + 6 * 0, n + 6 * 0 + 6) == rect_vertices(rs[0].x, rs[0].y, rs[0].w, rs[0].h, c));
            assert(rect_queued_at(after, n + 6 * 0, rs[0]));
        }
    }

    /// Queues text in the default style; returns its width in pixels and `y`.
    pub fn draw_text(&mut self, text: &str, x: u16, y: u16) -> (r: (u16, u16))
        requires
            old(self).wf(),
            old(self).spec_text().spec_text_buffer().len() + text@.len() <= u32::MAX,
        ensures
            final(self).wf(),
            final(self).spec_vertices() == old(self).spec_vertices(),
            final(self).spec_num_verts_to_draw() == old(self).spec_num_verts_to_draw(),
            text@.len() == 0 ==> r == (0u16, y) && final(self).spec_text() == old(self).spec_text(),
            text@.len() > 0 ==> exists|style: Style|
                style.colors@ == Seq::<ColorRange>::empty() && style.align == Align::Left && !style.italic
                    && old(self).spec_text().draw_post(final(self).spec_text(), text@, x, y, style, r),
    {
        let style = Style::default_style();
        assert(style.colors@ =~= Seq::<ColorRange>::empty());
        self.draw_text_styled(text, x, y, style)
    }

    /// Queues text in a style; returns its width in pixels and `y`.
    pub fn draw_text_styled(&mut self, text: &str, x: u16, y: u16, style: Style) -> (r: (u16, u16))
        requires
            old(self).wf(),
            old(self).spec_text().spec_text_buffer().len() + text@.len() <= u32::MAX,
        ensures
            final(self).wf(),
            final(self).spec_vertices() == old(self).spec_vertices(),
            final(self).spec_num_verts_to_draw() == old(self).spec_num_verts_to_draw(),
            text@.len() == 0 ==> r == (0u16, y) && final(self).spec_text() == old(self).spec_text(),
            text@.len() > 0 ==> old(self).spec_text().draw_post(final(self).spec_text(), text@, x, y, style, r),
    {
        self.text.draw_2d(text, x, y, style)
    }

    /// Queues text in one color; returns its width in pixels and `y`.
    pub fn draw_text_colored(&mut self, text: &str, x: u16, y: u16, color: TextColor) -> (r: (u16, u16))
        requires
            old(self).wf(),
            old(self).spec_text().spec_text_buffer().len() + text@.len() <= u32::MAX,
        ensures
            final(self).wf(),
            final(self).spec_vertices() == old(self).spec_vertices(),
            final(self).spec_num_verts_to_draw() == old(self).spec_num_verts_to_draw(),
            text@.len() == 0 ==> r == (0u16, y) && final(self).spec_text() == old(self).spec_text(),
            text@.len() > 0 ==> exists|style: Style|
                style.colors@ == seq![ColorRange(color, u32::MAX)] && style.align == Align::Left && !style.italic
                    && old(self).spec_text().draw_post(final(self).spec_text(), text@, x, y, style, r),
    {
        let colors = [ColorRange::new(color, u32::MAX)];
        let mut style = Style::default_style();
        style.colors = &colors;
        assert(style.colors@ =~= seq![ColorRange(color, u32::MAX)]);
        let r = self.text.draw_2d(text, x, y, style);
        assert(text@.len() > 0 ==> style.colors@ == seq![ColorRange(color, u32::MAX)] && style.align == Align::Left
            && !style.italic && old(self).spec_text().draw_post(self.spec_text(), text@, x, y, style, r));
        r
    }

    /// The text renderer, for drawing and measuring text.
    pub fn text(&mut self) -> (r: &mut TextRenderer)
        ensures
            *r == old(self).spec_text(),
            final(self).spec_text() == *final(r),
            final(self).spec_vertices() == old(self).spec_vertices(),
            final(self).spec_num_verts_to_draw() == old(self).spec_num_verts_to_draw(),
    {
        &mut self.text
    }

    /// The text renderer, for measuring text.
    pub fn text_ref(&self) -> (r: &TextRenderer)
        ensures
            *r == self.spec_text(),
    {
        &self.text
    }

    /// The queued vertices, for upload.
    pub fn vertices(&self) -> (r: &[UiVertex])
        ensures
            r@ == self.spec_vertices(),
    {
        self.vertices.as_slice()
    }

    /// After an upload: the uploaded vertices are the ones to draw, and the
    /// queue is emptied.
    pub fn finish_upload(&mut self)
        requires
            old(self).spec_vertices().len() <= u32::MAX,
        ensures
            final(self).spec_num_verts_to_draw() == old(self).spec_vertices().len(),
            final(self).spec_vertices().len() == 0,
            final(self).spec_text() == old(self).spec_text(),
    {
        self.num_verts_to_draw = self.vertices.len() as u32;
        self.vertices.clear();
    }

    /// The number of vertices to draw this frame; it is reset to 0.
    pub fn take_num_verts_to_draw(&mut self) -> (r: u32)
        ensures
            r == old(self).spec_num_verts_to_draw(),
            final(self).spec_num_verts_to_draw() == 0,
            final(self).spec_vertices() == old(self).spec_vertices(),
            final(self).spec_text() == old(self).spec_text(),
    {
        let n = self.num_verts_to_draw;
        self.num_verts_to_draw = 0;
        n
    }
}

} // verus!
