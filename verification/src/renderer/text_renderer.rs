use vstd::prelude::*;
use smallvec::SmallVec;
use crate::text::{str_chars, len_utf8, byte_offset, utf8_len};

verus! {

/// Horizontal alignment of drawn text.
#[derive(Clone, Copy, PartialEq, Eq, Structural, Debug)]
pub enum Align {
    Left,
    Center,
    Right,
}

impl Default for Align {
    fn default() -> (r: Self)
        ensures
            r == Align::Left,
    {
        Align::Left
    }
}

/// How text is drawn.
#[derive(Clone, Copy)]
pub struct Style<'a> {
    pub align: Align,
    pub italic: bool,
    /// Starting from the text's x, not from x = 0.
    pub max_line_width_px: u32,
    pub colors: &'a [ColorRange],
}

impl<'a> Style<'a> {
    /// Left aligned, upright, unbounded width, default colors.
    pub fn default_style() -> (r: Style<'a>)
        ensures
            r.align == Align::Left,
            !r.italic,
            r.max_line_width_px == u32::MAX,
            r.colors@.len() == 0,
    {
        let empty: &[ColorRange] = &[];
        Style { align: Align::Left, italic: false, max_line_width_px: u32::MAX, colors: empty }
    }
}

/// A text color packed as 6 bits each of red, green and blue and 3 bits of alpha.
#[derive(Clone, Copy, PartialEq, Eq, Structural, Debug)]
pub struct TextColor(pub u32);

/// `min(x, 255)`
pub open spec fn clamp_to_byte(x: int) -> int {
    if x > 255 {
        255
    } else {
        x
    }
}

/// A color channel rounded to 6 bits.
pub open spec fn channel6(c: u8) -> int {
    clamp_to_byte(c + 2) / 4
}

/// Alpha rounded to 3 bits.
pub open spec fn alpha3(a: u8) -> int {
    clamp_to_byte(a + 4) / 32
}

/// The packed form: red above bit 15, green above bit 9, blue above bit 3, alpha below.
pub open spec fn packed_r6g6b6a3(r: u8, g: u8, b: u8, a: u8) -> int {
    channel6(r) * 32768 + channel6(g) * 512 + channel6(b) * 8 + alpha3(a)
}

fn clamp_to_range(x: u32) -> (r: u32)
    ensures
        r == clamp_to_byte(x as int),
{
    if x > 255 {
        255
    } else {
        x
    }
}

/// Packs 8-bit channels into 6-bit color and 3-bit alpha, rounding to the
/// nearest value instead of flooring.
pub fn r8g8b8a8_to_r6g6b6a3(r: u8, g: u8, b: u8, a: u8) -> (res: u32)
    ensures
        res == packed_r6g6b6a3(r, g, b, a),
        res < 0x20_0000,
{
    let r6 = clamp_to_range(r as u32 + 2) >> 2u32;
    let g6 = clamp_to_range(g as u32 + 2) >> 2u32;
    let b6 = clamp_to_range(b as u32 + 2) >> 2u32;
    let a3 = clamp_to_range(a as u32 + 4) >> 5u32;
    assert(forall|x: u32| x <= 255 ==> #[trigger] (x >> 2u32) == x / 4 && (x >> 2u32) < 64) by (bit_vector);
    assert(forall|x: u32| x <= 255 ==> #[trigger] (x >> 5u32) == x / 32 && (x >> 5u32) < 8) by (bit_vector);
    assert(r6 < 64 && g6 < 64 && b6 < 64 && a3 < 8 ==> (r6 << 15u32) | (g6 << 9u32) | (b6 << 3u32) | a3
        == r6 * 32768 + g6 * 512 + b6 * 8 + a3) by (bit_vector);
    (r6 << 15u32) | (g6 << 9u32) | (b6 << 3u32) | a3
}

/// The four bytes of a 32-bit RGBA color, red in the top byte.
pub open spec fn rgba_bytes(rgba: u32) -> (u8, u8, u8, u8) {
    ((rgba / 0x100_0000) as u8, ((rgba / 0x1_0000) % 256) as u8, ((rgba / 0x100) % 256) as u8, (rgba
        % 256) as u8)
}

/// [`r8g8b8a8_to_r6g6b6a3`] of the four bytes of `0xRRGGBBAA`.
pub fn u32_r8g8b8a8_to_r6g6b6a3(rgba: u32) -> (res: u32)
    ensures
        res == packed_r6g6b6a3(rgba_bytes(rgba).0, rgba_bytes(rgba).1, rgba_bytes(rgba).2, rgba_bytes(rgba).3),
{
    let r = (rgba >> 24u32) as u8;
    let g = ((rgba >> 16u32) & 0xFF) as u8;
    let b = ((rgba >> 8u32) & 0xFF) as u8;
    let a = (rgba & 0xFF) as u8;
    assert((rgba >> 24u32) == rgba / 0x100_0000 && (rgba >> 16u32) & 0xFF == (rgba / 0x1_0000) % 256 && (
    rgba >> 8u32) & 0xFF == (rgba / 0x100) % 256 && rgba & 0xFF == rgba % 256) by (bit_vector);
    r8g8b8a8_to_r6g6b6a3(r, g, b, a)
}

/// Rounding keeps every channel within two steps of its 8-bit value, except
/// where the top of the range is clamped.
pub proof fn lemma_rounding(c: u8)
    ensures
        c <= 253 ==> -1 <= channel6(c) * 4 - c <= 2,
        channel6(c) < 64,
        alpha3(c) < 8,
        c <= 251 ==> -27 <= alpha3(c) * 32 - c <= 4,
{
}

/// The packed channels can be read back from their bit fields.
pub proof fn lemma_packed_fields(r: u8, g: u8, b: u8, a: u8)
    ensures
        packed_r6g6b6a3(r, g, b, a) / 32768 == channel6(r),
        (packed_r6g6b6a3(r, g, b, a) / 512) % 64 == channel6(g),
        (packed_r6g6b6a3(r, g, b, a) / 8) % 64 == channel6(b),
        packed_r6g6b6a3(r, g, b, a) % 8 == alpha3(a),
{
    lemma_fields(channel6(r), channel6(g), channel6(b), alpha3(a));
}

proof fn lemma_fields(r: int, g: int, b: int, a: int)
    requires
        0 <= r < 64,
        0 <= g < 64,
        0 <= b < 64,
        0 <= a < 8,
    ensures
        (r * 32768 + g * 512 + b * 8 + a) / 32768 == r,
        ((r * 32768 + g * 512 + b * 8 + a) / 512) % 64 == g,
        ((r * 32768 + g * 512 + b * 8 + a) / 8) % 64 == b,
        (r * 32768 + g * 512 + b * 8 + a) % 8 == a,
{
    let x = r * 32768 + g * 512 + b * 8 + a;
    assert(x / 32768 == r) by (nonlinear_arith)
        requires x == r * 32768 + g * 512 + b * 8 + a, 0 <= g * 512 + b * 8 + a < 32768;
    assert(x / 512 == r * 64 + g) by (nonlinear_arith)
        requires x == r * 32768 + g * 512 + b * 8 + a, 0 <= b * 8 + a < 512;
    assert((r * 64 + g) % 64 == g) by (nonlinear_arith)
        requires 0 <= g < 64;
    assert(x / 8 == r * 4096 + g * 64 + b) by (nonlinear_arith)
        requires x == r * 32768 + g * 512 + b * 8 + a, 0 <= a < 8;
    assert((r * 4096 + g * 64 + b) % 64 == b) by (nonlinear_arith)
        requires 0 <= b < 64;
    assert(x % 8 == a) by (nonlinear_arith)
        requires x == r * 32768 + g * 512 + b * 8 + a, 0 <= a < 8;
}

impl TextColor {
    pub fn from_rgba(r: u8, g: u8, b: u8, a: u8) -> (res: Self)
        ensures
            res.0 == packed_r6g6b6a3(r, g, b, a),
    {
        Self(r8g8b8a8_to_r6g6b6a3(r, g, b, a))
    }

    pub fn from_rgba32(rgba: u32) -> (res: Self)
        ensures
            res.0 == packed_r6g6b6a3(
                rgba_bytes(rgba).0,
                rgba_bytes(rgba).1,
                rgba_bytes(rgba).2,
                rgba_bytes(rgba).3,
            ),
    {
        Self(u32_r8g8b8a8_to_r6g6b6a3(rgba))
    }
}

impl Default for TextColor {
    /// Opaque white.
    fn default() -> (r: Self)
        ensures
            r.0 == packed_r6g6b6a3(255, 255, 255, 255),
    {
        Self::from_rgba(255, 255, 255, 255)
    }
}

/// A color applied to the next `n` glyphs.
#[derive(Clone, Copy, PartialEq, Eq, Structural, Debug)]
pub struct ColorRange(pub TextColor, pub u32);

/// The packed value of the default text color, opaque white.
pub open spec fn default_text_color() -> TextColor {
    TextColor(packed_r6g6b6a3(255, 255, 255, 255) as u32)
}

impl Default for ColorRange {
    /// The default color for every glyph.
    fn default() -> (r: Self)
        ensures
            r == ColorRange(default_text_color(), u32::MAX),
    {
        Self::default_for(u32::MAX)
    }
}

impl ColorRange {
    /// The default color for `num_glyphs` glyphs.
    pub fn default_for(num_glyphs: u32) -> (r: Self)
        ensures
            r == ColorRange(default_text_color(), num_glyphs),
    {
        Self(TextColor::from_rgba(0xFF, 0xFF, 0xFF, 0xFF), num_glyphs)
    }

    pub fn new(color: TextColor, n: u32) -> (r: Self)
        ensures
            r == ColorRange(color, n),
    {
        Self(color, n)
    }

    pub fn from_rgba_n(r: u8, g: u8, b: u8, a: u8, n_glyphs: u32) -> (res: Self)
        ensures
            res.0.0 == packed_r6g6b6a3(r, g, b, a),
            res.1 == n_glyphs,
    {
        Self(TextColor::from_rgba(r, g, b, a), n_glyphs)
    }

    pub fn from_rgba32_n(rgba: u32, n_glyphs: u32) -> (res: Self)
        ensures
            res.0.0 == packed_r6g6b6a3(
                rgba_bytes(rgba).0,
                rgba_bytes(rgba).1,
                rgba_bytes(rgba).2,
                rgba_bytes(rgba).3,
            ),
            res.1 == n_glyphs,
    {
        Self(TextColor::from_rgba32(rgba), n_glyphs)
    }
}

/// One glyph sent to the GPU, two packed words (layout documented with the text shader).
#[derive(Clone, Copy, PartialEq, Eq, Structural, Debug)]
pub struct GlyphVertex {
    pub d1: u32,
    pub d2: u32,
}

/// Metrics of one glyph of the pixel font. All units are in font pixels.
#[derive(Clone, Copy, PartialEq, Eq, Structural, Debug)]
pub struct GlyphData {
    /// The character this entry is for: the table is indexed by the low byte of
    /// the character, so this tells whether the entry really is the character.
    pub char: u32,
    /// `(base << 7) | dims`, as the shader reads it.
    pub base_and_dims: u16,
    pub advance: u8,
    /// `(layer_y << 4) | layer_x`
    pub layer: u8,
}

/// Number of entries of the glyph table.
pub const GLYPH_TABLE_LEN: usize = 256;

/// The table entry for a character: the one at its low byte.
pub open spec fn glyph_for(glyphs: Seq<GlyphData>, c: char) -> GlyphData {
    glyphs[((c as u32) % 256) as int]
}

/// Whether the table holds a glyph for the character itself.
pub open spec fn has_glyph(glyphs: Seq<GlyphData>, c: char) -> bool {
    glyph_for(glyphs, c).char == c as u32
}

/// Sum of the advances of the table entries of the characters.
pub open spec fn width_units(glyphs: Seq<GlyphData>, s: Seq<char>) -> int
    decreases s.len(),
{
    if s.len() == 0 {
        0
    } else {
        width_units(glyphs, s.drop_last()) + glyph_for(glyphs, s.last()).advance
    }
}

/// Screen width of one glyph (3 screen pixels per font pixel), by the entry at
/// the character's own code.
pub open spec fn advance_px(glyphs: Seq<GlyphData>, c: char) -> int {
    glyphs[(c as u32) as int].advance * 3
}

/// The index of the glyph boundary nearest to a pixel position: the number of
/// glyphs whose half-width point is left of the position.
pub open spec fn glyph_idx_at(glyphs: Seq<GlyphData>, s: Seq<char>, pos: int) -> int
    decreases s.len(),
{
    if s.len() == 0 {
        0
    } else {
        let a = advance_px(glyphs, s[0]);
        if pos <= a / 2 {
            0
        } else if pos <= a {
            1
        } else {
            1 + glyph_idx_at(glyphs, s.drop_first(), pos - a)
        }
    }
}

/// State of the line breaker after some characters.
pub struct LineBreakState {
    pub x: int,
    pub last_was_space: bool,
    pub split_candidate_idx: int,
    pub x_at_split_candidate: int,
    pub line_start_idx: int,
    pub breaks: Seq<u16>,
    /// Whether no running width exceeded `u16::MAX` so far.
    pub fits: bool,
}

/// The line breaker's state before any character.
pub open spec fn linebreak_start() -> LineBreakState {
    LineBreakState {
        x: 0,
        last_was_space: false,
        split_candidate_idx: 0,
        x_at_split_candidate: 0,
        line_start_idx: 0,
        breaks: Seq::empty(),
        fits: true,
    }
}

/// One step of the line breaker: the character `c` at byte offset `i`. Lines
/// are broken at the start of the last word that began on the line (after a
/// space); a line with no such word is broken at the glyph that overflows it.
/// Characters with no glyph are skipped.
pub open spec fn linebreak_step(
    st: LineBreakState,
    glyphs: Seq<GlyphData>,
    max_width_px: int,
    c: char,
    i: int,
) -> LineBreakState {
    if !has_glyph(glyphs, c) {
        st
    } else {
        let lws = if c == ' ' { true } else if st.last_was_space { false } else { st.last_was_space };
        let split = if c != ' ' && st.last_was_space { i } else { st.split_candidate_idx };
        let xas = if c != ' ' && st.last_was_space { st.x } else { st.x_at_split_candidate };
        let x = st.x + glyph_for(glyphs, c).advance * 3;
        let fits = st.fits && x <= u16::MAX;
        if x > max_width_px {
            let split2 = if split == st.line_start_idx { i } else { split };
            let xas2 = if split == st.line_start_idx { x } else { xas };
            LineBreakState {
                x: x - xas2,
                last_was_space: lws,
                split_candidate_idx: split2,
                x_at_split_candidate: x - xas2,
                line_start_idx: split2,
                breaks: st.breaks.push(split2 as u16),
                fits,
            }
        } else {
            LineBreakState {
                x,
                last_was_space: lws,
                split_candidate_idx: split,
                x_at_split_candidate: xas,
                line_start_idx: st.line_start_idx,
                breaks: st.breaks,
                fits,
            }
        }
    }
}

/// The line breaker's state after the first `n` characters; break positions
/// are byte offsets.
pub open spec fn linebreak_state(glyphs: Seq<GlyphData>, s: Seq<char>, max_width_px: int, n: int) -> LineBreakState
    decreases n,
{
    if n <= 0 {
        linebreak_start()
    } else {
        linebreak_step(
            linebreak_state(glyphs, s, max_width_px, n - 1),
            glyphs,
            max_width_px,
            s[n - 1],
            byte_offset(s, n - 1),
        )
    }
}

/// The line breaks of a string: the break positions, then its byte length.
pub open spec fn linebreaks(glyphs: Seq<GlyphData>, s: Seq<char>, max_width_px: int) -> Seq<u16> {
    linebreak_state(glyphs, s, max_width_px, s.len() as int).breaks.push(byte_offset(s, s.len() as int) as u16)
}

/// Line break positions, held in a `SmallVec` of smallvec (four inline).
#[verifier::external_body]
pub struct Linebreaks {
    list: SmallVec<[u16; 4]>,
}

/// The contents of a line break list.
pub uninterp spec fn linebreak_list(v: Linebreaks) -> Seq<u16>;

/// `SmallVec::new`: an empty vector.
#[verifier::external_body]
fn new_linebreak_list() -> (r: Linebreaks)
    ensures
        linebreak_list(r) == Seq::<u16>::empty(),
{
    Linebreaks { list: SmallVec::new() }
}

/// `SmallVec::push`: appends an element; it panics only when the length would
/// overflow `usize`.
#[verifier::external_body]
fn push_linebreak(v: &mut Linebreaks, x: u16)
    requires
        linebreak_list(*old(v)).len() < usize::MAX,
    ensures
        linebreak_list(*final(v)) == linebreak_list(*old(v)).push(x),
{
    v.list.push(x)
}

/// `SmallVec::to_vec`: the positions, in order.
#[verifier::external_body]
fn linebreaks_to_vec(v: &Linebreaks) -> (r: Vec<u16>)
    ensures
        r@ == linebreak_list(*v),
{
    v.list.to_vec()
}

impl Linebreaks {
    /// An empty list.
    pub fn new() -> (r: Linebreaks)
        ensures
            linebreak_list(r) == Seq::<u16>::empty(),
    {
        new_linebreak_list()
    }

    /// The positions, in order.
    pub fn to_vec(&self) -> (r: Vec<u16>)
        ensures
            r@ == linebreak_list(*self),
    {
        linebreaks_to_vec(self)
    }
}

/// The color range in effect for the next glyph: ranges with no glyphs left are
/// skipped, and the default color applies once the ranges run out.
pub open spec fn next_color(colors: Seq<ColorRange>, color: ColorRange, next: int) -> (ColorRange, int)
    decreases colors.len() - next,
{
    if color.1 != 0 {
        (color, next)
    } else if 0 <= next < colors.len() {
        next_color(colors, colors[next], next + 1)
    } else {
        (ColorRange(default_text_color(), u32::MAX), next)
    }
}

/// The first color range of a style and the index of the one after it.
pub open spec fn first_color(colors: Seq<ColorRange>) -> (ColorRange, int) {
    if colors.len() > 0 {
        (colors[0], 1)
    } else {
        (ColorRange(default_text_color(), u32::MAX), 0)
    }
}

/// Skips to the color range in effect for the next glyph.
fn advance_color(colors: &[ColorRange], color: ColorRange, next: usize) -> (r: (ColorRange, usize))
    requires
        next <= colors@.len(),
    ensures
        (r.0, r.1 as int) == next_color(colors@, color, next as int),
        r.0.1 != 0,
        r.1 <= colors@.len(),
{
    let mut color = color;
    let mut next = next;
    proof {
        lemma_next_color_nonzero(colors@, color, next as int);
    }
    let ghost target = next_color(colors@, color, next as int);
    while color.1 == 0
        invariant
            next <= colors@.len(),
            next_color(colors@, color, next as int) == target,
        decreases colors@.len() - next + (if color.1 == 0 { 1int } else { 0int }),
    {
        if next < colors.len() {
            color = colors[next];
            next += 1;
        } else {
            color = ColorRange::default();
        }
    }
    proof {
        lemma_next_color_nonzero(colors@, color, next as int);
    }
    (color, next)
}

/// State of glyph emission after some characters.
pub struct DrawState {
    pub x: u32,
    /// How far the pen has moved (wrapping): the drawn width.
    pub w: u32,
    pub color: ColorRange,
    pub next: int,
    pub verts: Seq<GlyphVertex>,
}

/// The vertex of a glyph at a pen position.
pub open spec fn glyph_vertex(g: GlyphData, x: u32, y: u32, color: TextColor, italic_bit: u32) -> GlyphVertex {
    GlyphVertex {
        d1: (((g.layer as u32) << 24u32) | (y << 12u32)) | (x & 0xFFFu32),
        d2: ((color.0 << 11u32) | italic_bit) | (g.base_and_dims as u32),
    }
}

/// Glyph emission after the first `n` characters: characters with no glyph are
/// skipped; each other one uses up one glyph of the current color range, and
/// all but spaces get a vertex; the pen advances by 3 screen pixels per font
/// pixel, wrapping.
pub open spec fn draw_state(
    glyphs: Seq<GlyphData>,
    s: Seq<char>,
    y: u32,
    italic_bit: u32,
    colors: Seq<ColorRange>,
    x0: u32,
    n: int,
) -> DrawState
    decreases n,
{
    if n <= 0 {
        DrawState { x: x0, w: 0, color: first_color(colors).0, next: first_color(colors).1, verts: Seq::empty() }
    } else {
        let st = draw_state(glyphs, s, y, italic_bit, colors, x0, n - 1);
        let c = s[n - 1];
        let g = glyph_for(glyphs, c);
        if g.char != c as u32 {
            st
        } else {
            let (col, nx) = next_color(colors, st.color, st.next);
            let verts = if c != ' ' {
                st.verts.push(glyph_vertex(g, st.x, y, col.0, italic_bit))
            } else {
                st.verts
            };
            DrawState {
                x: st.x.wrapping_add(((g.advance as u32) * 3) as u32),
                w: st.w.wrapping_add(((g.advance as u32) * 3) as u32),
                color: ColorRange(col.0, (col.1 - 1) as u32),
                next: nx,
                verts,
            }
        }
    }
}

/// When every character has its glyph, the width drawn over the first `n`
/// characters is three times the sum of their advances (wrapping at 2^32).
pub proof fn lemma_drawn_width(
    glyphs: Seq<GlyphData>,
    s: Seq<char>,
    y: u32,
    italic_bit: u32,
    colors: Seq<ColorRange>,
    x0: u32,
    n: int,
)
    requires
        0 <= n <= s.len(),
        forall|i: int| 0 <= i < n ==> has_glyph(glyphs, #[trigger] s[i]),
    ensures
        draw_state(glyphs, s, y, italic_bit, colors, x0, n).w == (3 * width_units(glyphs, s.take(n))) % 0x1_0000_0000,
    decreases n,
{
    if n > 0 {
        lemma_drawn_width(glyphs, s, y, italic_bit, colors, x0, n - 1);
        assert(s.take(n).drop_last() =~= s.take(n - 1));
        assert(s.take(n).last() == s[n - 1]);
        assert(has_glyph(glyphs, s[n - 1]));
        let prev = draw_state(glyphs, s, y, italic_bit, colors, x0, n - 1).w;
        let a = glyph_for(glyphs, s[n - 1]).advance;
        let wu = width_units(glyphs, s.take(n - 1));
        assert(wu >= 0) by {
            lemma_width_units_nonneg(glyphs, s.take(n - 1));
        }
        assert(((prev + (a as u32) * 3) % 0x1_0000_0000) == (3 * (wu + a)) % 0x1_0000_0000) by (nonlinear_arith)
            requires
                prev == (3 * wu) % 0x1_0000_0000,
                wu >= 0,
        ;
    } else {
        assert(s.take(0) =~= Seq::<char>::empty());
    }
}

/// How far glyphs are moved left for an alignment, given the final pen position.
pub open spec fn align_offset(align: Align, x: u32) -> u32 {
    match align {
        Align::Left => 0,
        Align::Center => x / 2,
        Align::Right => x,
    }
}

/// Vertices moved left by `offset` (wrapping).
pub open spec fn shift_vertices(verts: Seq<GlyphVertex>, offset: u32) -> Seq<GlyphVertex> {
    verts.map_values(|v: GlyphVertex| GlyphVertex { d1: v.d1.wrapping_sub(offset), d2: v.d2 })
}

/// The color range that `next_color` picks always has a glyph left, and the
/// index of the next range only moves forward, up to the number of ranges.
proof fn lemma_next_color_nonzero(colors: Seq<ColorRange>, color: ColorRange, next: int)
    requires
        0 <= next,
    ensures
        next_color(colors, color, next).0.1 != 0,
        next_color(colors, color, next).1 >= next,
        next_color(colors, color, next).1 <= if next <= colors.len() { colors.len() as int } else { next },
    decreases colors.len() - next,
{
    if color.1 == 0 && 0 <= next < colors.len() {
        lemma_next_color_nonzero(colors, colors[next], next + 1);
    }
}

/// A clipping rectangle's corner, in pixels.
#[derive(Clone, Copy, PartialEq, Eq, Structural, Debug)]
pub struct Offset2D {
    pub x: i32,
    pub y: i32,
}

/// A size in pixels.
#[derive(Clone, Copy, PartialEq, Eq, Structural, Debug)]
pub struct Extent2D {
    pub width: u32,
    pub height: u32,
}

/// A clipping rectangle, in pixels.
#[derive(Clone, Copy, PartialEq, Eq, Structural, Debug)]
pub struct Rect2D {
    pub offset: Offset2D,
    pub extent: Extent2D,
}

/// A run of glyphs drawn with one clipping rectangle.
#[derive(Clone, Copy, PartialEq, Eq, Structural, Debug)]
pub struct Scissors {
    pub area: Rect2D,
    pub glyph_count: u32,
}

/// The CPU side of the text renderer: the glyph table, the glyph vertices
/// queued for this frame, and the clipping rectangles that apply to them.
/// Vertex 0 of the queue is reserved for the screen scale.
pub struct TextRenderer {
    text_buffer: Vec<GlyphVertex>,
    scissors: Vec<Scissors>,
    current_scissor_area: Rect2D,
    current_scissor_start: u32,
    viewport_size: Extent2D,
    glyphs: Vec<GlyphData>,
}

impl TextRenderer {
    /// The glyph table.
    pub closed spec fn spec_glyphs(&self) -> Seq<GlyphData> {
        self.glyphs@
    }

    /// Queued glyph vertices; the first one is the scale entry.
    pub closed spec fn spec_text_buffer(&self) -> Seq<GlyphVertex> {
        self.text_buffer@
    }

    /// Finished runs of glyphs with their clipping rectangles.
    pub closed spec fn spec_scissors(&self) -> Seq<Scissors> {
        self.scissors@
    }

    /// The clipping rectangle of glyphs queued from now on.
    pub closed spec fn spec_current_area(&self) -> Rect2D {
        self.current_scissor_area
    }

    /// The first queued glyph that the current rectangle applies to.
    pub closed spec fn spec_current_start(&self) -> u32 {
        self.current_scissor_start
    }

    pub closed spec fn spec_viewport(&self) -> Extent2D {
        self.viewport_size
    }

    /// A full glyph table, a queue that starts with the scale entry, and a
    /// current run that starts inside the queue.
    pub open spec fn wf(&self) -> bool {
        &&& self.spec_glyphs().len() == GLYPH_TABLE_LEN
        &&& 1 <= self.spec_text_buffer().len() <= u32::MAX
        &&& self.spec_current_start() <= self.spec_text_buffer().len()
    }

    /// A renderer for a viewport with a glyph table of 256 entries; `scale` is the
    /// reserved first vertex.
    pub fn new(glyphs: Vec<GlyphData>, viewport_size: Extent2D, scale: GlyphVertex) -> (r: Self)
        requires
            glyphs@.len() == GLYPH_TABLE_LEN,
        ensures
            r.wf(),
            r.spec_glyphs() == glyphs@,
            r.spec_text_buffer() == seq![scale],
            r.spec_scissors().len() == 0,
            r.spec_current_start() == 1,
            r.spec_viewport() == viewport_size,
            r.spec_current_area() == (Rect2D { offset: Offset2D { x: 0, y: 0 }, extent: viewport_size }),
    {
        let mut text_buffer: Vec<GlyphVertex> = Vec::new();
        text_buffer.push(scale);
        Self {
            text_buffer,
            scissors: Vec::new(),
            current_scissor_area: Rect2D { offset: Offset2D { x: 0, y: 0 }, extent: viewport_size },
            current_scissor_start: 1,
            viewport_size,
            glyphs,
        }
    }

    /// Starts a run of glyphs clipped to a rectangle (in pixels), ending the current run.
    pub fn apply_scissors(&mut self, xy: (u16, u16), wh: (u16, u16))
        requires
            old(self).wf(),
        ensures
            final(self).wf(),
            final(self).spec_scissors() == old(self).scissors_after_end(),
            final(self).spec_current_area() == (Rect2D {
                offset: Offset2D { x: xy.0 as i32, y: xy.1 as i32 },
                extent: Extent2D { width: wh.0 as u32, height: wh.1 as u32 },
            }),
            final(self).spec_current_start() == old(self).spec_text_buffer().len(),
            final(self).spec_text_buffer() == old(self).spec_text_buffer(),
            final(self).spec_glyphs() == old(self).spec_glyphs(),
            final(self).spec_viewport() == old(self).spec_viewport(),
    {
        self.apply_scissors_rect(
            Rect2D {
                offset: Offset2D { x: xy.0 as i32, y: xy.1 as i32 },
                extent: Extent2D { width: wh.0 as u32, height: wh.1 as u32 },
            },
        );
    }

    /// The finished runs after ending the current one: it is recorded only when
    /// it holds glyphs.
    pub open spec fn scissors_after_end(&self) -> Seq<Scissors> {
        if self.spec_current_start() < self.spec_text_buffer().len() {
            self.spec_scissors().push(
                Scissors {
                    area: self.spec_current_area(),
                    glyph_count: (self.spec_text_buffer().len() - self.spec_current_start()) as u32,
                },
            )
        } else {
            self.spec_scissors()
        }
    }

    /// Starts a run of glyphs clipped to `area`, ending the current run.
    pub fn apply_scissors_rect(&mut self, area: Rect2D)
        requires
            old(self).wf(),
        ensures
            final(self).wf(),
            final(self).spec_scissors() == old(self).scissors_after_end(),
            final(self).spec_current_area() == area,
            final(self).spec_current_start() == old(self).spec_text_buffer().len(),
            final(self).spec_text_buffer() == old(self).spec_text_buffer(),
            final(self).spec_glyphs() == old(self).spec_glyphs(),
            final(self).spec_viewport() == old(self).spec_viewport(),
    {
        self.end_scissors();
        self.current_scissor_area = area;
        self.current_scissor_start = self.text_buffer.len() as u32;
    }

    /// Ends the current run: records it if it holds glyphs, and starts an
    /// unclipped run at the end of the queue.
    pub fn end_scissors(&mut self)
        requires
            old(self).wf(),
        ensures
            final(self).wf(),
            final(self).spec_scissors() == old(self).scissors_after_end(),
            final(self).spec_current_area() == (Rect2D {
                offset: Offset2D { x: 0, y: 0 },
                extent: old(self).spec_viewport(),
            }),
            final(self).spec_current_start() == old(self).spec_text_buffer().len(),
            final(self).spec_text_buffer() == old(self).spec_text_buffer(),
            final(self).spec_glyphs() == old(self).spec_glyphs(),
            final(self).spec_viewport() == old(self).spec_viewport(),
    {
        let len = self.text_buffer.len() as u32;
        if self.current_scissor_start < len {
            self.scissors.push(
                Scissors { area: self.current_scissor_area, glyph_count: len - self.current_scissor_start },
            );
        }
        self.current_scissor_start = len;
        self.current_scissor_area = Rect2D { offset: Offset2D { x: 0, y: 0 }, extent: self.viewport_size };
    }

    /// Queues a string at a pen position; returns the width of the text in
    /// pixels (0 for an empty string) and `y`.
    pub fn draw_2d(&mut self, str: &str, x: u16, y: u16, style: Style) -> (r: (u16, u16))
        requires
            old(self).wf(),
            old(self).spec_text_buffer().len() + str@.len() <= u32::MAX,
        ensures
            final(self).wf(),
            str@.len() == 0 ==> r == (0u16, y) && *final(self) == *old(self),
            str@.len() > 0 ==> old(self).draw_post(*final(self), str@, x, y, style, r),
            (forall|i: int| 0 <= i < str@.len() ==> has_glyph(old(self).spec_glyphs(), #[trigger] str@[i]))
                && 3 * width_units(old(self).spec_glyphs(), str@) <= u16::MAX ==> r.0 == 3 * width_units(
                old(self).spec_glyphs(),
                str@,
            ),
    {
        let chars = str_chars(str);
        if chars.len() == 0 {
            proof {
                assert(str@ =~= Seq::<char>::empty());
            }
            return (0, y);
        }
        let ghost g = self.spec_glyphs();
        let r = self.draw_2d_chars(chars.as_slice(), x, y, style);
        proof {
            let italic_bit: u32 = if style.italic { 1024 } else { 0 };
            if forall|i: int| 0 <= i < str@.len() ==> has_glyph(g, #[trigger] str@[i]) {
                lemma_drawn_width(g, str@, y as u32, italic_bit, style.colors@, x as u32, str@.len() as int);
                assert(str@.take(str@.len() as int) =~= str@);
                lemma_width_units_nonneg(g, str@);
            }
        }
        r
    }

    /// What drawing characters does: vertices for them are appended (moved for
    /// the alignment), everything else is unchanged, and the drawn width (how
    /// far the pen moved, cut to 16 bits) is returned with `y`.
    pub open spec fn draw_post(
        &self,
        after: Self,
        s: Seq<char>,
        x: u16,
        y: u16,
        style: Style,
        r: (u16, u16),
    ) -> bool {
        let italic_bit: u32 = if style.italic { 1024 } else { 0 };
        let st = draw_state(self.spec_glyphs(), s, y as u32, italic_bit, style.colors@, x as u32, s.len() as int);
        &&& after.spec_text_buffer() == self.spec_text_buffer() + shift_vertices(
            st.verts,
            align_offset(style.align, st.x),
        )
        &&& r == (st.w as u16, y)
        &&& after.spec_glyphs() == self.spec_glyphs()
        &&& after.spec_scissors() == self.spec_scissors()
        &&& after.spec_current_area() == self.spec_current_area()
        &&& after.spec_current_start() == self.spec_current_start()
        &&& after.spec_viewport() == self.spec_viewport()
    }

    /// What drawing left-aligned, upright characters in their own clipping
    /// rectangle does: the current run is ended, the characters' vertices are
    /// appended and recorded as a run clipped to `area` (when there are any),
    /// and an unclipped run starts after them; their drawn width is returned.
    pub open spec fn clipped_draw_post(
        &self,
        after: Self,
        s: Seq<char>,
        x: u16,
        y: u16,
        colors: Seq<ColorRange>,
        area: Rect2D,
        r: (u16, u16),
    ) -> bool {
        let st = draw_state(self.spec_glyphs(), s, y as u32, 0, colors, x as u32, s.len() as int);
        &&& self.clipped_drawn(after, s, x, y, colors, area)
        &&& r == (st.w as u16, y)
    }

    /// The state part of [`TextRenderer::clipped_draw_post`].
    pub open spec fn clipped_drawn(
        &self,
        after: Self,
        s: Seq<char>,
        x: u16,
        y: u16,
        colors: Seq<ColorRange>,
        area: Rect2D,
    ) -> bool {
        let st = draw_state(self.spec_glyphs(), s, y as u32, 0, colors, x as u32, s.len() as int);
        let buf = self.spec_text_buffer() + shift_vertices(st.verts, align_offset(Align::Left, st.x));
        &&& after.spec_text_buffer() == buf
        &&& after.spec_scissors() == if buf.len() > self.spec_text_buffer().len() {
            self.scissors_after_end().push(
                Scissors { area, glyph_count: (buf.len() - self.spec_text_buffer().len()) as u32 },
            )
        } else {
            self.scissors_after_end()
        }
        &&& after.spec_current_area() == (Rect2D {
            offset: Offset2D { x: 0, y: 0 },
            extent: self.spec_viewport(),
        })
        &&& after.spec_current_start() == buf.len()
        &&& after.spec_glyphs() == self.spec_glyphs()
        &&& after.spec_viewport() == self.spec_viewport()
    }

    /// What drawing left-aligned, upright characters in colors does to the
    /// renderer: their vertices are appended and nothing else changes.
    pub open spec fn plain_drawn(&self, after: Self, s: Seq<char>, x: u16, y: u16, colors: Seq<ColorRange>) -> bool {
        let st = draw_state(self.spec_glyphs(), s, y as u32, 0, colors, x as u32, s.len() as int);
        &&& after.spec_text_buffer() == self.spec_text_buffer() + shift_vertices(st.verts, align_offset(Align::Left, st.x))
        &&& after.spec_glyphs() == self.spec_glyphs()
        &&& after.spec_scissors() == self.spec_scissors()
        &&& after.spec_current_area() == self.spec_current_area()
        &&& after.spec_current_start() == self.spec_current_start()
        &&& after.spec_viewport() == self.spec_viewport()
    }

    /// Queues characters at a pen position; returns their drawn width in pixels
    /// and `y`.
    pub fn draw_2d_chars(&mut self, str: &[char], x: u16, y: u16, style: Style) -> (r: (u16, u16))
        requires
            old(self).wf(),
            old(self).spec_text_buffer().len() + str@.len() <= u32::MAX,
        ensures
            final(self).wf(),
            old(self).draw_post(*final(self), str@, x, y, style, r),
    {
        let ghost g = self.spec_glyphs();
        let ghost s = str@;
        let ghost colors = style.colors@;
        let ghost old_buf = self.text_buffer@;
        let start_idx = self.text_buffer.len();
        let italic_bit: u32 = if style.italic { 1024 } else { 0 };
        let mut next: usize;
        let mut color: ColorRange;
        if style.colors.len() > 0 {
            color = style.colors[0];
            next = 1;
        } else {
            color = ColorRange::default();
            next = 0;
        }
        let yy = y as u32;
        let mut px = x as u32;
        let mut pw: u32 = 0;
        let mut n: usize = 0;
        while n < str.len()
            invariant
                self.wf(),
                g == self.spec_glyphs(),
                s == str@,
                colors == style.colors@,
                old(self).spec_text_buffer().len() + s.len() <= u32::MAX,
                old_buf == old(self).spec_text_buffer(),
                start_idx == old_buf.len(),
                yy == y as u32,
                italic_bit == (if style.italic { 1024u32 } else { 0u32 }),
                n <= s.len(),
                next <= colors.len(),
                ({
                    let st = draw_state(g, s, yy, italic_bit, colors, x as u32, n as int);
                    &&& px == st.x
                    &&& pw == st.w
                    &&& color == st.color
                    &&& next == st.next
                    &&& self.spec_text_buffer() == old_buf + st.verts
                    &&& st.verts.len() <= n
                }),
                self.spec_scissors() == old(self).spec_scissors(),
                self.spec_current_area() == old(self).spec_current_area(),
                self.spec_current_start() == old(self).spec_current_start(),
                self.spec_viewport() == old(self).spec_viewport(),
            decreases s.len() - n,
        {
            let c = str[n];
            let glyph = self.glyphs[(c as u32 % 256) as usize];
            let ghost st0 = draw_state(g, s, yy, italic_bit, colors, x as u32, n as int);
            assert(glyph == glyph_for(g, c));
            if glyph.char == c as u32 {
                let (c2, n2) = advance_color(style.colors, color, next);
                color = c2;
                next = n2;
                color.1 = color.1 - 1;
                if c != ' ' {
                    let d1 = ((glyph.layer as u32) << 24u32) | (yy << 12u32) | (px & 0xFFF);
                    let d2 = (color.0.0 << 11u32) | italic_bit | (glyph.base_and_dims as u32);
                    self.text_buffer.push(GlyphVertex { d1, d2 });
                }
                px = px.wrapping_add(glyph.advance as u32 * 3);
                pw = pw.wrapping_add(glyph.advance as u32 * 3);
            }
            proof {
                assert(s[n as int] == c);
            }
            n += 1;
            proof {
                let st1 = draw_state(g, s, yy, italic_bit, colors, x as u32, n as int);
                assert(self.spec_text_buffer() =~= old_buf + st1.verts);
            }
        }
        let x_offset: u32 = match style.align {
            Align::Left => 0,
            Align::Center => px / 2,
            Align::Right => px,
        };
        let ghost verts = draw_state(g, s, yy, italic_bit, colors, x as u32, s.len() as int).verts;
        if x_offset != 0 {
            let mut k: usize = start_idx;
            while k < self.text_buffer.len()
                invariant
                    self.wf(),
                    start_idx <= k <= self.text_buffer@.len(),
                    self.text_buffer@.len() == old_buf.len() + verts.len(),
                    forall|j: int| 0 <= j < start_idx ==> #[trigger] self.text_buffer@[j] == old_buf[j],
                    forall|j: int| start_idx <= j < k ==> #[trigger] self.text_buffer@[j] == shift_vertices(verts, x_offset)[j - start_idx],
                    forall|j: int| k <= j < self.text_buffer@.len() ==> #[trigger] self.text_buffer@[j] == verts[j - start_idx],
                    start_idx == old_buf.len(),
                    self.spec_scissors() == old(self).spec_scissors(),
                    self.spec_current_area() == old(self).spec_current_area(),
                    self.spec_current_start() == old(self).spec_current_start(),
                    self.spec_viewport() == old(self).spec_viewport(),
                    g == self.spec_glyphs(),
                decreases self.text_buffer@.len() - k,
            {
                let v = self.text_buffer[k];
                assert(shift_vertices(verts, x_offset)[k - start_idx] == GlyphVertex {
                    d1: verts[k - start_idx].d1.wrapping_sub(x_offset),
                    d2: verts[k - start_idx].d2,
                });
                self.text_buffer.set(k, GlyphVertex { d1: v.d1.wrapping_sub(x_offset), d2: v.d2 });
                k += 1;
            }
            assert(self.text_buffer@ =~= old_buf + shift_vertices(verts, x_offset));
        } else {
            assert(shift_vertices(verts, 0) =~= verts);
        }
        (pw as u16, yy as u16)
    }

    /// Prepares the queue for upload: with no glyphs queued there is nothing to
    /// do (false); otherwise the current run is ended, a new unclipped run starts
    /// at the first glyph, and `scale` is written into the reserved vertex.
    pub fn prepare_upload(&mut self, scale: GlyphVertex) -> (r: bool)
        requires
            old(self).wf(),
        ensures
            final(self).wf(),
            r == (old(self).spec_text_buffer().len() > 1),
            !r ==> *final(self) == *old(self),
            r ==> {
                &&& final(self).spec_scissors() == old(self).scissors_after_end()
                &&& final(self).spec_current_start() == 1
                &&& final(self).spec_current_area() == (Rect2D {
                    offset: Offset2D { x: 0, y: 0 },
                    extent: old(self).spec_viewport(),
                })
                &&& final(self).spec_text_buffer() == old(self).spec_text_buffer().update(0, scale)
                &&& final(self).spec_glyphs() == old(self).spec_glyphs()
                &&& final(self).spec_viewport() == old(self).spec_viewport()
            },
    {
        let num_glyphs = self.text_buffer.len() - 1;
        if num_glyphs == 0 {
            return false;
        }
        self.end_scissors();
        self.current_scissor_start = 1;
        self.current_scissor_area = Rect2D { offset: Offset2D { x: 0, y: 0 }, extent: self.viewport_size };
        self.text_buffer.set(0, scale);
        true
    }

    /// The queued vertices, the scale entry first.
    pub fn vertices(&self) -> (r: &[GlyphVertex])
        ensures
            r@ == self.spec_text_buffer(),
    {
        self.text_buffer.as_slice()
    }

    /// Empties the queue after an upload, keeping only the scale entry.
    pub fn finish_upload(&mut self)
        requires
            old(self).wf(),
        ensures
            final(self).wf(),
            final(self).spec_text_buffer() == old(self).spec_text_buffer().take(1),
            final(self).spec_scissors() == old(self).spec_scissors(),
            final(self).spec_current_area() == old(self).spec_current_area(),
            final(self).spec_glyphs() == old(self).spec_glyphs(),
            final(self).spec_viewport() == old(self).spec_viewport(),
            final(self).spec_current_start() == if old(self).spec_current_start() <= 1 {
                old(self).spec_current_start()
            } else {
                1
            },
    {
        self.text_buffer.truncate(1);
        if self.current_scissor_start > 1 {
            self.current_scissor_start = 1;
        }
    }

    /// Takes the finished runs for drawing, leaving none.
    pub fn take_scissors(&mut self) -> (r: Vec<Scissors>)
        requires
            old(self).wf(),
        ensures
            final(self).wf(),
            r@ == old(self).spec_scissors(),
            final(self).spec_scissors().len() == 0,
            final(self).spec_text_buffer() == old(self).spec_text_buffer(),
            final(self).spec_current_area() == old(self).spec_current_area(),
            final(self).spec_current_start() == old(self).spec_current_start(),
            final(self).spec_glyphs() == old(self).spec_glyphs(),
            final(self).spec_viewport() == old(self).spec_viewport(),
    {
        let mut taken: Vec<Scissors> = Vec::new();
        std::mem::swap(&mut taken, &mut self.scissors);
        taken
    }

    /// Adopts a new viewport size; it applies from the next unclipped run.
    pub fn handle_window_resize(&mut self, extent: Extent2D)
        ensures
            final(self).spec_viewport() == extent,
            final(self).spec_text_buffer() == old(self).spec_text_buffer(),
            final(self).spec_scissors() == old(self).spec_scissors(),
            final(self).spec_current_area() == old(self).spec_current_area(),
            final(self).spec_current_start() == old(self).spec_current_start(),
            final(self).spec_glyphs() == old(self).spec_glyphs(),
    {
        self.viewport_size = extent;
    }

    /// The glyph table entry at an index.
    pub fn glyph(&self, idx: usize) -> (r: GlyphData)
        requires
            self.wf(),
            idx < GLYPH_TABLE_LEN,
        ensures
            r == self.spec_glyphs()[idx as int],
    {
        self.glyphs[idx]
    }

    /// Whether the screen width of the characters fits 16 bits.
    pub fn width_fits_u16(&self, str: &[char]) -> (r: bool)
        requires
            self.wf(),
        ensures
            r == (3 * width_units(self.spec_glyphs(), str@) <= u16::MAX),
    {
        let mut sum: u32 = 0;
        let mut i: usize = 0;
        while i < str.len()
            invariant
                self.wf(),
                i <= str@.len(),
                sum == width_units(self.spec_glyphs(), str@.take(i as int)),
                3 * sum <= u16::MAX,
            decreases str@.len() - i,
        {
            proof {
                lemma_width_units_prefix(self.spec_glyphs(), str@, i as int + 1);
            }
            let c = str[i];
            let idx = (c as u32 % 256) as usize;
            sum = sum + self.glyphs[idx].advance as u32;
            if 3 * sum > 65535 {
                return false;
            }
            i += 1;
        }
        assert(str@.take(str@.len() as int) =~= str@);
        true
    }

    /// Screen width of the characters, by the entries at their low bytes.
    pub fn compute_width_chars(&self, str: &[char]) -> (r: u16)
        requires
            self.wf(),
            3 * width_units(self.spec_glyphs(), str@) <= u16::MAX,
        ensures
            r == 3 * width_units(self.spec_glyphs(), str@),
    {
        let mut sum: u16 = 0;
        let mut i: usize = 0;
        while i < str.len()
            invariant
                self.wf(),
                i <= str@.len(),
                sum == width_units(self.spec_glyphs(), str@.take(i as int)),
                3 * width_units(self.spec_glyphs(), str@) <= u16::MAX,
            decreases str@.len() - i,
        {
            proof {
                lemma_width_units_prefix(self.spec_glyphs(), str@, i as int + 1);
                assert(str@.take(i as int + 1).drop_last() =~= str@.take(i as int));
            }
            let c = str[i];
            let idx = (c as u32 % 256) as usize;
            sum = sum + self.glyphs[idx].advance as u16;
            i += 1;
        }
        assert(str@.take(str@.len() as int) =~= str@);
        sum * 3
    }

    /// Screen width of a string.
    pub fn compute_width(&self, str: &str) -> (r: u16)
        requires
            self.wf(),
            3 * width_units(self.spec_glyphs(), str@) <= u16::MAX,
        ensures
            r == 3 * width_units(self.spec_glyphs(), str@),
    {
        let chars = str_chars(str);
        self.compute_width_chars(chars.as_slice())
    }

    /// The glyph boundary nearest to a pixel position from the text's start.
    pub fn compute_glyph_idx_at_pos_chars(&self, str: &[char], pos_px: u16) -> (r: usize)
        requires
            self.wf(),
            forall|i: int| 0 <= i < str@.len() ==> (#[trigger] str@[i] as u32) < 255,
        ensures
            r == glyph_idx_at(self.spec_glyphs(), str@, pos_px as int),
    {
        let pos = pos_px as u32;
        let mut x: u32 = 0;
        let mut idx: usize = 0;
        assert(str@.skip(0) =~= str@);
        while idx < str.len()
            invariant
                self.wf(),
                forall|i: int| 0 <= i < str@.len() ==> (#[trigger] str@[i] as u32) < 255,
                idx <= str@.len(),
                x <= pos,
                pos == pos_px,
                glyph_idx_at(self.spec_glyphs(), str@, pos as int) == idx + glyph_idx_at(
                    self.spec_glyphs(),
                    str@.skip(idx as int),
                    pos - x,
                ),
            decreases str@.len() - idx,
        {
            let c = str[idx];
            let advance = self.glyphs[c as u32 as usize].advance as u32 * 3;
            proof {
                let rest = str@.skip(idx as int);
                assert(rest[0] == c);
                assert(rest.drop_first() =~= str@.skip(idx as int + 1));
            }
            if pos <= x + advance / 2 {
                return idx;
            }
            if pos <= x + advance {
                return idx + 1;
            }
            x += advance;
            idx += 1;
        }
        idx
    }

    /// The glyph boundary nearest to a pixel position from a string's start.
    pub fn compute_glyph_idx_at_pos(&self, str: &str, pos_px: u16) -> (r: usize)
        requires
            self.wf(),
            forall|i: int| 0 <= i < str@.len() ==> (#[trigger] str@[i] as u32) < 255,
        ensures
            r == glyph_idx_at(self.spec_glyphs(), str@, pos_px as int),
    {
        let chars = str_chars(str);
        self.compute_glyph_idx_at_pos_chars(chars.as_slice(), pos_px)
    }

    /// Whether the line breaker's running widths stay within 16 bits over the
    /// whole string ([`TextRenderer::compute_linebreaks`] needs them to).
    pub fn linebreaks_fit(&self, str: &[char], max_width_px: u16) -> (r: bool)
        requires
            self.wf(),
            str@.len() < 0x1000_0000,
        ensures
            r == linebreak_state(self.spec_glyphs(), str@, max_width_px as int, str@.len() as int).fits,
    {
        let ghost g = self.spec_glyphs();
        let ghost s = str@;
        let ghost m = max_width_px as int;
        let mut x: u32 = 0;
        let mut last_was_space = false;
        let mut split_candidate_idx: usize = 0;
        let mut x_at_split_candidate: u32 = 0;
        let mut line_start_idx: usize = 0;
        let mut byte_idx: usize = 0;
        let mut n: usize = 0;
        while n < str.len()
            invariant
                self.wf(),
                g == self.spec_glyphs(),
                m == max_width_px as int,
                str@ == s,
                s.len() < 0x1000_0000,
                n <= s.len(),
                byte_idx == byte_offset(s, n as int),
                byte_idx <= 4 * n,
                linebreak_state(g, s, m, n as int).fits,
                x == linebreak_state(g, s, m, n as int).x,
                x <= u16::MAX,
                last_was_space == linebreak_state(g, s, m, n as int).last_was_space,
                split_candidate_idx == linebreak_state(g, s, m, n as int).split_candidate_idx,
                x_at_split_candidate == linebreak_state(g, s, m, n as int).x_at_split_candidate,
                line_start_idx == linebreak_state(g, s, m, n as int).line_start_idx,
                split_candidate_idx <= byte_idx,
                0 <= linebreak_state(g, s, m, n as int).x_at_split_candidate <= linebreak_state(g, s, m, n as int).x,
            decreases s.len() - n,
        {
            proof {
                crate::text::lemma_byte_offset_bounds(s, n as int, n as int + 1);
            }
            let c = str[n];
            let i = byte_idx;
            let glyph = self.glyphs[(c as u32 % 256) as usize];
            let ghost st0 = linebreak_state(g, s, m, n as int);
            assert(s[n as int] == c);
            assert(glyph == glyph_for(g, c));
            if glyph.char == c as u32 {
                if c == ' ' {
                    last_was_space = true;
                } else if last_was_space {
                    last_was_space = false;
                    split_candidate_idx = i;
                    x_at_split_candidate = x;
                }
                x = x + glyph.advance as u32 * 3;
                if x > 65535 {
                    proof {
                        assert(linebreak_state(g, s, m, n as int + 1) == linebreak_step(st0, g, m, c, i as int));
                        assert(!linebreak_state(g, s, m, n as int + 1).fits);
                        if linebreak_state(g, s, m, s.len() as int).fits {
                            lemma_linebreak_fits_prefix(g, s, m, n as int + 1, s.len() as int);
                        }
                    }
                    return false;
                }
                if x > max_width_px as u32 {
                    if split_candidate_idx == line_start_idx {
                        split_candidate_idx = i;
                        x_at_split_candidate = x;
                    }
                    x = x - x_at_split_candidate;
                    line_start_idx = split_candidate_idx;
                    x_at_split_candidate = x;
                }
            }
            proof {
                assert(linebreak_state(g, s, m, n as int + 1) == linebreak_step(st0, g, m, c, i as int));
            }
            byte_idx = byte_idx + len_utf8(c);
            n += 1;
        }
        assert(s.len() == n);
        true
    }

    /// The byte offsets at which to break a string into lines of at most
    /// `max_width_px`, followed by the string's byte length.
    pub fn compute_linebreaks(&self, str: &str, max_width_px: u16) -> (r: Linebreaks)
        requires
            self.wf(),
            linebreak_state(self.spec_glyphs(), str@, max_width_px as int, str@.len() as int).fits,
            str@.len() < 0x1000_0000,
        ensures
            linebreak_list(r) == linebreaks(self.spec_glyphs(), str@, max_width_px as int),
    {
        let chars = str_chars(str);
        let ghost g = self.spec_glyphs();
        let ghost s = str@;
        let ghost m = max_width_px as int;
        let mut res = new_linebreak_list();
        let mut x: u16 = 0;
        let mut last_was_space = false;
        let mut split_candidate_idx: usize = 0;
        let mut x_at_split_candidate: u16 = 0;
        let mut line_start_idx: usize = 0;
        let mut byte_idx: usize = 0;
        let mut n: usize = 0;
        proof {
            lemma_linebreak_fits_prefix(g, s, m, 0, s.len() as int);
        }
        while n < chars.len()
            invariant
                self.wf(),
                g == self.spec_glyphs(),
                m == max_width_px as int,
                chars@ == s,
                s.len() < 0x1000_0000,
                n <= s.len(),
                byte_idx == byte_offset(s, n as int),
                byte_idx <= 4 * n,
                linebreak_state(g, s, m, s.len() as int).fits,
                linebreak_state(g, s, m, n as int).fits,
                x == linebreak_state(g, s, m, n as int).x,
                last_was_space == linebreak_state(g, s, m, n as int).last_was_space,
                split_candidate_idx == linebreak_state(g, s, m, n as int).split_candidate_idx,
                x_at_split_candidate == linebreak_state(g, s, m, n as int).x_at_split_candidate,
                line_start_idx == linebreak_state(g, s, m, n as int).line_start_idx,
                linebreak_list(res) == linebreak_state(g, s, m, n as int).breaks,
                linebreak_state(g, s, m, n as int).breaks.len() <= n,
                split_candidate_idx <= byte_idx,
                0 <= linebreak_state(g, s, m, n as int).x_at_split_candidate <= linebreak_state(g, s, m, n as int).x,
            decreases s.len() - n,
        {
            proof {
                lemma_linebreak_fits_prefix(g, s, m, n as int + 1, s.len() as int);
                crate::text::lemma_byte_offset_bounds(s, n as int, n as int + 1);
            }
            let c = chars[n];
            let i = byte_idx;
            let glyph = self.glyphs[(c as u32 % 256) as usize];
            let ghost st0 = linebreak_state(g, s, m, n as int);
            assert(s[n as int] == c);
            assert(glyph == glyph_for(g, c));
            if glyph.char == c as u32 {
                if c == ' ' {
                    last_was_space = true;
                } else if last_was_space {
                    last_was_space = false;
                    split_candidate_idx = i;
                    x_at_split_candidate = x;
                }
                x = x + glyph.advance as u16 * 3;
                if x > max_width_px {
                    if split_candidate_idx == line_start_idx {
                        split_candidate_idx = i;
                        x_at_split_candidate = x;
                    }
                    x = x - x_at_split_candidate;
                    push_linebreak(&mut res, #[verifier::truncate] (split_candidate_idx as u16));
                    line_start_idx = split_candidate_idx;
                    x_at_split_candidate = x;
                }
            }
            proof {
                assert(linebreak_state(g, s, m, n as int + 1) == linebreak_step(st0, g, m, c, i as int));
            }
            byte_idx = byte_idx + len_utf8(c);
            n += 1;
        }
        push_linebreak(&mut res, #[verifier::truncate] (byte_idx as u16));
        res
    }
}

/// Whether a word begins at character `j`: it is not a space and follows one.
pub open spec fn begins_word(s: Seq<char>, j: int) -> bool {
    0 < j < s.len() && s[j - 1] == ' ' && s[j] != ' '
}

/// Whether the `k`-th of the break positions `brs` (byte offsets) lies where a
/// word begins, or else the line that it ends (from the previous break, or the
/// text's start) holds no word beginning after its first character: a line is
/// broken inside a word only when it has no space to break at.
pub open spec fn break_at_word(s: Seq<char>, brs: Seq<u16>, k: int) -> bool {
    let a = char_at_byte(s, if k == 0 { 0 } else { brs[k - 1] as int });
    let b = char_at_byte(s, brs[k] as int);
    begins_word(s, b) || forall|j: int| a < j < b ==> !#[trigger] begins_word(s, j)
}

/// The character index at a character's byte offset is that character's.
proof fn lemma_char_at_byte_offset(s: Seq<char>, k: int)
    requires
        0 <= k <= s.len(),
    ensures
        char_at_byte(s, byte_offset(s, k)) == k,
{
    let i = char_at_byte(s, byte_offset(s, k));
    assert(0 <= k <= s.len() && byte_offset(s, k) == byte_offset(s, k));
    crate::text::lemma_byte_offset_injective(s, i, k);
}

/// The line breaker's state after `n` characters of a text whose characters
/// all have glyphs: the split candidate is the current line's start or a word
/// beginning after it, the last word beginning seen on the line; and every
/// break so far lies at a word beginning or ends a line with none.
proof fn lemma_word_breaks_upto(glyphs: Seq<GlyphData>, s: Seq<char>, m: int, n: int)
    requires
        0 <= n <= s.len(),
        byte_offset(s, s.len() as int) <= u16::MAX,
        forall|i: int| 0 <= i < s.len() ==> has_glyph(glyphs, #[trigger] s[i]),
    ensures
        ({
            let st = linebreak_state(glyphs, s, m, n);
            let ls = char_at_byte(s, st.line_start_idx);
            let sc = char_at_byte(s, st.split_candidate_idx);
            &&& 0 <= ls <= sc
            &&& (n == 0 ==> sc == 0)
            &&& (n > 0 ==> sc <= n - 1)
            &&& byte_offset(s, ls) == st.line_start_idx
            &&& byte_offset(s, sc) == st.split_candidate_idx
            &&& st.last_was_space == (n > 0 && s[n - 1] == ' ')
            &&& (sc == ls || (begins_word(s, sc) && ls < sc))
            &&& forall|j: int| ls < j < n && #[trigger] begins_word(s, j) ==> j <= sc
            &&& (if st.breaks.len() == 0 {
                st.line_start_idx == 0
            } else {
                st.breaks.last() as int == st.line_start_idx
            })
            &&& forall|k: int| 0 <= k < st.breaks.len() ==> #[trigger] break_at_word(s, st.breaks, k)
        }),
    decreases n,
{
    if n == 0 {
        lemma_char_at_byte_offset(s, 0);
        assert(byte_offset(s, 0) == 0);
    } else {
        lemma_word_breaks_upto(glyphs, s, m, n - 1);
        let st0 = linebreak_state(glyphs, s, m, n - 1);
        let st = linebreak_state(glyphs, s, m, n);
        let ls0 = char_at_byte(s, st0.line_start_idx);
        let sc0 = char_at_byte(s, st0.split_candidate_idx);
        let c = s[n - 1];
        let i = byte_offset(s, n - 1);
        assert(has_glyph(glyphs, c));
        lemma_char_at_byte_offset(s, n - 1);
        crate::text::lemma_byte_offset_bounds(s, n - 1, s.len() as int);
        let lws = c == ' ';
        let started = c != ' ' && st0.last_was_space;
        assert(started == begins_word(s, n - 1));
        let split = if started { i } else { st0.split_candidate_idx };
        let scn = if started { n - 1 } else { sc0 };
        assert(byte_offset(s, scn) == split);
        assert(char_at_byte(s, split) == scn) by {
            if started {
            } else {
            }
        }
        let x = st0.x + glyph_for(glyphs, c).advance * 3;
        assert(st == linebreak_step(st0, glyphs, m, c, i));
        if x > m {
            let split2 = if split == st0.line_start_idx { i } else { split };
            let b = if split == st0.line_start_idx { n - 1 } else { scn };
            assert(byte_offset(s, b) == split2);
            lemma_char_at_byte_offset(s, b);
            assert(st.breaks == st0.breaks.push(split2 as u16));
            assert(0 <= split2 <= byte_offset(s, s.len() as int)) by {
                crate::text::lemma_byte_offset_bounds(s, b, s.len() as int);
                crate::text::lemma_byte_offset_bounds(s, 0, b);
            }
            assert(split2 as u16 as int == split2);
            assert(st.line_start_idx == split2);
            assert(st.split_candidate_idx == split2);
            // the new break
            let k = st0.breaks.len() as int;
            assert(break_at_word(s, st.breaks, k)) by {
                let prev = if k == 0 { 0 } else { st.breaks[k - 1] as int };
                assert(prev == st0.line_start_idx);
                assert(char_at_byte(s, prev) == ls0);
                assert(char_at_byte(s, st.breaks[k] as int) == b);
                if split == st0.line_start_idx {
                    assert(scn == ls0) by {
                        lemma_char_at_byte_offset(s, scn);
                        lemma_char_at_byte_offset(s, ls0);
                    }
                    assert forall|j: int| ls0 < j < b implies !#[trigger] begins_word(s, j) by {
                        if begins_word(s, j) {
                            assert(j <= sc0);
                            if started {
                                lemma_char_at_byte_offset(s, sc0);
                            }
                        }
                    }
                } else {
                    if started {
                    } else {
                        if sc0 == ls0 {
                            lemma_char_at_byte_offset(s, sc0);
                        }
                    }
                    assert(begins_word(s, b));
                }
            }
            assert forall|kk: int| 0 <= kk < st.breaks.len() implies #[trigger] break_at_word(s, st.breaks, kk) by {
                if kk < k {
                    assert(st.breaks[kk] == st0.breaks[kk]);
                    if kk > 0 {
                        assert(st.breaks[kk - 1] == st0.breaks[kk - 1]);
                    }
                    assert(break_at_word(s, st0.breaks, kk));
                }
            }
            assert forall|j: int| b < j < n && #[trigger] begins_word(s, j) implies j <= b by {
                if j < n - 1 {
                    assert(j <= sc0);
                    lemma_char_at_byte_offset(s, sc0);
                } else {
                    assert(started);
                }
            }
        } else {
            assert(st.line_start_idx == st0.line_start_idx);
            assert(st.split_candidate_idx == split);
            assert(st.breaks == st0.breaks);
            assert forall|j: int| ls0 < j < n && #[trigger] begins_word(s, j) implies j <= scn by {
                if j < n - 1 {
                    assert(j <= sc0);
                }
            }
            if started {
                if sc0 == ls0 {
                } else {
                }
            }
        }
    }
}

/// Lines are broken at word beginnings: when a line grows too wide, it is
/// broken where its last word began after a space, and it is broken inside a
/// word (at the glyph that overflows it) only when no word began on it after
/// its first character. This holds of every break of a text whose characters
/// all have glyphs and whose bytes fit `u16`.
pub proof fn lemma_linebreaks_at_word_starts(glyphs: Seq<GlyphData>, s: Seq<char>, m: int)
    requires
        byte_offset(s, s.len() as int) <= u16::MAX,
        forall|i: int| 0 <= i < s.len() ==> has_glyph(glyphs, #[trigger] s[i]),
    ensures
        forall|k: int|
            0 <= k < linebreaks(glyphs, s, m).len() - 1 ==> #[trigger] break_at_word(s, linebreaks(glyphs, s, m), k),
{
    lemma_word_breaks_upto(glyphs, s, m, s.len() as int);
    let st = linebreak_state(glyphs, s, m, s.len() as int);
    let bs = linebreaks(glyphs, s, m);
    assert forall|k: int| 0 <= k < bs.len() - 1 implies #[trigger] break_at_word(s, bs, k) by {
        assert(bs[k] == st.breaks[k]);
        if k > 0 {
            assert(bs[k - 1] == st.breaks[k - 1]);
        }
        assert(break_at_word(s, st.breaks, k));
    }
}

/// The width of a prefix extended by one character.
proof fn lemma_width_units_prefix(glyphs: Seq<GlyphData>, s: Seq<char>, i: int)
    requires
        0 < i <= s.len(),
    ensures
        width_units(glyphs, s.take(i)) == width_units(glyphs, s.take(i - 1)) + glyph_for(glyphs, s[i - 1]).advance,
        width_units(glyphs, s.take(i)) <= width_units(glyphs, s),
    decreases s.len() - i,
{
    assert(s.take(i).drop_last() =~= s.take(i - 1));
    if i < s.len() {
        lemma_width_units_prefix(glyphs, s, i + 1);
    } else {
        assert(s.take(i) =~= s);
    }
}

/// The nearest glyph boundary is a boundary of the text.
pub proof fn lemma_glyph_idx_bounds(glyphs: Seq<GlyphData>, s: Seq<char>, pos: int)
    ensures
        0 <= glyph_idx_at(glyphs, s, pos) <= s.len(),
    decreases s.len(),
{
    if s.len() > 0 {
        lemma_glyph_idx_bounds(glyphs, s.drop_first(), pos - advance_px(glyphs, s[0]));
    }
}

/// Widths add up over a split of the text, so every part is at most the whole.
pub proof fn lemma_width_units_split(glyphs: Seq<GlyphData>, s: Seq<char>, n: int)
    requires
        0 <= n <= s.len(),
    ensures
        width_units(glyphs, s) == width_units(glyphs, s.take(n)) + width_units(glyphs, s.skip(n)),
        width_units(glyphs, s.take(n)) >= 0,
        width_units(glyphs, s.skip(n)) >= 0,
    decreases s.len(),
{
    lemma_width_units_nonneg(glyphs, s.take(n));
    lemma_width_units_nonneg(glyphs, s.skip(n));
    if n < s.len() {
        lemma_width_units_split(glyphs, s.drop_last(), n);
        assert(s.drop_last().take(n) =~= s.take(n));
        assert(s.skip(n).drop_last() =~= s.drop_last().skip(n));
        assert(s.skip(n).last() == s.last());
    } else {
        assert(s.take(n) =~= s);
        assert(s.skip(n).len() == 0);
    }
}

proof fn lemma_width_units_nonneg(glyphs: Seq<GlyphData>, s: Seq<char>)
    ensures
        width_units(glyphs, s) >= 0,
    decreases s.len(),
{
    if s.len() > 0 {
        lemma_width_units_nonneg(glyphs, s.drop_last());
    }
}

/// A byte offset that starts one of the first `n` characters (or is 0).
pub open spec fn starts_char_before(s: Seq<char>, v: int, n: int) -> bool {
    exists|k: int| 0 <= k < vstd::math::max(n, 1) && #[trigger] byte_offset(s, k) == v
}

/// The line breaker's positions after `n` characters of a string whose bytes
/// fit `u16`: the current line starts at or before the split candidate, which
/// is at or before the last character seen; every position starts a
/// character seen so far; the breaks strictly increase and the last one is
/// where the current line starts.
proof fn lemma_linebreak_state_shape(glyphs: Seq<GlyphData>, s: Seq<char>, m: int, n: int)
    requires
        0 <= n <= s.len(),
        byte_offset(s, s.len() as int) <= u16::MAX,
    ensures
        0 <= linebreak_state(glyphs, s, m, n).line_start_idx <= linebreak_state(glyphs, s, m, n).split_candidate_idx,
        n == 0 ==> linebreak_state(glyphs, s, m, n).split_candidate_idx == 0,
        n > 0 ==> linebreak_state(glyphs, s, m, n).split_candidate_idx <= byte_offset(s, n - 1),
        starts_char_before(s, linebreak_state(glyphs, s, m, n).split_candidate_idx, n),
        starts_char_before(s, linebreak_state(glyphs, s, m, n).line_start_idx, n),
        forall|j: int|
            0 <= j < linebreak_state(glyphs, s, m, n).breaks.len() ==> starts_char_before(
                s,
                #[trigger] linebreak_state(glyphs, s, m, n).breaks[j] as int,
                n,
            ),
        forall|a: int, b: int|
            0 <= a < b < linebreak_state(glyphs, s, m, n).breaks.len() ==> #[trigger] linebreak_state(
                glyphs,
                s,
                m,
                n,
            ).breaks[a] < #[trigger] linebreak_state(glyphs, s, m, n).breaks[b],
        linebreak_state(glyphs, s, m, n).breaks.len() > 0 ==> linebreak_state(glyphs, s, m, n).breaks.last()
            == linebreak_state(glyphs, s, m, n).line_start_idx,
    decreases n,
{
    if n == 0 {
        assert(byte_offset(s, 0) == 0);
    } else {
        lemma_linebreak_state_shape(glyphs, s, m, n - 1);
        let st = linebreak_state(glyphs, s, m, n - 1);
        let st2 = linebreak_state(glyphs, s, m, n);
        let c = s[n - 1];
        let i = byte_offset(s, n - 1);
        crate::text::lemma_byte_offset_bounds(s, n - 1, s.len() as int);
        if n >= 2 {
            crate::text::lemma_byte_offset_bounds(s, n - 2, n - 1);
            assert(st.split_candidate_idx <= byte_offset(s, n - 2));
        }
        // Witnesses found for n - 1 serve for n.
        assert forall|v: int| starts_char_before(s, v, n - 1) implies starts_char_before(s, v, n) by {
            let k = choose|k: int| 0 <= k < vstd::math::max(n - 1, 1) && #[trigger] byte_offset(s, k) == v;
            assert(byte_offset(s, k) == v);
        }
        assert(starts_char_before(s, i, n)) by {
            assert(byte_offset(s, n - 1) == i);
        }
        assert forall|j: int| 0 <= j < st.breaks.len() implies starts_char_before(s, #[trigger] st.breaks[j] as int, n) by {
            assert(starts_char_before(s, st.breaks[j] as int, n - 1));
        }
        if has_glyph(glyphs, c) {
            let split = if c != ' ' && st.last_was_space { i } else { st.split_candidate_idx };
            let x = st.x + glyph_for(glyphs, c).advance * 3;
            if x > m {
                let split2 = if split == st.line_start_idx { i } else { split };
                assert(split2 <= i);
                assert(split2 as u16 == split2);
                assert(st2.breaks == st.breaks.push(split2 as u16));
                if st.breaks.len() > 0 {
                    assert(n >= 2) by {
                        if n == 1 {
                            assert(st.breaks.len() == 0);
                        }
                    }
                    assert(split2 > st.line_start_idx);
                }
                assert forall|a: int, b: int| 0 <= a < b < st2.breaks.len() implies #[trigger] st2.breaks[a]
                    < #[trigger] st2.breaks[b] by {
                    if b == st2.breaks.len() - 1 {
                        assert(st2.breaks[a] == st.breaks[a]);
                        if a < st.breaks.len() - 1 {
                            assert(st.breaks[a] < st.breaks[st.breaks.len() - 1]);
                        }
                    } else {
                        assert(st2.breaks[a] == st.breaks[a]);
                        assert(st2.breaks[b] == st.breaks[b]);
                    }
                }
                assert forall|j: int| 0 <= j < st2.breaks.len() implies starts_char_before(
                    s,
                    #[trigger] st2.breaks[j] as int,
                    n,
                ) by {
                    if j < st.breaks.len() {
                        assert(st2.breaks[j] == st.breaks[j]);
                    }
                }
            } else {
                assert(st2.breaks == st.breaks);
            }
        } else {
            assert(st2 == st);
        }
    }
}

/// The line breaks of a string whose bytes fit `u16` cut it at character
/// boundaries in increasing order, and the last one is the string's byte
/// length; so consecutive positions delimit its lines, which together make up
/// the string.
pub proof fn lemma_linebreaks_shape(glyphs: Seq<GlyphData>, s: Seq<char>, m: int)
    requires
        byte_offset(s, s.len() as int) <= u16::MAX,
    ensures
        linebreaks(glyphs, s, m).len() >= 1,
        linebreaks(glyphs, s, m).last() == byte_offset(s, s.len() as int),
        forall|j: int|
            0 <= j < linebreaks(glyphs, s, m).len() ==> exists|k: int|
                0 <= k <= s.len() && #[trigger] byte_offset(s, k) == #[trigger] linebreaks(glyphs, s, m)[j],
        forall|a: int, b: int|
            0 <= a < b < linebreaks(glyphs, s, m).len() ==> #[trigger] linebreaks(glyphs, s, m)[a]
                < #[trigger] linebreaks(glyphs, s, m)[b],
{
    let n = s.len() as int;
    lemma_linebreak_state_shape(glyphs, s, m, n);
    let st = linebreak_state(glyphs, s, m, n);
    let bs = linebreaks(glyphs, s, m);
    let end = byte_offset(s, n);
    assert(end as u16 == end);
    assert(bs == st.breaks.push(end as u16));
    if n > 0 {
        crate::text::lemma_byte_offset_bounds(s, n - 1, n);
    }
    assert forall|j: int| 0 <= j < bs.len() implies exists|k: int|
        0 <= k <= s.len() && #[trigger] byte_offset(s, k) == #[trigger] bs[j] by {
        if j < st.breaks.len() {
            assert(bs[j] == st.breaks[j]);
            assert(starts_char_before(s, st.breaks[j] as int, n));
            let k = choose|k: int| 0 <= k < vstd::math::max(n, 1) && #[trigger] byte_offset(s, k) == st.breaks[j] as int;
            assert(byte_offset(s, k) == bs[j]);
        } else {
            assert(byte_offset(s, n) == bs[j]);
        }
    }
    assert forall|a: int, b: int| 0 <= a < b < bs.len() implies #[trigger] bs[a] < #[trigger] bs[b] by {
        if b == bs.len() - 1 {
            assert(bs[a] == st.breaks[a]);
            assert(starts_char_before(s, st.breaks[a] as int, n));
            let k = choose|k: int| 0 <= k < vstd::math::max(n, 1) && #[trigger] byte_offset(s, k) == st.breaks[a] as int;
            crate::text::lemma_byte_offset_bounds(s, k, n);
            if n > 0 {
                assert(k < n);
            } else {
                assert(st.breaks.len() == 0);
            }
        } else {
            assert(bs[a] == st.breaks[a]);
            assert(bs[b] == st.breaks[b]);
        }
    }
}

/// A text drawing step, for describing a series of them.
pub enum TextOp {
    /// Left-aligned, upright characters at a pen position, in colors.
    Plain(Seq<char>, u16, u16, Seq<ColorRange>),
    /// The same, clipped to a rectangle of their own.
    Clipped(Seq<char>, u16, u16, Seq<ColorRange>, Rect2D),
}

/// The characters a step draws.
pub open spec fn op_chars(op: TextOp) -> Seq<char> {
    match op {
        TextOp::Plain(s, _, _, _) => s,
        TextOp::Clipped(s, _, _, _, _) => s,
    }
}

/// `after` is the renderer `before` after the steps, in order.
pub open spec fn ops_post(before: TextRenderer, after: TextRenderer, ops: Seq<TextOp>) -> bool
    decreases ops.len(),
{
    if ops.len() == 0 {
        after == before
    } else {
        exists|mid: TextRenderer| ops_post(before, mid, ops.drop_last()) && #[trigger] mid.op_post(after, ops.last())
    }
}

/// One more step after a series is the longer series.
pub proof fn lemma_ops_push(a: TextRenderer, b: TextRenderer, c: TextRenderer, ops: Seq<TextOp>, op: TextOp)
    requires
        ops_post(a, b, ops),
        b.op_post(c, op),
    ensures
        ops_post(a, c, ops.push(op)),
{
    assert(ops.push(op).drop_last() =~= ops);
    assert(ops.push(op).last() == op);
}

/// A series of steps followed by another series is the joined series.
pub proof fn lemma_ops_concat(a: TextRenderer, b: TextRenderer, c: TextRenderer, o1: Seq<TextOp>, o2: Seq<TextOp>)
    requires
        ops_post(a, b, o1),
        ops_post(b, c, o2),
    ensures
        ops_post(a, c, o1 + o2),
    decreases o2.len(),
{
    if o2.len() == 0 {
        assert(o1 + o2 =~= o1);
    } else {
        let mid = choose|mid: TextRenderer| ops_post(b, mid, o2.drop_last()) && #[trigger] mid.op_post(c, o2.last());
        lemma_ops_concat(a, b, mid, o1, o2.drop_last());
        lemma_ops_push(a, mid, c, o1 + o2.drop_last(), o2.last());
        assert((o1 + o2.drop_last()).push(o2.last()) =~= o1 + o2);
    }
}

/// No steps leave the renderer as it is.
pub proof fn lemma_ops_none(a: TextRenderer)
    ensures
        ops_post(a, a, Seq::empty()),
{
}

/// Drawing `n` characters queues at most `n` glyph vertices.
proof fn lemma_draw_state_len(
    glyphs: Seq<GlyphData>,
    s: Seq<char>,
    y: u32,
    italic_bit: u32,
    colors: Seq<ColorRange>,
    x0: u32,
    n: int,
)
    requires
        0 <= n,
    ensures
        draw_state(glyphs, s, y, italic_bit, colors, x0, n).verts.len() <= n,
    decreases n,
{
    if n > 0 {
        lemma_draw_state_len(glyphs, s, y, italic_bit, colors, x0, n - 1);
    }
}

impl TextRenderer {
    /// What a step does: `self` is the renderer before, `after` the one after.
    pub open spec fn op_post(&self, after: Self, op: TextOp) -> bool {
        match op {
            TextOp::Plain(s, x, y, colors) => if s.len() == 0 {
                after == *self
            } else {
                self.plain_drawn(after, s, x, y, colors)
            },
            TextOp::Clipped(s, x, y, colors, area) => self.clipped_drawn(after, s, x, y, colors, area),
        }
    }

    /// Drawing left-aligned, upright characters is a plain step.
    pub proof fn lemma_plain_op(&self, after: Self, s: Seq<char>, x: u16, y: u16, style: Style, r: (u16, u16))
        requires
            s.len() > 0,
            style.align == Align::Left,
            !style.italic,
            self.draw_post(after, s, x, y, style, r),
        ensures
            self.op_post(after, TextOp::Plain(s, x, y, style.colors@)),
    {
    }

    /// A step keeps the glyph table and viewport and queues at most one
    /// vertex per character.
    pub proof fn lemma_op_growth(&self, after: Self, op: TextOp)
        requires
            self.op_post(after, op),
        ensures
            after.spec_glyphs() == self.spec_glyphs(),
            after.spec_viewport() == self.spec_viewport(),
            self.spec_text_buffer().len() <= after.spec_text_buffer().len() <= self.spec_text_buffer().len()
                + op_chars(op).len(),
    {
        match op {
            TextOp::Plain(s, x, y, colors) => {
                lemma_draw_state_len(self.spec_glyphs(), s, y as u32, 0, colors, x as u32, s.len() as int);
            },
            TextOp::Clipped(s, x, y, colors, area) => {
                lemma_draw_state_len(self.spec_glyphs(), s, y as u32, 0, colors, x as u32, s.len() as int);
            },
        }
    }
}

/// Each glyph advances at most 255 font pixels.
pub proof fn lemma_width_units_bound(glyphs: Seq<GlyphData>, s: Seq<char>)
    ensures
        0 <= width_units(glyphs, s) <= 255 * s.len(),
    decreases s.len(),
{
    if s.len() > 0 {
        lemma_width_units_bound(glyphs, s.drop_last());
    }
}

/// The character index at a byte offset of `s`.
pub open spec fn char_at_byte(s: Seq<char>, b: int) -> int {
    choose|i: int| 0 <= i <= s.len() && byte_offset(s, i) == b
}

/// The lines of a text broken to `max_w` pixels: the characters between
/// consecutive break positions.
pub open spec fn text_lines(glyphs: Seq<GlyphData>, msg: Seq<char>, max_w: int) -> Seq<Seq<char>> {
    let bs = linebreaks(glyphs, msg, max_w);
    Seq::new(
        bs.len(),
        |k: int|
            msg.subrange(
                char_at_byte(msg, if k == 0 { 0 } else { bs[k - 1] as int }),
                char_at_byte(msg, bs[k] as int),
            ),
    )
}

/// The break positions of a text are character boundaries in increasing
/// order: the character index of each is found, and they increase.
pub proof fn lemma_text_line_bounds(glyphs: Seq<GlyphData>, msg: Seq<char>, max_w: int, k: int)
    requires
        byte_offset(msg, msg.len() as int) <= u16::MAX,
        0 <= k < linebreaks(glyphs, msg, max_w).len(),
    ensures
        ({
            let bs = linebreaks(glyphs, msg, max_w);
            let a = char_at_byte(msg, if k == 0 { 0 } else { bs[k - 1] as int });
            let b = char_at_byte(msg, bs[k] as int);
            &&& 0 <= a <= b <= msg.len()
            &&& byte_offset(msg, a) == if k == 0 { 0 } else { bs[k - 1] as int }
            &&& byte_offset(msg, b) == bs[k]
        }),
{
    lemma_linebreaks_shape(glyphs, msg, max_w);
    let bs = linebreaks(glyphs, msg, max_w);
    let start = if k == 0 { 0 } else { bs[k - 1] as int };
    assert(exists|i: int| 0 <= i <= msg.len() && byte_offset(msg, i) == start) by {
        if k == 0 {
            assert(byte_offset(msg, 0) == 0);
        } else {
            assert(bs[k - 1] == bs[k - 1]);
        }
    }
    assert(exists|i: int| 0 <= i <= msg.len() && byte_offset(msg, i) == bs[k] as int) by {
        assert(bs[k] == bs[k]);
    }
    let a = char_at_byte(msg, start);
    let b = char_at_byte(msg, bs[k] as int);
    if k > 0 {
        assert(bs[k - 1] < bs[k]);
    }
    if a > b {
        crate::text::lemma_byte_offset_bounds(msg, b, a);
    }
}

/// When the whole run fits in 16 bits, so does every prefix of it.
proof fn lemma_linebreak_fits_prefix(glyphs: Seq<GlyphData>, s: Seq<char>, m: int, i: int, n: int)
    requires
        0 <= i <= n,
        linebreak_state(glyphs, s, m, n).fits,
    ensures
        linebreak_state(glyphs, s, m, i).fits,
    decreases n - i,
{
    if i < n {
        lemma_linebreak_fits_prefix(glyphs, s, m, i, n - 1);
    }
}

/// The index of vertex `j` of quad `k` (two triangles, 0,1,2 and 1,2,3).
pub open spec fn quad_index(i: int) -> int {
    (if i % 6 > 2 { i - 2 } else { i }) - i / 6 * 2
}

/// Number of glyphs the index buffer covers.
pub const MAX_INDEXED_GLYPHS: usize = 4096;

/// Contents of the glyph index buffer: six indices per glyph quad.
pub fn index_buffer_contents() -> (r: Vec<u16>)
    ensures
        r@.len() == MAX_INDEXED_GLYPHS * 6,
        forall|i: int| 0 <= i < r@.len() ==> #[trigger] r@[i] == quad_index(i),
{
    let mut out: Vec<u16> = Vec::with_capacity(4096 * 6);
    let mut i: u16 = 0;
    while i < 4096 * 6
        invariant
            i <= 4096 * 6,
            out@.len() == i,
            forall|j: int| 0 <= j < i ==> #[trigger] out@[j] == quad_index(j),
        decreases 4096 * 6 - i,
    {
        let value: u16 = if i % 6 > 2 { i - 2 } else { i };
        out.push(value - i / 6 * 2);
        i += 1;
    }
    out
}

/// Quad `k` of the index buffer is the two triangles (4k, 4k+1, 4k+2) and
/// (4k+1, 4k+2, 4k+3).
pub proof fn lemma_quad_indices(k: int, j: int)
    requires
        0 <= k,
        0 <= j < 6,
    ensures
        quad_index(6 * k + j) == 4 * k + if j < 3 { j } else { j - 2 },
{
    assert((6 * k + j) % 6 == j) by (nonlinear_arith)
        requires 0 <= j < 6, 0 <= k;
    assert((6 * k + j) / 6 == k) by (nonlinear_arith)
        requires 0 <= j < 6, 0 <= k;
}

/// Size in bytes of one glyph table entry.
pub const GLYPH_RECORD_BYTES: usize = 8;

/// A little-endian `u16` or `u32` from bytes.
pub open spec fn le_u16(b0: u8, b1: u8) -> int {
    b0 + b1 * 256
}

pub open spec fn le_u32(b0: u8, b1: u8, b2: u8, b3: u8) -> int {
    b0 + b1 * 0x100 + b2 * 0x1_0000 + b3 * 0x100_0000
}

/// The glyph entry stored at a byte offset: the character as a little-endian
/// `u32`, then the base and dimensions as a little-endian `u16`, then the
/// advance and the layer.
pub open spec fn glyph_record(b: Seq<u8>, at: int) -> GlyphData {
    GlyphData {
        char: le_u32(b[at], b[at + 1], b[at + 2], b[at + 3]) as u32,
        base_and_dims: le_u16(b[at + 4], b[at + 5]) as u16,
        advance: b[at + 6],
        layer: b[at + 7],
    }
}

/// Decodes a glyph table of 256 entries of 8 bytes each.
pub fn decode_glyph_table(bytes: &[u8]) -> (r: Vec<GlyphData>)
    requires
        bytes@.len() == GLYPH_TABLE_LEN * GLYPH_RECORD_BYTES,
    ensures
        r@.len() == GLYPH_TABLE_LEN,
        forall|i: int| 0 <= i < GLYPH_TABLE_LEN ==> #[trigger] r@[i] == glyph_record(bytes@, 8 * i),
{
    let mut out: Vec<GlyphData> = Vec::with_capacity(GLYPH_TABLE_LEN);
    let mut i: usize = 0;
    while i < GLYPH_TABLE_LEN
        invariant
            bytes@.len() == GLYPH_TABLE_LEN * GLYPH_RECORD_BYTES,
            i <= GLYPH_TABLE_LEN,
            out@.len() == i,
            forall|j: int| 0 <= j < i ==> #[trigger] out@[j] == glyph_record(bytes@, 8 * j),
        decreases GLYPH_TABLE_LEN - i,
    {
        let at = 8 * i;
        let c = bytes[at] as u32 + (bytes[at + 1] as u32) * 0x100 + (bytes[at + 2] as u32) * 0x1_0000 + (
        bytes[at + 3] as u32) * 0x100_0000;
        let bd = bytes[at + 4] as u16 + (bytes[at + 5] as u16) * 256;
        out.push(GlyphData { char: c, base_and_dims: bd, advance: bytes[at + 6], layer: bytes[at + 7] });
        i += 1;
    }
    out
}

/// What lz4 block decompression gives for a buffer with a size prefix: the
/// bytes, or `None` when it fails.
pub uninterp spec fn lz4_block_decompressed(src: Seq<u8>) -> Option<Seq<u8>>;

/// `lz4::block::decompress(src, None)`: decompresses a block whose first four
/// bytes give the uncompressed size (little-endian). The result depends on the
/// bytes alone; a buffer shorter than the size prefix is refused, and so is a
/// size prefix that is negative as an `i32` (its top bit set).
#[verifier::external_body]
pub(crate) fn lz4_decompress(src: &[u8]) -> (r: Option<Vec<u8>>)
    ensures
        r matches Some(v) ==> lz4_block_decompressed(src@) == Some(v@),
        r is None ==> lz4_block_decompressed(src@) is None,
        src@.len() < 4 ==> r is None,
        src@.len() >= 4 && src@[3] >= 0x80 ==> r is None,
{
    match lz4::block::decompress(src, None) {
        Ok(v) => Some(v),
        Err(_) => None,
    }
}

/// Why the glyph table could not be loaded.
#[derive(Clone, Copy, PartialEq, Eq, Structural, Debug)]
pub enum GlyphTableError {
    /// The compressed data did not decompress.
    Decompress,
    /// The decompressed data is not 256 entries of 8 bytes.
    WrongSize,
}

/// Loads the glyph table from its lz4-compressed form.
pub fn load_glyph_table(compressed: &[u8]) -> (r: Result<Vec<GlyphData>, GlyphTableError>)
    ensures
        compressed@.len() < 4 || compressed@[3] >= 0x80 ==> r == Err::<Vec<GlyphData>, GlyphTableError>(
            GlyphTableError::Decompress,
        ),
        lz4_block_decompressed(compressed@) is None <==> r == Err::<Vec<GlyphData>, GlyphTableError>(
            GlyphTableError::Decompress,
        ),
        lz4_block_decompressed(compressed@) matches Some(b) ==> {
            &&& b.len() != GLYPH_TABLE_LEN * GLYPH_RECORD_BYTES <==> r == Err::<Vec<GlyphData>, GlyphTableError>(
                GlyphTableError::WrongSize,
            )
            &&& r matches Ok(t) ==> t@.len() == GLYPH_TABLE_LEN && forall|i: int|
                0 <= i < GLYPH_TABLE_LEN ==> #[trigger] t@[i] == glyph_record(b, 8 * i)
        },
{
    match lz4_decompress(compressed) {
        None => Err(GlyphTableError::Decompress),
        Some(bytes) => {
            if bytes.len() != GLYPH_TABLE_LEN * GLYPH_RECORD_BYTES {
                Err(GlyphTableError::WrongSize)
            } else {
                Ok(decode_glyph_table(bytes.as_slice()))
            }
        },
    }
}

} // verus!
