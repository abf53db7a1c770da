//! An editable single-line text field: character input, cursor and selection
//! movement, clipboard operations and horizontal scrolling.

use vstd::prelude::*;
use bevy_utils::HashSet;
use crate::text::str_chars;
use crate::renderer::text_renderer::{
    TextRenderer, width_units, lemma_width_units_split, glyph_idx_at, lemma_glyph_idx_bounds, TextColor,
    ColorRange, Align, Scissors, Rect2D, Offset2D, Extent2D, draw_state, shift_vertices, align_offset,
    packed_r6g6b6a3, default_text_color, TextOp,
};
use crate::renderer::ui_renderer::{UiRenderer, UiRect, rects_queued, lemma_rects_queued_concat, lemma_rects_queued_none};
use crate::input::keyboard::{Key, Mods};
use crate::input::keys;

verus! {

broadcast use vstd::seq_lib::group_seq_properties;

/// Characters a text box accepts unless told otherwise.
pub const DEFAULT_VALID_INPUT_CHARS: &'static str = " abcdefghijklmnopqrstuvwxyzåäöABCDEFGHIJKLMNOPQRSTUVWXYZÅÄÖ0123456789!\"#¤%&/()=\\?@£€${[]}^¨*+'-;:_,.<>|§";

/// The backspace character.
pub const BACKSPACE: char = '\x08';

/// Whether a character stops a word-wise cursor move: one of ` \t\n.,_-:`.
pub open spec fn is_stopper(c: char) -> bool {
    c == ' ' || c == '\t' || c == '\n' || c == '.' || c == ',' || c == '_' || c == '-' || c == ':'
}

/// Whether a character stops a word-wise cursor move.
pub fn is_ctrl_sel_stopper(c: char) -> (r: bool)
    ensures
        r == is_stopper(c),
{
    c == ' ' || c == '\t' || c == '\n' || c == '.' || c == ',' || c == '_' || c == '-' || c == ':'
}

/// A set of characters, held in a `HashSet` of bevy_utils.
#[verifier::external_body]
pub struct ValidChars {
    set: HashSet<char>,
}

/// The characters of a set.
pub uninterp spec fn valid_char_set(v: ValidChars) -> Set<char>;

/// `HashSet::from_iter`: the set of the given characters.
#[verifier::external_body]
fn hash_set_from_chars(chars: &[char]) -> (r: ValidChars)
    ensures
        valid_char_set(r) == chars@.to_set(),
{
    ValidChars { set: chars.iter().copied().collect() }
}

/// `HashSet::contains`: whether the character is in the set.
#[verifier::external_body]
fn hash_set_contains(v: &ValidChars, c: char) -> (r: bool)
    ensures
        r == valid_char_set(*v).contains(c),
{
    v.set.contains(&c)
}

impl ValidChars {
    /// The set of the given characters.
    pub fn from_chars(chars: &[char]) -> (r: ValidChars)
        ensures
            valid_char_set(r) == chars@.to_set(),
    {
        hash_set_from_chars(chars)
    }

    /// Whether the character is in the set.
    pub fn contains(&self, c: char) -> (r: bool)
        ensures
            r == valid_char_set(*self).contains(c),
    {
        hash_set_contains(self, c)
    }

    /// The characters of [`DEFAULT_VALID_INPUT_CHARS`].
    pub fn default_set() -> (r: ValidChars)
        ensures
            valid_char_set(r) == DEFAULT_VALID_INPUT_CHARS@.to_set(),
    {
        let chars = str_chars(DEFAULT_VALID_INPUT_CHARS);
        Self::from_chars(chars.as_slice())
    }
}

/// A selection between two glyph boundaries; `end` is where the cursor is.
#[derive(Debug, Clone, Copy, PartialEq, Eq, Structural)]
pub struct Selection {
    pub start: i32,
    pub end: i32,
}

impl Selection {
    pub fn is_empty(&self) -> (r: bool)
        ensures
            r == (self.start == self.end),
    {
        self.start == self.end
    }

    /// The same selection with `start <= end`.
    pub open spec fn spec_sorted(self) -> Selection {
        if self.start < self.end {
            self
        } else {
            Selection { start: self.end, end: self.start }
        }
    }

    pub fn sorted(&self) -> (r: Self)
        ensures
            r == self.spec_sorted(),
    {
        if self.start < self.end {
            *self
        } else {
            Self { start: self.end, end: self.start }
        }
    }

    pub fn clear_to(&mut self, idx: i32)
        ensures
            *final(self) == (Selection { start: idx, end: idx }),
    {
        self.start = idx;
        self.end = idx;
    }
}

/// `v` clamped to `[0, hi]`.
pub open spec fn clamp(v: int, hi: int) -> int {
    if v < 0 {
        0
    } else if v > hi {
        hi
    } else {
        v
    }
}

fn clamp_i32(v: i32, hi: i32) -> (r: i32)
    requires
        hi >= 0,
    ensures
        r == clamp(v as int, hi as int),
{
    if v < 0 {
        0
    } else if v > hi {
        hi
    } else {
        v
    }
}

/// The editable part of a text box: text, cursor, selection and whether the
/// text was edited.
pub struct EditState {
    pub buffer: Seq<char>,
    pub cursor: int,
    pub selection: Selection,
    pub modified: bool,
}

/// Cursor moved to `idx` (clamped to the text), selection emptied there.
pub open spec fn es_clear_to(s: EditState, idx: int) -> EditState {
    let c = clamp(idx, s.buffer.len() as int);
    EditState {
        buffer: s.buffer,
        cursor: c,
        selection: Selection { start: c as i32, end: c as i32 },
        modified: s.modified,
    }
}

/// Selection from `from` to `to`, each clamped to the text; cursor at `to`.
pub open spec fn es_select_range(s: EditState, from: int, to: int) -> EditState {
    let len = s.buffer.len() as int;
    EditState {
        buffer: s.buffer,
        cursor: clamp(to, len),
        selection: Selection { start: clamp(from, len) as i32, end: clamp(to, len) as i32 },
        modified: s.modified,
    }
}

/// Whole text selected, cursor at its end.
pub open spec fn es_select_all(s: EditState) -> EditState {
    EditState {
        buffer: s.buffer,
        cursor: s.buffer.len() as int,
        selection: Selection { start: 0, end: s.buffer.len() as i32 },
        modified: s.modified,
    }
}

/// The selected text deleted, if there is any; cursor and an empty selection
/// where it started.
pub open spec fn es_erase_selection(s: EditState) -> EditState {
    let sel = s.selection.spec_sorted();
    if sel.start == sel.end {
        s
    } else {
        EditState {
            buffer: s.buffer.subrange(0, sel.start as int) + s.buffer.subrange(sel.end as int, s.buffer.len() as int),
            cursor: sel.start as int,
            selection: Selection { start: sel.start, end: sel.start },
            modified: true,
        }
    }
}

/// A character inserted at the cursor, which moves past it.
pub open spec fn es_insert(s: EditState, c: char) -> EditState {
    let b = s.buffer.insert(s.cursor, c);
    let cur = clamp(s.cursor + 1, b.len() as int);
    EditState {
        buffer: b,
        cursor: cur,
        selection: Selection { start: cur as i32, end: cur as i32 },
        modified: true,
    }
}

/// Index of the last non-space character at or before `idx`, or -1.
pub open spec fn skip_spaces_left(b: Seq<char>, idx: int) -> int
    decreases idx + 1,
{
    if idx < 0 {
        -1
    } else if b[idx] == ' ' {
        skip_spaces_left(b, idx - 1)
    } else {
        idx
    }
}

/// Moves left from `idx` while the character before it is not a stopper.
pub open spec fn word_start(b: Seq<char>, idx: int) -> int
    decreases idx,
{
    if idx <= 0 {
        idx
    } else if !is_stopper(b[idx - 1]) {
        word_start(b, idx - 1)
    } else {
        idx
    }
}

/// First index at or after `idx` that is past the text or not a space.
pub open spec fn skip_spaces_right(b: Seq<char>, idx: int) -> int
    decreases b.len() - idx,
{
    if idx >= b.len() || idx < 0 {
        idx
    } else if b[idx] == ' ' {
        skip_spaces_right(b, idx + 1)
    } else {
        idx
    }
}

/// Moves right from `idx` while the character there is not a stopper.
pub open spec fn word_end(b: Seq<char>, idx: int) -> int
    decreases b.len() - idx,
{
    if idx >= b.len() || idx < 0 {
        idx
    } else if !is_stopper(b[idx]) {
        word_end(b, idx + 1)
    } else {
        idx
    }
}

/// Moves left from `idx` while the character at it is not a stopper.
pub open spec fn word_back(b: Seq<char>, idx: int) -> int
    decreases idx,
{
    if idx <= 0 {
        idx
    } else if !is_stopper(b[idx]) {
        word_back(b, idx - 1)
    } else {
        idx
    }
}

/// Whether a word-wise move to the left is defined: at the text's start, or
/// with a non-space character before the selection's end. (Otherwise the scan
/// runs off the start of the text.)
pub open spec fn left_delim_ok(s: EditState) -> bool {
    s.cursor == 0 || (s.selection.end >= 1 && skip_spaces_left(s.buffer, s.selection.end - 1) >= 0)
}

/// Where a word-wise move to the left goes: past the spaces before the
/// selection's end, then to the start of the word.
pub open spec fn left_delim(s: EditState) -> int {
    if s.cursor == 0 {
        0
    } else {
        word_start(s.buffer, skip_spaces_left(s.buffer, s.selection.end - 1))
    }
}

/// Where a word-wise move to the right goes: past the spaces from the
/// selection's end, then to the end of the word.
pub open spec fn right_delim(s: EditState) -> int {
    if s.cursor == s.buffer.len() {
        s.buffer.len() as int
    } else {
        word_end(s.buffer, skip_spaces_right(s.buffer, s.selection.end as int))
    }
}

/// Typing a character: backspace deletes the selection, or else the character
/// before the cursor (with ctrl: back to the previous word boundary); a valid
/// character replaces the selection and is inserted if the length limit allows;
/// any other character is ignored.
pub open spec fn es_char_input(s: EditState, c: char, ctrl: bool, valid: Set<char>, limit: int) -> EditState {
    if c == '\x08' {
        if s.cursor == 0 || s.selection.start != s.selection.end {
            es_erase_selection(s)
        } else {
            let idx = if ctrl { left_delim(s) } else { s.cursor - 1 };
            es_erase_selection(es_select_range(s, s.cursor, idx))
        }
    } else if !valid.contains(c) {
        s
    } else {
        let s1 = if s.selection.start != s.selection.end { es_erase_selection(s) } else { s };
        if s1.buffer.len() < limit {
            es_insert(s1, c)
        } else {
            s1
        }
    }
}

/// The characters of `t` that are in `valid`, in order.
pub open spec fn filter_valid(t: Seq<char>, valid: Set<char>) -> Seq<char> {
    t.filter(|c: char| valid.contains(c))
}

/// Pasting text: the valid characters of the text replace the selection, cut
/// to what the length limit leaves room for; the cursor goes after them.
pub open spec fn es_paste(s: EditState, text: Seq<char>, valid: Set<char>, limit: int) -> EditState {
    let t = filter_valid(text, valid);
    let sel = s.selection.spec_sorted();
    let room = limit - s.buffer.len() + (sel.end - sel.start);
    let n = if t.len() < room { t.len() as int } else { room };
    let b = s.buffer.subrange(0, sel.start as int) + t.take(n) + s.buffer.subrange(sel.end as int, s.buffer.len() as int);
    EditState {
        buffer: b,
        cursor: sel.start + n,
        selection: Selection { start: (sel.start + n) as i32, end: (sel.start + n) as i32 },
        modified: true,
    }
}

/// Whether pasting the text is defined: the text is not over its length limit
/// and the result's length fits an `i32`.
pub open spec fn paste_ok(s: EditState, text: Seq<char>, valid: Set<char>, limit: int) -> bool {
    &&& s.buffer.len() <= limit
    &&& es_paste(s, text, valid, limit).buffer.len() < i32::MAX
}

/// Double-click selection of the word around the cursor: from after the
/// previous stopper to the next stopper; the cursor goes to its end.
pub open spec fn es_select_word(s: EditState) -> EditState {
    let len = s.buffer.len() as int;
    let cp = if s.cursor < len - 1 { s.cursor } else { len - 1 };
    let st0 = word_back(s.buffer, (if cp > 1 { cp } else { 1 }) - 1);
    let end = word_end(s.buffer, cp);
    let start = if is_stopper(s.buffer[st0]) { st0 + 1 } else { st0 };
    EditState {
        buffer: s.buffer,
        cursor: end,
        selection: Selection { start: start as i32, end: end as i32 },
        modified: s.modified,
    }
}

/// The selection emptied at the start of the text; the cursor stays.
pub open spec fn es_clear_to_selection_only(s: EditState) -> EditState {
    EditState { buffer: s.buffer, cursor: s.cursor, selection: Selection { start: 0, end: 0 }, modified: s.modified }
}

/// The selection lies within the text, whose length fits an `i32`.
pub open spec fn es_selection_ok(s: EditState) -> bool {
    &&& s.buffer.len() < i32::MAX
    &&& 0 <= s.selection.start <= s.buffer.len()
    &&& 0 <= s.selection.end <= s.buffer.len()
}

/// Erasing the selection never lengthens the text.
proof fn lemma_erase_len(s: EditState)
    requires
        es_selection_ok(s),
    ensures
        es_erase_selection(s).buffer.len() <= s.buffer.len(),
{
}

/// A handled key press never lengthens the text.
proof fn lemma_key_len(s: EditState, key: Key, ctrl: bool, shift: bool)
    requires
        es_selection_ok(s),
    ensures
        es_key(s, key, ctrl, shift) matches Some(e) ==> e.buffer.len() <= s.buffer.len(),
{
    lemma_erase_len(s);
}

/// Typing a character never takes the text beyond the length limit.
pub proof fn lemma_char_input_limit(s: EditState, c: char, ctrl: bool, valid: Set<char>, limit: int)
    requires
        es_selection_ok(s),
        0 <= s.cursor <= s.buffer.len(),
        s.buffer.len() <= limit,
    ensures
        es_char_input(s, c, ctrl, valid, limit).buffer.len() <= limit,
{
    lemma_erase_len(s);
    if c == '\x08' {
        if !(s.cursor == 0 || s.selection.start != s.selection.end) {
            let idx = if ctrl { left_delim(s) } else { s.cursor - 1 };
            lemma_erase_len(es_select_range(s, s.cursor, idx));
        }
    }
}

/// Pasting never takes the text beyond the length limit.
pub proof fn lemma_paste_limit(s: EditState, text: Seq<char>, valid: Set<char>, limit: int)
    requires
        es_selection_ok(s),
        s.buffer.len() <= limit,
    ensures
        es_paste(s, text, valid, limit).buffer.len() <= limit,
{
}

/// Every character of the text is one of the valid ones.
pub open spec fn all_valid(b: Seq<char>, valid: Set<char>) -> bool {
    forall|i: int| 0 <= i < b.len() ==> valid.contains(#[trigger] b[i])
}

/// Erasing the selection keeps only characters of the text.
proof fn lemma_erase_valid(s: EditState, valid: Set<char>)
    requires
        es_selection_ok(s),
        all_valid(s.buffer, valid),
    ensures
        all_valid(es_erase_selection(s).buffer, valid),
{
    let sel = s.selection.spec_sorted();
    if sel.start != sel.end {
        let a = s.buffer.subrange(0, sel.start as int);
        let b = s.buffer.subrange(sel.end as int, s.buffer.len() as int);
        assert forall|i: int| 0 <= i < (a + b).len() implies valid.contains(#[trigger] (a + b)[i]) by {
            if i < a.len() {
                assert((a + b)[i] == s.buffer[i]);
            } else {
                assert((a + b)[i] == s.buffer[sel.end + i - a.len()]);
            }
        }
    }
}

/// Typing a character never puts an invalid one into the text.
pub proof fn lemma_char_input_valid(s: EditState, c: char, ctrl: bool, valid: Set<char>, limit: int)
    requires
        es_selection_ok(s),
        0 <= s.cursor <= s.buffer.len(),
        all_valid(s.buffer, valid),
    ensures
        all_valid(es_char_input(s, c, ctrl, valid, limit).buffer, valid),
{
    lemma_erase_valid(s, valid);
    if c == '\x08' {
        if !(s.cursor == 0 || s.selection.start != s.selection.end) {
            let idx = if ctrl { left_delim(s) } else { s.cursor - 1 };
            lemma_erase_valid(es_select_range(s, s.cursor, idx), valid);
        }
    } else if valid.contains(c) {
        let s1 = if s.selection.start != s.selection.end { es_erase_selection(s) } else { s };
        if s1.buffer.len() < limit {
            lemma_erase_len(s);
            let b = s1.buffer.insert(s1.cursor, c);
            assert forall|i: int| 0 <= i < b.len() implies valid.contains(#[trigger] b[i]) by {
                if i < s1.cursor {
                    assert(b[i] == s1.buffer[i]);
                } else if i > s1.cursor {
                    assert(b[i] == s1.buffer[i - 1]);
                }
            }
        }
    }
}

/// Pasting never puts an invalid character into the text.
pub proof fn lemma_paste_valid(s: EditState, text: Seq<char>, valid: Set<char>, limit: int)
    requires
        es_selection_ok(s),
        s.buffer.len() <= limit,
        all_valid(s.buffer, valid),
    ensures
        all_valid(es_paste(s, text, valid, limit).buffer, valid),
{
    let t = filter_valid(text, valid);
    let sel = s.selection.spec_sorted();
    let room = limit - s.buffer.len() + (sel.end - sel.start);
    let n = if t.len() < room { t.len() as int } else { room };
    let a = s.buffer.subrange(0, sel.start as int);
    let m = t.take(n);
    let b = s.buffer.subrange(sel.end as int, s.buffer.len() as int);
    let r = a + m + b;
    assert(r == es_paste(s, text, valid, limit).buffer);
    text.lemma_filter_len(|c: char| valid.contains(c));
    assert(0 <= n <= t.len());
    assert forall|i: int| 0 <= i < r.len() implies valid.contains(#[trigger] r[i]) by {
        if i < a.len() {
            assert(r[i] == s.buffer[i]);
        } else if i < a.len() + m.len() {
            assert(r[i] == m[i - a.len()]);
            assert(m[i - a.len()] == t[i - a.len()]);
            text.lemma_filter_pred(|c: char| valid.contains(c), i - a.len());
        } else {
            assert(r[i] == s.buffer[sel.end + i - a.len() - m.len()]);
        }
    }
}

/// An input event, as far as a text box reads it.
#[derive(Clone, Copy, PartialEq, Eq, Structural, Debug)]
pub enum TextBoxEvent {
    /// A character was typed.
    ReceivedCharacter(char),
    /// A key went down.
    KeyPressed(Key),
    /// The left mouse button went down.
    LeftMousePressed,
    /// The left mouse button went up.
    LeftMouseReleased,
    /// The cursor moved.
    CursorMoved,
    /// Anything else.
    Other,
}

/// The rest of the input state an event is handled with.
#[derive(Clone, Copy, PartialEq, Eq, Structural, Debug)]
pub struct TextBoxInput {
    pub mods: Mods,
    pub time_ms: u32,
    /// The mouse's x in window pixels, rounded down.
    pub mouse_x: i32,
    /// The mouse's distance from the window's bottom edge in pixels: window
    /// height minus its y, each truncated to an integer.
    pub mouse_y_up: i32,
}

/// What a handled event asks of the clipboard.
#[derive(PartialEq, Eq, Debug)]
pub enum ClipboardRequest {
    Nothing,
    /// Put this text on the clipboard.
    Write(Vec<char>),
    /// Read the clipboard and hand the text to [`TextBox::paste_text`].
    ReadForPaste,
}

/// The key presses a text box handles, and what each does to the text, cursor
/// and selection; `None` for keys it ignores.
pub open spec fn es_key(s: EditState, key: Key, ctrl: bool, shift: bool) -> Option<EditState> {
    let sel = s.selection;
    let sorted = sel.spec_sorted();
    if key == keys::C && ctrl {
        Some(s)
    } else if key == keys::V && ctrl {
        Some(s)
    } else if key == keys::X && ctrl {
        Some(es_erase_selection(s))
    } else if key == keys::A && ctrl {
        Some(es_select_all(s))
    } else if key == keys::UP && shift {
        Some(es_select_range(s, 0, s.cursor))
    } else if key == keys::DOWN && shift {
        Some(es_select_range(s, i32::MAX as int, s.cursor))
    } else if key == keys::UP {
        Some(es_clear_to(s, 0))
    } else if key == keys::DOWN {
        Some(es_clear_to(s, i32::MAX as int))
    } else if key == keys::LEFT && shift && ctrl {
        Some(es_select_range(s, sel.start as int, left_delim(s)))
    } else if key == keys::RIGHT && shift && ctrl {
        Some(es_select_range(s, sel.start as int, right_delim(s)))
    } else if key == keys::LEFT && ctrl {
        Some(es_clear_to(s, left_delim(s)))
    } else if key == keys::RIGHT && ctrl {
        Some(es_clear_to(s, right_delim(s)))
    } else if key == keys::LEFT && shift {
        Some(es_select_range(s, sel.start as int, sel.end - 1))
    } else if key == keys::RIGHT && shift {
        Some(es_select_range(s, sel.start as int, sel.end + 1))
    } else if key == keys::LEFT && sel.start != sel.end {
        Some(es_clear_to(s, sorted.start as int))
    } else if key == keys::RIGHT && sel.start != sel.end {
        Some(es_clear_to(s, sorted.end as int))
    } else if key == keys::LEFT {
        Some(es_clear_to(s, s.cursor - 1))
    } else if key == keys::RIGHT {
        Some(es_clear_to(s, s.cursor + 1))
    } else if key == keys::D {
        Some(es_clear_to(s, s.cursor))
    } else {
        None
    }
}

/// `a - b`, or 0 when `b` is larger.
pub open spec fn sat_sub(a: int, b: int) -> int {
    if a > b {
        a - b
    } else {
        0
    }
}

/// The window x of the mouse shifted by the scroll position, as a `u16` pixel.
pub open spec fn scrolled_mouse_x(mouse_x: i32, visible_start: int) -> int {
    if mouse_x + visible_start < 0 {
        0
    } else if mouse_x + visible_start > u16::MAX {
        u16::MAX as int
    } else {
        mouse_x + visible_start
    }
}

/// Consecutive clicks after a click at glyph boundary `pos`: the count restarts
/// unless the click is at the last click's boundary within 300 ms.
pub open spec fn click_count(clicks: int, pos: int, last_pos: int, time_ms: int, last_ms: int) -> int {
    (if pos != last_pos || sat_sub(time_ms, last_ms) > 300 { 0 } else { clicks }) + 1
}

/// How a text box is drawn: the cursor's color `0xRRGGBBAA` and the text's color.
#[derive(Clone, Copy, PartialEq, Eq, Structural, Debug)]
pub struct Style {
    pub cursor_color: u32,
    pub text_color: TextColor,
}

impl Default for Style {
    /// A grey cursor and white text.
    fn default() -> (r: Self)
        ensures
            r.cursor_color == 0x99_99_99_FF,
            r.text_color == default_text_color(),
    {
        Style { cursor_color: 0x99_99_99_FF, text_color: TextColor::default() }
    }
}

/// Whether the blinking cursor shows at `time_ms` after a key press at
/// `last_ms`: during the first half of each second.
pub open spec fn cursor_blink_on(time_ms: u32, last_ms: u32) -> bool {
    time_ms < last_ms || (time_ms - last_ms) % 1000 < 500
}

/// `v` clamped to `lo..=hi`.
pub open spec fn clamp_between(v: int, lo: int, hi: int) -> int {
    if v < lo {
        lo
    } else if v > hi {
        hi
    } else {
        v
    }
}

/// Builds a [`TextBox`].
pub struct TextBoxBuilder {
    valid_chars: Option<ValidChars>,
    length_limit: usize,
    x: u16,
    y: u16,
    width: u16,
}

impl TextBoxBuilder {
    pub closed spec fn spec_length_limit(&self) -> usize {
        self.length_limit
    }

    pub closed spec fn spec_width(&self) -> u16 {
        self.width
    }

    pub closed spec fn spec_pos(&self) -> (u16, u16) {
        (self.x, self.y)
    }

    /// The characters the box will accept, when they were given.
    pub closed spec fn spec_valid_chars(&self) -> Option<Set<char>> {
        match self.valid_chars {
            Some(v) => Some(valid_char_set(v)),
            None => None,
        }
    }

    /// A box at a position, with no length limit, the widest width and the
    /// default characters.
    pub fn new_at(x: u16, y: u16) -> (r: Self)
        ensures
            r.spec_pos() == (x, y),
            r.spec_length_limit() == usize::MAX,
            r.spec_width() == u16::MAX,
            r.spec_valid_chars() is None,
    {
        Self { valid_chars: None, length_limit: usize::MAX, x, y, width: u16::MAX }
    }

    pub fn with_width(self, width: u16) -> (r: Self)
        ensures
            r.spec_width() == width,
            r.spec_pos() == self.spec_pos(),
            r.spec_length_limit() == self.spec_length_limit(),
            r.spec_valid_chars() == self.spec_valid_chars(),
    {
        let mut s = self;
        s.width = width;
        s
    }

    pub fn with_valid_chars(self, chars: ValidChars) -> (r: Self)
        ensures
            r.spec_valid_chars() == Some(valid_char_set(chars)),
            r.spec_width() == self.spec_width(),
            r.spec_pos() == self.spec_pos(),
            r.spec_length_limit() == self.spec_length_limit(),
    {
        let mut s = self;
        s.valid_chars = Some(chars);
        s
    }

    pub fn with_length_limit(self, limit: usize) -> (r: Self)
        ensures
            r.spec_length_limit() == limit,
            r.spec_width() == self.spec_width(),
            r.spec_pos() == self.spec_pos(),
            r.spec_valid_chars() == self.spec_valid_chars(),
    {
        let mut s = self;
        s.length_limit = limit;
        s
    }

    /// An empty, active box.
    pub fn build(self) -> (r: TextBox)
        ensures
            r.wf(),
            r.spec_buffer().len() == 0,
            r.spec_cursor() == 0,
            r.spec_selection() == (Selection { start: 0, end: 0 }),
            r.spec_old_cursor() == 0,
            r.spec_valid_chars() == match self.spec_valid_chars() {
                Some(s) => s,
                None => DEFAULT_VALID_INPUT_CHARS@.to_set(),
            },
            r.spec_length_limit() == self.spec_length_limit(),
            (r.spec_x(), r.spec_y()) == self.spec_pos(),
            r.spec_width() == self.spec_width(),
            r.spec_visible_start() == 0,
            r.spec_active(),
            !r.spec_modified(),
            r.spec_mouse_clicks() == 0,
            r.spec_last_mouse_pos() == 0,
            !r.spec_dragging(),
            r.spec_last_keypress() == 0,
            r.spec_last_mouse_click() == 0,
    {
        let valid_chars = match self.valid_chars {
            Some(v) => v,
            None => ValidChars::default_set(),
        };
        let cap = if self.length_limit < 256 {
            self.length_limit
        } else {
            256
        };
        TextBox {
            buffer: Vec::with_capacity(cap),
            old_cursor_pos: 0,
            cursor_pos: 0,
            last_keypress_ms: 0,
            valid_chars,
            selection: Selection { start: 0, end: 0 },
            length_limit: self.length_limit,
            mouse_clicks: 0,
            last_mouse_click_ms: 0,
            last_mouse_pos: 0,
            dragging_mouse: false,
            modified: false,
            active: true,
            x: self.x,
            y: self.y,
            width: self.width,
            visible_start: 0,
        }
    }
}

/// An editable line of text. Times are in milliseconds.
pub struct TextBox {
    buffer: Vec<char>,
    old_cursor_pos: i32,
    cursor_pos: i32,
    last_keypress_ms: u32,
    valid_chars: ValidChars,
    selection: Selection,
    length_limit: usize,
    /// Consecutive clicks in the same position within the time limit.
    mouse_clicks: u32,
    last_mouse_click_ms: u32,
    last_mouse_pos: i32,
    dragging_mouse: bool,
    modified: bool,
    active: bool,
    x: u16,
    y: u16,
    width: u16,
    visible_start: u16,
}

impl TextBox {
    pub closed spec fn spec_buffer(&self) -> Seq<char> {
        self.buffer@
    }

    pub closed spec fn spec_cursor(&self) -> int {
        self.cursor_pos as int
    }

    pub closed spec fn spec_old_cursor(&self) -> int {
        self.old_cursor_pos as int
    }

    pub closed spec fn spec_selection(&self) -> Selection {
        self.selection
    }

    pub closed spec fn spec_valid_chars(&self) -> Set<char> {
        valid_char_set(self.valid_chars)
    }

    pub closed spec fn spec_length_limit(&self) -> usize {
        self.length_limit
    }

    pub closed spec fn spec_modified(&self) -> bool {
        self.modified
    }

    pub closed spec fn spec_active(&self) -> bool {
        self.active
    }

    pub closed spec fn spec_x(&self) -> u16 {
        self.x
    }

    pub closed spec fn spec_y(&self) -> u16 {
        self.y
    }

    pub closed spec fn spec_width(&self) -> u16 {
        self.width
    }

    pub closed spec fn spec_visible_start(&self) -> u16 {
        self.visible_start
    }

    pub closed spec fn spec_mouse_clicks(&self) -> u32 {
        self.mouse_clicks
    }

    pub closed spec fn spec_last_mouse_click(&self) -> u32 {
        self.last_mouse_click_ms
    }

    pub closed spec fn spec_last_mouse_pos(&self) -> i32 {
        self.last_mouse_pos
    }

    pub closed spec fn spec_dragging(&self) -> bool {
        self.dragging_mouse
    }

    pub closed spec fn spec_last_keypress(&self) -> u32 {
        self.last_keypress_ms
    }

    /// The cursor and both ends of the selection are glyph boundaries of the
    /// text, whose length fits an `i32`.
    pub open spec fn wf(&self) -> bool {
        &&& self.spec_buffer().len() < i32::MAX
        &&& 0 <= self.spec_cursor() <= self.spec_buffer().len()
        &&& 0 <= self.spec_selection().start <= self.spec_buffer().len()
        &&& 0 <= self.spec_selection().end <= self.spec_buffer().len()
        &&& self.spec_mouse_clicks() <= 3
    }

    /// The text, cursor, selection and modified flag.
    pub open spec fn edit(&self) -> EditState {
        EditState {
            buffer: self.spec_buffer(),
            cursor: self.spec_cursor(),
            selection: self.spec_selection(),
            modified: self.spec_modified(),
        }
    }

    /// Everything but the text, cursor, selection and modified flag is equal.
    pub open spec fn same_settings(&self, other: &TextBox) -> bool {
        &&& self.spec_old_cursor() == other.spec_old_cursor()
        &&& self.spec_valid_chars() == other.spec_valid_chars()
        &&& self.spec_length_limit() == other.spec_length_limit()
        &&& self.spec_active() == other.spec_active()
        &&& self.spec_x() == other.spec_x()
        &&& self.spec_y() == other.spec_y()
        &&& self.spec_width() == other.spec_width()
        &&& self.spec_visible_start() == other.spec_visible_start()
        &&& self.spec_mouse_clicks() == other.spec_mouse_clicks()
        &&& self.spec_last_mouse_click() == other.spec_last_mouse_click()
        &&& self.spec_last_mouse_pos() == other.spec_last_mouse_pos()
        &&& self.spec_dragging() == other.spec_dragging()
        &&& self.spec_last_keypress() == other.spec_last_keypress()
    }

    /// The text, cursor, selection and modified flag are equal too.
    pub open spec fn same_edit(&self, other: &TextBox) -> bool {
        &&& self.spec_buffer() == other.spec_buffer()
        &&& self.spec_cursor() == other.spec_cursor()
        &&& self.spec_selection() == other.spec_selection()
        &&& self.spec_modified() == other.spec_modified()
    }

    /// The box after [`TextBox::set_active`].
    pub closed spec fn with_active(self, active: bool, time_ms: u32, select: bool) -> TextBox {
        if self.active == active {
            self
        } else if active && select {
            TextBox {
                active,
                last_keypress_ms: time_ms,
                selection: Selection { start: 0, end: self.buffer@.len() as i32 },
                cursor_pos: self.buffer@.len() as i32,
                ..self
            }
        } else {
            TextBox { active, last_keypress_ms: time_ms, selection: Selection { start: 0, end: 0 }, ..self }
        }
    }

    /// Scrolling depends on the text renderer only through its glyph table.
    pub proof fn lemma_with_scroll_glyphs(self, t1: &TextRenderer, t2: &TextRenderer)
        requires
            t1.spec_glyphs() == t2.spec_glyphs(),
        ensures
            self.with_scroll(t1) == self.with_scroll(t2),
            self.scrolled_visible_start(t1) == self.scrolled_visible_start(t2),
    {
    }

    /// The box after [`TextBox::set_pos`].
    pub closed spec fn with_pos(self, pos: (u16, u16)) -> TextBox {
        TextBox { x: pos.0, y: pos.1, ..self }
    }

    /// The box after [`TextBox::recompute_visible_start_if_needed`].
    pub closed spec fn with_scroll(self, tr: &TextRenderer) -> TextBox {
        TextBox { visible_start: self.scrolled_visible_start(tr) as u16, old_cursor_pos: self.cursor_pos, ..self }
    }

    /// [`TextBox::with_active`] sets the active flag and keeps the text and the
    /// settings; a box already in that state is unchanged; otherwise the
    /// keypress time is reset, and activating with `select` selects the whole
    /// text with the cursor at its end, while any other change clears the
    /// selection and keeps the cursor.
    pub proof fn lemma_with_active(self, active: bool, time_ms: u32, select: bool)
        ensures
            ({
                let r = self.with_active(active, time_ms, select);
                &&& r.spec_active() == active
                &&& r.spec_buffer() == self.spec_buffer()
                &&& r.spec_modified() == self.spec_modified()
                &&& r.spec_valid_chars() == self.spec_valid_chars()
                &&& r.spec_length_limit() == self.spec_length_limit()
                &&& r.spec_x() == self.spec_x()
                &&& r.spec_y() == self.spec_y()
                &&& r.spec_width() == self.spec_width()
                &&& r.spec_visible_start() == self.spec_visible_start()
                &&& r.spec_old_cursor() == self.spec_old_cursor()
                &&& r.spec_mouse_clicks() == self.spec_mouse_clicks()
                &&& r.spec_last_mouse_click() == self.spec_last_mouse_click()
                &&& r.spec_last_mouse_pos() == self.spec_last_mouse_pos()
                &&& r.spec_dragging() == self.spec_dragging()
                &&& self.spec_active() == active ==> r == self
                &&& self.spec_active() != active ==> r.spec_last_keypress() == time_ms
                &&& self.spec_active() != active && active && select ==> {
                    &&& r.spec_cursor() == self.spec_buffer().len() as i32
                    &&& r.spec_selection() == (Selection { start: 0, end: self.spec_buffer().len() as i32 })
                }
                &&& self.spec_active() != active && !(active && select) ==> {
                    &&& r.spec_cursor() == self.spec_cursor()
                    &&& r.spec_selection() == (Selection { start: 0, end: 0 })
                }
            }),
    {
    }

    /// [`TextBox::with_pos`] moves the box to `pos` and changes nothing else.
    pub proof fn lemma_with_pos(self, pos: (u16, u16))
        ensures
            ({
                let r = self.with_pos(pos);
                &&& r.spec_x() == pos.0
                &&& r.spec_y() == pos.1
                &&& r.same_edit(&self)
                &&& r.spec_active() == self.spec_active()
                &&& r.spec_valid_chars() == self.spec_valid_chars()
                &&& r.spec_length_limit() == self.spec_length_limit()
                &&& r.spec_width() == self.spec_width()
                &&& r.spec_visible_start() == self.spec_visible_start()
                &&& r.spec_old_cursor() == self.spec_old_cursor()
                &&& r.spec_mouse_clicks() == self.spec_mouse_clicks()
                &&& r.spec_last_mouse_click() == self.spec_last_mouse_click()
                &&& r.spec_last_mouse_pos() == self.spec_last_mouse_pos()
                &&& r.spec_dragging() == self.spec_dragging()
                &&& r.spec_last_keypress() == self.spec_last_keypress()
            }),
    {
    }

    /// [`TextBox::with_scroll`] sets the view to the scrolled start, records
    /// the cursor as seen, and changes nothing else.
    pub proof fn lemma_with_scroll(self, tr: &TextRenderer)
        ensures
            ({
                let r = self.with_scroll(tr);
                &&& r.spec_visible_start() == self.scrolled_visible_start(tr) as u16
                &&& r.spec_old_cursor() == self.spec_cursor()
                &&& r.same_edit(&self)
                &&& r.spec_active() == self.spec_active()
                &&& r.spec_valid_chars() == self.spec_valid_chars()
                &&& r.spec_length_limit() == self.spec_length_limit()
                &&& r.spec_x() == self.spec_x()
                &&& r.spec_y() == self.spec_y()
                &&& r.spec_width() == self.spec_width()
                &&& r.spec_mouse_clicks() == self.spec_mouse_clicks()
                &&& r.spec_last_mouse_click() == self.spec_last_mouse_click()
                &&& r.spec_last_mouse_pos() == self.spec_last_mouse_pos()
                &&& r.spec_dragging() == self.spec_dragging()
                &&& r.spec_last_keypress() == self.spec_last_keypress()
            }),
    {
    }

    pub fn set_pos(&mut self, pos: (u16, u16))
        ensures
            *final(self) == old(self).with_pos(pos),
            old(self).wf() ==> final(self).wf(),
            final(self).spec_x() == pos.0,
            final(self).spec_y() == pos.1,
            final(self).same_edit(old(self)),
            final(self).spec_old_cursor() == old(self).spec_old_cursor(),
            final(self).spec_valid_chars() == old(self).spec_valid_chars(),
            final(self).spec_length_limit() == old(self).spec_length_limit(),
            final(self).spec_active() == old(self).spec_active(),
            final(self).spec_width() == old(self).spec_width(),
            final(self).spec_visible_start() == old(self).spec_visible_start(),
            final(self).spec_mouse_clicks() == old(self).spec_mouse_clicks(),
            final(self).spec_last_mouse_click() == old(self).spec_last_mouse_click(),
            final(self).spec_last_mouse_pos() == old(self).spec_last_mouse_pos(),
            final(self).spec_dragging() == old(self).spec_dragging(),
            final(self).spec_last_keypress() == old(self).spec_last_keypress(),
    {
        self.x = pos.0;
        self.y = pos.1;
    }

    /// Selects the whole text, with the cursor at its end.
    pub fn select_all(&mut self)
        requires
            old(self).wf(),
        ensures
            final(self).wf(),
            final(self).same_settings(old(self)),
            final(self).edit() == es_select_all(old(self).edit()),
    {
        self.selection.start = 0;
        self.selection.end = self.buffer.len() as i32;
        self.cursor_pos = self.selection.end;
    }

    /// The text.
    pub fn contents(&self) -> (r: &[char])
        ensures
            r@ == self.spec_buffer(),
    {
        self.buffer.as_slice()
    }

    /// Whether the text was edited since the box was reset.
    pub fn modified(&self) -> (r: bool)
        ensures
            r == self.spec_modified(),
    {
        self.modified
    }

    pub fn is_empty(&self) -> (r: bool)
        ensures
            r == (self.spec_buffer().len() == 0),
    {
        self.buffer.len() == 0
    }

    /// The selected text.
    pub fn selection(&self) -> (r: &[char])
        requires
            self.wf(),
        ensures
            r@ == self.spec_buffer().subrange(
                self.spec_selection().spec_sorted().start as int,
                self.spec_selection().spec_sorted().end as int,
            ),
    {
        let sel = self.selection.sorted();
        vstd::slice::slice_subrange(self.buffer.as_slice(), sel.start as usize, sel.end as usize)
    }

    /// What [`TextBox::reset`] does: `self` is the box after, `before` the box
    /// before.
    pub open spec fn reset_from(&self, before: &TextBox) -> bool {
        &&& self.spec_buffer().len() == 0
        &&& self.spec_selection() == (Selection { start: 0, end: 0 })
        &&& self.spec_cursor() == 0
        &&& !self.spec_modified()
        &&& self.spec_visible_start() == 0
        &&& self.spec_old_cursor() == before.spec_old_cursor()
        &&& self.spec_valid_chars() == before.spec_valid_chars()
        &&& self.spec_length_limit() == before.spec_length_limit()
        &&& self.spec_active() == before.spec_active()
        &&& self.spec_x() == before.spec_x()
        &&& self.spec_y() == before.spec_y()
        &&& self.spec_width() == before.spec_width()
        &&& self.spec_mouse_clicks() == before.spec_mouse_clicks()
        &&& self.spec_last_mouse_click() == before.spec_last_mouse_click()
        &&& self.spec_last_mouse_pos() == before.spec_last_mouse_pos()
        &&& self.spec_dragging() == before.spec_dragging()
        &&& self.spec_last_keypress() == before.spec_last_keypress()
    }

    /// Empties the box.
    pub fn reset(&mut self)
        ensures
            final(self).reset_from(old(self)),
    {
        self.buffer.clear();
        self.selection.clear_to(0);
        self.cursor_pos = 0;
        self.modified = false;
        self.visible_start = 0;
    }

    /// Moves the cursor (clamped to the text) and empties the selection there.
    pub fn clear_to(&mut self, cursor_idx: i32)
        requires
            old(self).wf(),
        ensures
            final(self).wf(),
            final(self).same_settings(old(self)),
            final(self).edit() == es_clear_to(old(self).edit(), cursor_idx as int),
    {
        self.cursor_pos = clamp_i32(cursor_idx, self.buffer.len() as i32);
        let c = self.cursor_pos;
        self.selection.clear_to(c);
    }

    /// Selects from `from` to `to` (each clamped to the text); the cursor goes to `to`.
    pub fn select_range(&mut self, from: i32, to: i32)
        requires
            old(self).wf(),
        ensures
            final(self).wf(),
            final(self).same_settings(old(self)),
            final(self).edit() == es_select_range(old(self).edit(), from as int, to as int),
    {
        let len = self.buffer.len() as i32;
        self.selection.start = clamp_i32(from, len);
        self.selection.end = clamp_i32(to, len);
        self.cursor_pos = self.selection.end;
    }

    /// Deletes the selected text, if any; the cursor and an empty selection go
    /// to where it started.
    pub fn erase_selection(&mut self)
        requires
            old(self).wf(),
        ensures
            final(self).wf(),
            final(self).same_settings(old(self)),
            final(self).edit() == es_erase_selection(old(self).edit()),
    {
        let sel = self.selection.sorted();
        if sel.is_empty() {
            return;
        }
        self.cursor_pos = sel.start;
        remove_range(&mut self.buffer, sel.start as usize, sel.end as usize);
        self.selection.clear_to(sel.start);
        self.modified = true;
    }

    /// Where a word-wise move to the left goes.
    pub fn find_left_delim_idx(&self) -> (r: i32)
        requires
            self.wf(),
            left_delim_ok(self.edit()),
        ensures
            r == left_delim(self.edit()),
            0 <= r <= self.spec_buffer().len(),
    {
        if self.cursor_pos == 0 {
            return 0;
        }
        let ghost b = self.buffer@;
        let mut idx: usize = self.selection.end as usize - 1;
        proof {
            lemma_skip_spaces_left_bounds(b, idx as int);
        }
        while self.buffer[idx] == ' '
            invariant
                b == self.buffer@,
                idx < b.len(),
                skip_spaces_left(b, idx as int) == skip_spaces_left(b, self.selection.end - 1),
                skip_spaces_left(b, idx as int) >= 0,
            decreases idx,
        {
            proof {
                assert(skip_spaces_left(b, idx as int) == skip_spaces_left(b, idx as int - 1));
                if idx == 0 {
                    assert(skip_spaces_left(b, -1) == -1);
                }
            }
            idx -= 1;
        }
        proof {
            lemma_word_start_bounds(b, idx as int);
        }
        while idx > 0 && !is_ctrl_sel_stopper(self.buffer[idx - 1])
            invariant
                b == self.buffer@,
                idx < b.len(),
                word_start(b, idx as int) == word_start(b, skip_spaces_left(b, self.selection.end - 1)),
            decreases idx,
        {
            idx -= 1;
        }
        idx as i32
    }

    /// Where a word-wise move to the right goes.
    pub fn find_right_delim_idx(&self) -> (r: i32)
        requires
            self.wf(),
        ensures
            r == right_delim(self.edit()),
            0 <= r <= self.spec_buffer().len(),
    {
        if self.cursor_pos == self.buffer.len() as i32 {
            return self.buffer.len() as i32;
        }
        let ghost b = self.buffer@;
        let mut idx: usize = self.selection.end as usize;
        while idx < self.buffer.len() && self.buffer[idx] == ' '
            invariant
                b == self.buffer@,
                idx <= b.len(),
                b.len() < i32::MAX,
                skip_spaces_right(b, idx as int) == skip_spaces_right(b, self.selection.end as int),
            decreases b.len() - idx,
        {
            idx += 1;
        }
        while idx < self.buffer.len() && !is_ctrl_sel_stopper(self.buffer[idx])
            invariant
                b == self.buffer@,
                idx <= b.len(),
                b.len() < i32::MAX,
                word_end(b, idx as int) == word_end(b, skip_spaces_right(b, self.selection.end as int)),
            decreases b.len() - idx,
        {
            idx += 1;
        }
        idx as i32
    }

    /// Handles a typed character (see [`es_char_input`]).
    pub fn process_char_input(&mut self, c: char, ctrl: bool)
        requires
            old(self).wf(),
            old(self).spec_buffer().len() + 1 < i32::MAX,
            c == BACKSPACE && ctrl && old(self).spec_cursor() != 0 && old(self).spec_selection().start
                == old(self).spec_selection().end ==> left_delim_ok(old(self).edit()),
        ensures
            final(self).wf(),
            final(self).same_settings(old(self)),
            final(self).edit() == es_char_input(
                old(self).edit(),
                c,
                ctrl,
                old(self).spec_valid_chars(),
                old(self).spec_length_limit() as int,
            ),
    {
        if c == BACKSPACE {
            if self.cursor_pos == 0 || !self.selection.is_empty() {
                self.erase_selection();
                return;
            }
            let mut idx: i32 = self.cursor_pos - 1;
            if ctrl {
                idx = self.find_left_delim_idx();
            }
            let cp = self.cursor_pos;
            self.select_range(cp, idx);
            self.erase_selection();
            return;
        }
        if !self.valid_chars.contains(c) {
            return;
        }
        if !self.selection.is_empty() {
            self.erase_selection();
        }
        if self.buffer.len() < self.length_limit {
            let cp = self.cursor_pos as usize;
            self.buffer.insert(cp, c);
            let next = self.cursor_pos + 1;
            self.clear_to(next);
            self.modified = true;
        }
    }

    /// Pastes clipboard text (see [`es_paste`]); nothing happens when the
    /// clipboard could not be read.
    pub fn paste_text(&mut self, clipboard_text: Option<Vec<char>>)
        requires
            old(self).wf(),
            clipboard_text matches Some(t) ==> paste_ok(
                old(self).edit(),
                t@,
                old(self).spec_valid_chars(),
                old(self).spec_length_limit() as int,
            ),
        ensures
            final(self).wf(),
            final(self).same_settings(old(self)),
            final(self).edit() == match clipboard_text {
                Some(t) => es_paste(
                    old(self).edit(),
                    t@,
                    old(self).spec_valid_chars(),
                    old(self).spec_length_limit() as int,
                ),
                None => old(self).edit(),
            },
            old(self).spec_buffer().len() <= old(self).spec_length_limit() && all_valid(
                old(self).spec_buffer(),
                old(self).spec_valid_chars(),
            ) ==> final(self).spec_buffer().len() <= final(self).spec_length_limit() && all_valid(
                final(self).spec_buffer(),
                final(self).spec_valid_chars(),
            ),
    {
        proof {
            if clipboard_text is Some {
                let t = clipboard_text->0;
                if old(self).spec_buffer().len() <= old(self).spec_length_limit() {
                    lemma_paste_limit(old(self).edit(), t@, old(self).spec_valid_chars(), old(self).spec_length_limit() as int);
                    if all_valid(old(self).spec_buffer(), old(self).spec_valid_chars()) {
                        lemma_paste_valid(old(self).edit(), t@, old(self).spec_valid_chars(), old(self).spec_length_limit() as int);
                    }
                }
            }
        }
        if let Some(text) = clipboard_text {
            let ghost valid = self.spec_valid_chars();
            let t = self.retain_valid(text.as_slice());
            let sel = self.selection.sorted();
            let room = self.length_limit - self.buffer.len() + (sel.end - sel.start) as usize;
            let length = if t.len() < room {
                t.len()
            } else {
                room
            };
            let ghost old_buf = self.buffer@;
            let mut nb: Vec<char> = Vec::new();
            let mut i: usize = 0;
            while i < sel.start as usize
                invariant
                    old_buf == self.buffer@,
                    0 <= sel.start <= sel.end <= old_buf.len(),
                    i <= sel.start,
                    nb@ == old_buf.subrange(0, i as int),
                decreases sel.start - i,
            {
                nb.push(self.buffer[i]);
                i += 1;
            }
            let mut k: usize = 0;
            while k < length
                invariant
                    length <= t@.len(),
                    k <= length,
                    nb@ == old_buf.subrange(0, sel.start as int) + t@.take(k as int),
                decreases length - k,
            {
                nb.push(t[k]);
                k += 1;
                assert(t@.take(k as int) == t@.take(k - 1).push(t@[k - 1]));
            }
            let mut j: usize = sel.end as usize;
            while j < self.buffer.len()
                invariant
                    old_buf == self.buffer@,
                    0 <= sel.start <= sel.end <= old_buf.len(),
                    sel.end <= j <= old_buf.len(),
                    nb@ == old_buf.subrange(0, sel.start as int) + t@.take(length as int) + old_buf.subrange(
                        sel.end as int,
                        j as int,
                    ),
                decreases old_buf.len() - j,
            {
                nb.push(self.buffer[j]);
                j += 1;
            }
            self.buffer = nb;
            let pos = sel.start + length as i32;
            self.selection.clear_to(pos);
            self.cursor_pos = self.selection.start;
            self.modified = true;
        }
    }

    /// The characters of `text` that this box accepts, in order.
    pub fn retain_valid(&self, text: &[char]) -> (r: Vec<char>)
        ensures
            r@ == filter_valid(text@, self.spec_valid_chars()),
    {
        let mut out: Vec<char> = Vec::new();
        let mut i: usize = 0;
        while i < text.len()
            invariant
                i <= text@.len(),
                out@ == filter_valid(text@.take(i as int), self.spec_valid_chars()),
            decreases text@.len() - i,
        {
            let c = text[i];
            proof {
                let valid = self.spec_valid_chars();
                reveal_with_fuel(Seq::filter, 1);
                assert(text@.take(i as int + 1).drop_last() =~= text@.take(i as int));
            }
            if self.valid_chars.contains(c) {
                out.push(c);
            }
            i += 1;
        }
        assert(text@.take(text@.len() as int) =~= text@);
        out
    }

    /// The selected text for the clipboard, if the selection is not empty.
    pub fn copy_text(&self) -> (r: Option<Vec<char>>)
        requires
            self.wf(),
        ensures
            self.spec_selection().start == self.spec_selection().end <==> r is None,
            r matches Some(t) ==> t@ == self.spec_buffer().subrange(
                self.spec_selection().spec_sorted().start as int,
                self.spec_selection().spec_sorted().end as int,
            ),
    {
        if !self.selection.is_empty() {
            let sel = self.selection();
            Some(vstd::slice::slice_to_vec(sel))
        } else {
            None
        }
    }

    /// Cuts the selected text for the clipboard, if the selection is not empty.
    pub fn cut_text(&mut self) -> (r: Option<Vec<char>>)
        requires
            old(self).wf(),
        ensures
            final(self).wf(),
            final(self).same_settings(old(self)),
            final(self).edit() == es_erase_selection(old(self).edit()),
            old(self).spec_selection().start == old(self).spec_selection().end <==> r is None,
            r matches Some(t) ==> t@ == old(self).spec_buffer().subrange(
                old(self).spec_selection().spec_sorted().start as int,
                old(self).spec_selection().spec_sorted().end as int,
            ),
    {
        if !self.selection.is_empty() {
            let selected = self.copy_text();
            self.erase_selection();
            selected
        } else {
            None
        }
    }

    /// Selects the word around the cursor (see [`es_select_word`]).
    pub fn select_word(&mut self)
        requires
            old(self).wf(),
            old(self).spec_buffer().len() > 0,
        ensures
            final(self).wf(),
            final(self).same_settings(old(self)),
            final(self).edit() == es_select_word(old(self).edit()),
    {
        let ghost b = self.buffer@;
        let len = self.buffer.len();
        let cursor_pos = if (self.cursor_pos as usize) < len - 1 {
            self.cursor_pos as usize
        } else {
            len - 1
        };
        let mut start = (if cursor_pos > 1 {
            cursor_pos
        } else {
            1
        }) - 1;
        while start > 0 && !is_ctrl_sel_stopper(self.buffer[start])
            invariant
                b == self.buffer@,
                start < b.len(),
                word_back(b, start as int) == word_back(b, (if cursor_pos > 1 { cursor_pos as int } else { 1 }) - 1),
            decreases start,
        {
            start -= 1;
        }
        let mut end = cursor_pos;
        while end < self.buffer.len() && !is_ctrl_sel_stopper(self.buffer[end])
            invariant
                b == self.buffer@,
                cursor_pos <= end <= b.len(),
                b.len() < i32::MAX,
                word_end(b, end as int) == word_end(b, cursor_pos as int),
            decreases b.len() - end,
        {
            end += 1;
        }
        if is_ctrl_sel_stopper(self.buffer[start]) {
            start += 1;
        }
        self.selection.start = start as i32;
        self.selection.end = end as i32;
        self.cursor_pos = end as i32;
    }

    /// The pixel width of the text before the cursor.
    pub open spec fn width_to_cursor(&self, tr: &TextRenderer) -> int {
        3 * width_units(tr.spec_glyphs(), self.spec_buffer().take(self.spec_cursor()))
    }

    /// What [`TextBox::set_width`] does: `self` is the box after, `before` the
    /// box before.
    pub open spec fn width_set(&self, before: &TextBox, width: u16, tr: &TextRenderer) -> bool {
        &&& self.same_edit(before)
        &&& self.spec_width() == width
        &&& self.spec_visible_start() == vstd::math::max(
            before.spec_visible_start() as int,
            vstd::math::max(before.width_to_cursor(tr) - width, 0),
        )
        &&& self.spec_old_cursor() == before.spec_old_cursor()
        &&& self.spec_valid_chars() == before.spec_valid_chars()
        &&& self.spec_length_limit() == before.spec_length_limit()
        &&& self.spec_active() == before.spec_active()
        &&& self.spec_x() == before.spec_x()
        &&& self.spec_y() == before.spec_y()
        &&& self.spec_mouse_clicks() == before.spec_mouse_clicks()
        &&& self.spec_last_mouse_click() == before.spec_last_mouse_click()
        &&& self.spec_last_mouse_pos() == before.spec_last_mouse_pos()
        &&& self.spec_dragging() == before.spec_dragging()
        &&& self.spec_last_keypress() == before.spec_last_keypress()
    }

    /// Changes the width; the view scrolls right if the cursor would be beyond it.
    pub fn set_width(&mut self, width: u16, text_renderer: &TextRenderer)
        requires
            old(self).wf(),
            text_renderer.wf(),
            3 * width_units(text_renderer.spec_glyphs(), old(self).spec_buffer()) <= u16::MAX,
        ensures
            final(self).wf(),
            final(self).width_set(old(self), width, text_renderer),
    {
        self.width = width;
        let end = self.prefix_width(self.cursor_pos as usize, text_renderer);
        let start = end.saturating_sub(self.width);
        if start > self.visible_start {
            self.visible_start = start;
        }
    }

    /// Pixel width of the first `n` characters.
    fn prefix_width(&self, n: usize, text_renderer: &TextRenderer) -> (r: u16)
        requires
            self.wf(),
            text_renderer.wf(),
            n <= self.spec_buffer().len(),
            3 * width_units(text_renderer.spec_glyphs(), self.spec_buffer()) <= u16::MAX,
        ensures
            r == 3 * width_units(text_renderer.spec_glyphs(), self.spec_buffer().take(n as int)),
    {
        proof {
            lemma_width_units_split(text_renderer.spec_glyphs(), self.buffer@, n as int);
        }
        let part = vstd::slice::slice_subrange(self.buffer.as_slice(), 0, n);
        assert(part@ =~= self.buffer@.take(n as int));
        text_renderer.compute_width_chars(part)
    }

    /// Pixel width of the characters from index `a` up to `e`.
    fn range_width(&self, a: usize, e: usize, text_renderer: &TextRenderer) -> (r: u16)
        requires
            self.wf(),
            text_renderer.wf(),
            a <= e <= self.spec_buffer().len(),
            3 * width_units(text_renderer.spec_glyphs(), self.spec_buffer()) <= u16::MAX,
        ensures
            r == 3 * width_units(text_renderer.spec_glyphs(), self.spec_buffer().subrange(a as int, e as int)),
    {
        proof {
            let g = text_renderer.spec_glyphs();
            lemma_width_units_split(g, self.buffer@, e as int);
            lemma_width_units_split(g, self.buffer@.take(e as int), a as int);
            assert(self.buffer@.take(e as int).skip(a as int) =~= self.buffer@.subrange(a as int, e as int));
            lemma_width_units_split(g, self.buffer@.skip(e as int), 0);
        }
        let part = vstd::slice::slice_subrange(self.buffer.as_slice(), a, e);
        assert(part@ =~= self.buffer@.subrange(a as int, e as int));
        text_renderer.compute_width_chars(part)
    }

    /// Pixel width of the characters from index `n` on.
    fn suffix_width(&self, n: usize, text_renderer: &TextRenderer) -> (r: u16)
        requires
            self.wf(),
            text_renderer.wf(),
            n <= self.spec_buffer().len(),
            3 * width_units(text_renderer.spec_glyphs(), self.spec_buffer()) <= u16::MAX,
        ensures
            r == 3 * width_units(text_renderer.spec_glyphs(), self.spec_buffer().skip(n as int)),
    {
        proof {
            lemma_width_units_split(text_renderer.spec_glyphs(), self.buffer@, n as int);
        }
        let part = vstd::slice::slice_subrange(self.buffer.as_slice(), n, self.buffer.len());
        assert(part@ =~= self.buffer@.skip(n as int));
        text_renderer.compute_width_chars(part)
    }

    /// Activates or deactivates the box; on a change the cursor blink restarts,
    /// the selection is emptied at the start, and activating with `select`
    /// selects the whole text.
    pub fn set_active(&mut self, active: bool, time_ms: u32, select: bool)
        requires
            old(self).wf(),
        ensures
            final(self).wf(),
            *final(self) == old(self).with_active(active, time_ms, select),
            final(self).spec_active() == active,
            old(self).spec_active() == active ==> *final(self) == *old(self),
            old(self).spec_active() != active ==> {
                &&& final(self).spec_last_keypress() == time_ms
                &&& final(self).edit() == if active && select {
                    es_select_all(es_clear_to_selection_only(old(self).edit()))
                } else {
                    es_clear_to_selection_only(old(self).edit())
                }
                &&& final(self).spec_old_cursor() == old(self).spec_old_cursor()
                &&& final(self).spec_valid_chars() == old(self).spec_valid_chars()
                &&& final(self).spec_length_limit() == old(self).spec_length_limit()
                &&& final(self).spec_x() == old(self).spec_x()
                &&& final(self).spec_y() == old(self).spec_y()
                &&& final(self).spec_width() == old(self).spec_width()
                &&& final(self).spec_visible_start() == old(self).spec_visible_start()
                &&& final(self).spec_mouse_clicks() == old(self).spec_mouse_clicks()
                &&& final(self).spec_last_mouse_click() == old(self).spec_last_mouse_click()
                &&& final(self).spec_last_mouse_pos() == old(self).spec_last_mouse_pos()
                &&& final(self).spec_dragging() == old(self).spec_dragging()
            },
    {
        if self.active != active {
            self.active = active;
            self.last_keypress_ms = time_ms;
            self.selection.clear_to(0);
            if active && select {
                self.selection.start = 0;
                self.selection.end = self.buffer.len() as i32;
                self.cursor_pos = self.selection.end;
            }
        }
    }

    /// What [`TextBox::set_contents`] does with `text`: `self` is the box after,
    /// `before` the box before.
    pub open spec fn contents_set(&self, before: &TextBox, text: Seq<char>, tr: &TextRenderer) -> bool {
        &&& self.spec_buffer() == filter_valid(text, before.spec_valid_chars())
        &&& self.spec_cursor() == self.spec_buffer().len()
        &&& self.spec_selection() == (Selection { start: 0, end: 0 })
        &&& !self.spec_modified()
        &&& self.spec_visible_start() == vstd::math::max(
            3 * width_units(tr.spec_glyphs(), self.spec_buffer()) - before.spec_width(),
            0,
        )
        &&& self.spec_old_cursor() == before.spec_old_cursor()
        &&& self.spec_valid_chars() == before.spec_valid_chars()
        &&& self.spec_length_limit() == before.spec_length_limit()
        &&& self.spec_active() == before.spec_active()
        &&& self.spec_x() == before.spec_x()
        &&& self.spec_y() == before.spec_y()
        &&& self.spec_width() == before.spec_width()
        &&& self.spec_mouse_clicks() == before.spec_mouse_clicks()
        &&& self.spec_last_mouse_click() == before.spec_last_mouse_click()
        &&& self.spec_last_mouse_pos() == before.spec_last_mouse_pos()
        &&& self.spec_dragging() == before.spec_dragging()
        &&& self.spec_last_keypress() == before.spec_last_keypress()
    }

    /// Whether `text` can be set as the contents: its valid characters fit an
    /// `i32` and their pixel width a `u16`.
    pub open spec fn contents_fit(&self, text: Seq<char>, tr: &TextRenderer) -> bool {
        &&& filter_valid(text, self.spec_valid_chars()).len() < i32::MAX
        &&& 3 * width_units(tr.spec_glyphs(), filter_valid(text, self.spec_valid_chars())) <= u16::MAX
    }

    /// Replaces the text with the valid characters of `text`, unmodified, with
    /// the cursor at the end, scrolled so that the cursor is in view.
    pub fn set_contents(&mut self, text: &[char], text_renderer: &TextRenderer)
        requires
            old(self).wf(),
            text_renderer.wf(),
            old(self).contents_fit(text@, text_renderer),
        ensures
            final(self).wf(),
            final(self).contents_set(old(self), text@, text_renderer),
    {
        self.reset();
        let filtered = self.retain_valid(text);
        self.buffer = filtered;
        self.cursor_pos = self.buffer.len() as i32;
        let end = self.prefix_width(self.buffer.len(), text_renderer);
        assert(self.buffer@.take(self.buffer@.len() as int) =~= self.buffer@);
        let start = end.saturating_sub(self.width);
        if start > self.visible_start {
            self.visible_start = start;
        }
    }

    /// The pixel width of the first `n` characters.
    pub open spec fn text_width_to(&self, tr: &TextRenderer, n: int) -> int {
        3 * width_units(tr.spec_glyphs(), self.spec_buffer().take(n))
    }

    /// The pixel width of the selected characters.
    pub open spec fn selection_width(&self, tr: &TextRenderer) -> int {
        let sel = self.spec_selection().spec_sorted();
        3 * width_units(tr.spec_glyphs(), self.spec_buffer().subrange(sel.start as int, sel.end as int))
    }

    /// The left edge of the selection highlight with the view at `vs`, clipped
    /// to the box.
    pub open spec fn selection_left(&self, tr: &TextRenderer, vs: int) -> int {
        let sel = self.spec_selection().spec_sorted();
        let x0 = self.spec_x() as int;
        clamp_between(sat_sub(x0 + self.text_width_to(tr, sel.start as int), vs), x0, x0 + self.spec_width())
    }

    /// The right edge of the selection with the view at `vs`, not clipped.
    pub open spec fn selection_right(&self, tr: &TextRenderer, vs: int) -> int {
        let sel = self.spec_selection().spec_sorted();
        sat_sub(self.spec_x() + self.text_width_to(tr, sel.start as int) + self.selection_width(tr), vs)
    }

    /// The selection highlight with the view at `vs`: from the selection's
    /// start to its end, clipped to the box, 30 pixels high from 6 below the
    /// text's base.
    pub open spec fn selection_rect(&self, tr: &TextRenderer, vs: int) -> UiRect {
        let x = self.selection_left(tr, vs);
        let w = vstd::math::min(self.spec_x() + self.spec_width() - x, self.selection_right(tr, vs) - x);
        UiRect { x: x as u16, y: (self.spec_y() - 6) as u16, w: w as u16, h: 30, color: 0xA0_C7_F2_FF }
    }

    /// The cursor with the view at `vs`: 2 pixels wide, just left of the
    /// cursor's position.
    pub open spec fn cursor_rect(&self, tr: &TextRenderer, vs: int, color: u32) -> UiRect {
        let x = sat_sub(self.spec_x() + self.text_width_to(tr, self.spec_cursor()) - 2, vs);
        UiRect { x: x as u16, y: (self.spec_y() - 6) as u16, w: 2, h: 30, color }
    }

    /// The rectangles drawn with the view at `vs`: the selection highlight when
    /// something is selected, else the cursor when the box is active and the
    /// cursor is in the shown half of its blink.
    pub open spec fn draw_rects(&self, tr: &TextRenderer, vs: int, time_ms: u32, style: Style) -> Seq<UiRect> {
        let sel = self.spec_selection();
        if sel.start != sel.end {
            seq![self.selection_rect(tr, vs)]
        } else if self.spec_active() && cursor_blink_on(time_ms, self.spec_last_keypress()) {
            seq![self.cursor_rect(tr, vs, style.cursor_color)]
        } else {
            Seq::empty()
        }
    }

    /// The colors of the text: the selected part blue, the rest `text_color`.
    pub open spec fn draw_colors(&self, text_color: TextColor) -> Seq<ColorRange> {
        let sel = self.spec_selection().spec_sorted();
        if sel.start == sel.end {
            seq![ColorRange(text_color, u32::MAX), ColorRange(text_color, u32::MAX), ColorRange(text_color, u32::MAX)]
        } else {
            seq![
                ColorRange(text_color, sel.start as u32),
                ColorRange(TextColor(packed_r6g6b6a3(0x11, 0x11, 0xFF, 0xFF) as u32), (sel.end - sel.start) as u32),
                ColorRange(text_color, u32::MAX),
            ]
        }
    }

    /// The clipping rectangle of the text in a window `window_height` high.
    pub open spec fn clip_area(&self, window_height: u16) -> Rect2D {
        Rect2D {
            offset: Offset2D { x: self.spec_x() as i32, y: (window_height - 30 - self.spec_y() + 5) as i32 },
            extent: Extent2D { width: self.spec_width() as u32, height: 30 },
        }
    }

    /// Whether the box can be drawn, with the view at `vs` after scrolling, in
    /// a window `window_height` high, after `queued` glyph vertices: the text
    /// and the box fit the 16-bit screen coordinates, the box lies below the
    /// window's top, and the selection does not end left of where its
    /// highlight starts.
    pub open spec fn draw_fits(&self, tr: &TextRenderer, queued: int, vs: int, window_height: u16, time_ms: u32) -> bool {
        let x0 = self.spec_x() as int;
        let total = 3 * width_units(tr.spec_glyphs(), self.spec_buffer());
        let sel = self.spec_selection();
        &&& total <= u16::MAX
        &&& self.spec_visible_start() + self.spec_width() <= u16::MAX
        &&& x0 + self.spec_width() <= u16::MAX
        &&& x0 + total <= u16::MAX
        &&& 6 <= self.spec_y() <= u16::MAX - 24
        &&& self.spec_y() + 30 <= window_height
        &&& queued + self.spec_buffer().len() <= u32::MAX
        &&& sel.start != sel.end ==> self.selection_right(tr, vs) >= self.selection_left(tr, vs)
        &&& sel.start == sel.end && self.spec_active() && cursor_blink_on(time_ms, self.spec_last_keypress()) ==> {
            &&& x0 + self.text_width_to(tr, self.spec_cursor()) >= 2
            &&& sat_sub(x0 + self.text_width_to(tr, self.spec_cursor()) - 2, vs) + 2 <= u16::MAX
        }
    }

    /// Whether the box, made active or not (selecting all on activation) and
    /// moved to `pos`, can be drawn after `queued` glyph vertices: the
    /// [`TextBox::draw_fits`] test of that box with its view scrolled for the
    /// last cursor move.
    pub fn placed_draw_fits(
        &self,
        active: bool,
        pos: (u16, u16),
        tr: &TextRenderer,
        queued: u64,
        window_height: u16,
        time_ms: u32,
    ) -> (r: bool)
        requires
            self.wf(),
            tr.wf(),
            queued <= u32::MAX,
        ensures
            r == ({
                let b = self.with_active(active, time_ms, true).with_pos(pos);
                b.draw_fits(tr, queued as int, b.scrolled_visible_start(tr), window_height, time_ms)
            }),
    {
        let ghost a = self.with_active(active, time_ms, true);
        let ghost b = a.with_pos(pos);
        proof {
            self.lemma_with_active(active, time_ms, true);
            a.lemma_with_pos(pos);
        }
        let len = self.buffer.len();
        let cur: usize;
        let s0: i32;
        let s1: i32;
        let act: bool;
        let last: u32;
        if self.active == active {
            cur = self.cursor_pos as usize;
            s0 = self.selection.start;
            s1 = self.selection.end;
            act = self.active;
            last = self.last_keypress_ms;
        } else if active {
            cur = len;
            s0 = 0;
            s1 = len as i32;
            act = true;
            last = time_ms;
        } else {
            cur = self.cursor_pos as usize;
            s0 = 0;
            s1 = 0;
            act = false;
            last = time_ms;
        }
        assert(cur == b.spec_cursor() && s0 == b.spec_selection().start && s1 == b.spec_selection().end);
        assert(act == b.spec_active() && last == b.spec_last_keypress());
        assert(b.spec_buffer() == self.spec_buffer());
        if !tr.width_fits_u16(self.buffer.as_slice()) {
            return false;
        }
        let total = tr.compute_width_chars(self.buffer.as_slice()) as u64;
        let vs0 = self.visible_start as u64;
        let w = self.width as u64;
        let x0 = pos.0 as u64;
        let y = pos.1 as u64;
        if vs0 + w > 65535 || x0 + w > 65535 || x0 + total > 65535 {
            return false;
        }
        if y < 6 || y > 65535 - 24 || y + 30 > window_height as u64 {
            return false;
        }
        if queued + len as u64 > u32::MAX as u64 {
            return false;
        }
        let wtc = self.prefix_width(cur, tr) as u64;
        let vs: u64 = if self.old_cursor_pos as i64 == cur as i64 {
            vs0
        } else if (cur as i64) < self.old_cursor_pos as i64 {
            if vs0 + w > total {
                let t = if total > w { total - w } else { 0 };
                if vs0 < t { vs0 } else { t }
            } else {
                if vs0 < wtc { vs0 } else { wtc }
            }
        } else {
            let t = if wtc > w { wtc - w } else { 0 };
            if vs0 > t { vs0 } else { t }
        };
        assert(vs == b.scrolled_visible_start(tr));
        if s0 != s1 {
            let (sa, se) = if s0 < s1 { (s0 as usize, s1 as usize) } else { (s1 as usize, s0 as usize) };
            let ta = self.prefix_width(sa, tr) as u64;
            let sw = self.range_width(sa, se, tr) as u64;
            let l0: u64 = if x0 + ta > vs { x0 + ta - vs } else { 0 };
            let left: u64 = if l0 < x0 { x0 } else if l0 > x0 + w { x0 + w } else { l0 };
            let right: u64 = if x0 + ta + sw > vs { x0 + ta + sw - vs } else { 0 };
            assert(left == b.selection_left(tr, vs as int));
            assert(right == b.selection_right(tr, vs as int));
            if right < left {
                return false;
            }
        }
        let blink = time_ms < last || (time_ms - last) % 1000 < 500;
        if s0 == s1 && act && blink {
            assert(wtc == b.text_width_to(tr, b.spec_cursor()));
            if x0 + wtc < 2 {
                return false;
            }
            let c: u64 = if x0 + wtc - 2 > vs { x0 + wtc - 2 - vs } else { 0 };
            if c + 2 > 65535 {
                return false;
            }
        }
        true
    }

    /// Where the text starts on screen: the box's left edge moved left by the
    /// scrolled amount, wrapping.
    pub open spec fn draw_x(&self) -> u16 {
        let vs = self.spec_visible_start() as int;
        if self.spec_x() >= vs {
            (self.spec_x() - vs) as u16
        } else {
            (self.spec_x() - vs + 0x1_0000) as u16
        }
    }

    /// The text drawing step of drawing the box with `text_color`.
    pub open spec fn draw_op(&self, window_height: u16, text_color: TextColor) -> TextOp {
        TextOp::Clipped(
            self.spec_buffer(),
            self.draw_x(),
            self.spec_y(),
            self.draw_colors(text_color),
            self.clip_area(window_height),
        )
    }

    /// Drawing the box is its text drawing step.
    pub proof fn lemma_drawn_op(
        &self,
        before: &TextBox,
        ui: &UiRenderer,
        ui_after: &UiRenderer,
        window_height: u16,
        time_ms: u32,
        style: Style,
        r: (u16, u16),
    )
        requires
            self.drawn(before, ui, ui_after, window_height, time_ms, style, r),
        ensures
            ui.spec_text().op_post(ui_after.spec_text(), self.draw_op(window_height, style.text_color)),
    {
    }

    /// What drawing does (see [`TextBox::draw_styled`]): `self` is the box
    /// after, `before` the box before, `ui` and `ui_after` the renderer before
    /// and after, `r` the result.
    pub open spec fn drawn(
        &self,
        before: &TextBox,
        ui: &UiRenderer,
        ui_after: &UiRenderer,
        window_height: u16,
        time_ms: u32,
        style: Style,
        r: (u16, u16),
    ) -> bool {
        let tr = ui.spec_text();
        let vs = self.spec_visible_start() as int;
        let x = self.draw_x();
        &&& self.scrolled_from(before, &tr)
        &&& *self == before.with_scroll(&tr)
        &&& ui_after.wf()
        &&& rects_queued(ui.spec_vertices(), ui_after.spec_vertices(), self.draw_rects(&tr, vs, time_ms, style))
        &&& ui_after.spec_num_verts_to_draw() == ui.spec_num_verts_to_draw()
        &&& tr.clipped_draw_post(
            ui_after.spec_text(),
            self.spec_buffer(),
            x,
            self.spec_y(),
            self.draw_colors(style.text_color),
            self.clip_area(window_height),
            r,
        )
    }

    /// Draws the box in white, with a white cursor; returns the drawn width of
    /// the text and its baseline.
    pub fn draw(&mut self, renderer: &mut UiRenderer, window_height: u16, time_ms: u32) -> (r: (u16, u16))
        requires
            old(self).wf(),
            old(renderer).wf(),
            old(self).draw_fits(
                &old(renderer).spec_text(),
                old(renderer).spec_text().spec_text_buffer().len() as int,
                old(self).scrolled_visible_start(&old(renderer).spec_text()),
                window_height,
                time_ms,
            ),
        ensures
            final(self).wf(),
            final(self).drawn(
                old(self),
                old(renderer),
                final(renderer),
                window_height,
                time_ms,
                Style { cursor_color: 0xFF_FF_FF_FF, text_color: default_text_color() },
                r,
            ),
    {
        self.draw_styled(renderer, window_height, time_ms, Style { cursor_color: 0xFF_FF_FF_FF, text_color: TextColor::default() })
    }

    /// Draws the box: the view is scrolled for the last cursor move, the text
    /// is drawn clipped to the box with the selection highlighted, and the
    /// cursor is drawn while it blinks on; returns the drawn width of the text
    /// and its baseline.
    #[verifier::spinoff_prover]
    #[verifier::rlimit(40)]
    pub fn draw_styled(&mut self, renderer: &mut UiRenderer, window_height: u16, time_ms: u32, style: Style) -> (r: (
        u16,
        u16,
    ))
        requires
            old(self).wf(),
            old(renderer).wf(),
            old(self).draw_fits(
                &old(renderer).spec_text(),
                old(renderer).spec_text().spec_text_buffer().len() as int,
                old(self).scrolled_visible_start(&old(renderer).spec_text()),
                window_height,
                time_ms,
            ),
        ensures
            final(self).wf(),
            final(self).drawn(old(self), old(renderer), final(renderer), window_height, time_ms, style, r),
    {
        let ghost ui0 = *renderer;
        let ghost tr = renderer.spec_text();
        self.recompute_visible_start_if_needed(renderer.text_ref());
        let vs = self.visible_start;
        let x = self.x.wrapping_sub(vs);
        let y = self.y;
        let ghost b = self.buffer@;
        let ghost g = tr.spec_glyphs();
        proof {
            lemma_width_units_split(g, b, self.cursor_pos as int);
        }
        renderer.text().apply_scissors((self.x, window_height - 30 - self.y + 5), (self.width, 30));
        let ghost tr1 = renderer.spec_text();
        let sel = self.selection.sorted();
        let tc = style.text_color;
        let sel_empty = sel.is_empty();
        let colors: [ColorRange; 3] = if !sel_empty {
            [
                ColorRange::new(tc, sel.start as u32),
                ColorRange::from_rgba_n(0x11, 0x11, 0xFF, 0xFF, (sel.end - sel.start) as u32),
                ColorRange::new(tc, u32::MAX),
            ]
        } else {
            [ColorRange::new(tc, u32::MAX), ColorRange::new(tc, u32::MAX), ColorRange::new(tc, u32::MAX)]
        };
        assert(colors@ =~= self.draw_colors(tc));
        let ghost v0 = renderer.spec_vertices();
        if !sel_empty {
            let start = sel.start as usize;
            let end = sel.end as usize;
            proof {
                lemma_width_units_split(g, b, end as int);
                lemma_width_units_split(g, b.take(end as int), start as int);
                assert(b.take(end as int).take(start as int) =~= b.take(start as int));
                assert(b.take(end as int).skip(start as int) =~= b.subrange(start as int, end as int));
            }
            let sel_start_x = renderer.text_ref().compute_width_chars(
                vstd::slice::slice_subrange(self.buffer.as_slice(), 0, start),
            );
            let sel_width = renderer.text_ref().compute_width_chars(
                vstd::slice::slice_subrange(self.buffer.as_slice(), start, end),
            );
            let right = self.x + self.width;
            let left = (self.x + sel_start_x).saturating_sub(vs);
            let xs = if left < self.x {
                self.x
            } else if left > right {
                right
            } else {
                left
            };
            let x2 = (self.x + sel_start_x + sel_width).saturating_sub(vs);
            let w = if right - xs < x2 - xs {
                right - xs
            } else {
                x2 - xs
            };
            renderer.draw_rect_xy_wh((xs, y - 6), (w, 30), 0xA0_C7_F2_FF);
        }
        let ghost v1 = renderer.spec_vertices();
        let mut text_style = crate::renderer::text_renderer::Style::default_style();
        text_style.colors = &colors;
        let cursor_x = renderer.text_ref().compute_width_chars(
            vstd::slice::slice_subrange(self.buffer.as_slice(), 0, self.cursor_pos as usize),
        );
        let res = renderer.text().draw_2d_chars(self.buffer.as_slice(), x, y, text_style);
        let ghost tr2 = renderer.spec_text();
        let blink = time_ms < self.last_keypress_ms || (time_ms - self.last_keypress_ms) % 1000 < 500;
        if sel_empty && self.active && blink {
            renderer.draw_rect_xy_wh(((self.x + cursor_x - 2).saturating_sub(vs), y - 6), (2, 30), style.cursor_color);
        }
        renderer.text().end_scissors();
        proof {
            let v2 = renderer.spec_vertices();
            let rs = self.draw_rects(&tr, vs as int, time_ms, style);
            if !sel_empty {
                assert(rs == seq![self.selection_rect(&tr, vs as int)]);
                assert(v2 == v1);
            } else if self.active && blink {
                lemma_rects_queued_none(v0);
                assert(v1 == v0);
            } else {
                lemma_rects_queued_none(v0);
                assert(v2 == v0);
            }
        }
        res
    }

    /// What [`TextBox::recompute_visible_start_if_needed`] does: `self` is the
    /// box after, `before` the box before.
    pub open spec fn scrolled_from(&self, before: &TextBox, tr: &TextRenderer) -> bool {
        &&& self.same_edit(before)
        &&& self.spec_old_cursor() == before.spec_cursor()
        &&& self.spec_visible_start() == before.scrolled_visible_start(tr)
        &&& self.spec_valid_chars() == before.spec_valid_chars()
        &&& self.spec_length_limit() == before.spec_length_limit()
        &&& self.spec_active() == before.spec_active()
        &&& self.spec_x() == before.spec_x()
        &&& self.spec_y() == before.spec_y()
        &&& self.spec_width() == before.spec_width()
        &&& self.spec_mouse_clicks() == before.spec_mouse_clicks()
        &&& self.spec_last_mouse_click() == before.spec_last_mouse_click()
        &&& self.spec_last_mouse_pos() == before.spec_last_mouse_pos()
        &&& self.spec_dragging() == before.spec_dragging()
        &&& self.spec_last_keypress() == before.spec_last_keypress()
    }

    /// Scrolls the view after the cursor moved: moving left, it scrolls so that
    /// the cursor is in view (or the text's end fills the box); moving right, so
    /// that the cursor is not beyond the right edge.
    pub fn recompute_visible_start_if_needed(&mut self, text_renderer: &TextRenderer)
        requires
            old(self).wf(),
            text_renderer.wf(),
            3 * width_units(text_renderer.spec_glyphs(), old(self).spec_buffer()) <= u16::MAX,
            old(self).spec_visible_start() + old(self).spec_width() <= u16::MAX,
        ensures
            final(self).wf(),
            final(self).scrolled_from(old(self), text_renderer),
            *final(self) == old(self).with_scroll(text_renderer),
    {
        if self.old_cursor_pos != self.cursor_pos {
            let new_pos = self.cursor_pos as usize;
            if self.cursor_pos < self.old_cursor_pos {
                let start = self.prefix_width(new_pos, text_renderer);
                let rem_length = self.suffix_width(new_pos, text_renderer);
                proof {
                    lemma_width_units_split(text_renderer.spec_glyphs(), self.buffer@, new_pos as int);
                }
                let full = start + rem_length;
                if self.visible_start + self.width > full {
                    let v = full.saturating_sub(self.width);
                    if v < self.visible_start {
                        self.visible_start = v;
                    }
                } else {
                    if start < self.visible_start {
                        self.visible_start = start;
                    }
                }
            } else {
                let end = self.prefix_width(new_pos, text_renderer);
                let start = end.saturating_sub(self.width);
                if start > self.visible_start {
                    self.visible_start = start;
                }
            }
            self.old_cursor_pos = self.cursor_pos;
        }
    }

    /// Where the view starts after the cursor moved (see
    /// [`TextBox::recompute_visible_start_if_needed`]).
    pub open spec fn scrolled_visible_start(&self, tr: &TextRenderer) -> int {
        let vs = self.spec_visible_start() as int;
        let w = self.spec_width() as int;
        if self.spec_old_cursor() == self.spec_cursor() {
            vs
        } else if self.spec_cursor() < self.spec_old_cursor() {
            let start = self.width_to_cursor(tr);
            let full = 3 * width_units(tr.spec_glyphs(), self.spec_buffer());
            if vs + w > full {
                vstd::math::min(vs, vstd::math::max(full - w, 0))
            } else {
                vstd::math::min(vs, start)
            }
        } else {
            vstd::math::max(vs, vstd::math::max(self.width_to_cursor(tr) - w, 0))
        }
    }

    /// Whether a left press with `input` is the second click of a double click
    /// on the text: it lands on the box, at the glyph boundary of the last
    /// click, within 300 ms of it, after a single click.
    pub open spec fn press_is_double_click(&self, input: TextBoxInput, tr: &TextRenderer) -> bool {
        let mx = scrolled_mouse_x(input.mouse_x, self.scrolled_visible_start(tr));
        &&& mx >= self.spec_x()
        &&& click_count(
            self.spec_mouse_clicks() as int,
            glyph_idx_at(tr.spec_glyphs(), self.spec_buffer(), mx - self.spec_x()),
            self.spec_last_mouse_pos() as int,
            input.time_ms as int,
            self.spec_last_mouse_click() as int,
        ) == 2
    }

    /// Whether an event can be handled: a word-wise move to the left must be
    /// defined, the text must have room for a typed character, a paste must be
    /// decided with the clipboard's text, a double click needs text to select,
    /// and the mouse needs the text's glyphs to be in the glyph table.
    pub open spec fn event_ok(&self, event: TextBoxEvent, input: TextBoxInput, tr: &TextRenderer) -> bool {
        let s = self.edit();
        let fits = 3 * width_units(tr.spec_glyphs(), self.spec_buffer()) <= u16::MAX
            && self.spec_visible_start() + self.spec_width() <= u16::MAX
            && (forall|i: int| 0 <= i < self.spec_buffer().len() ==> (#[trigger] self.spec_buffer()[i] as u32) < 255);
        match event {
            TextBoxEvent::ReceivedCharacter(c) => {
                &&& self.spec_buffer().len() + 1 < i32::MAX
                &&& (c == BACKSPACE && input.mods.ctrl && s.cursor != 0 && s.selection.start == s.selection.end
                    ==> left_delim_ok(s))
            },
            TextBoxEvent::KeyPressed(key) => (key == keys::LEFT && input.mods.ctrl) ==> left_delim_ok(s),
            TextBoxEvent::LeftMousePressed => {
                &&& fits
                &&& self.spec_buffer().len() == 0 ==> !self.press_is_double_click(input, tr)
            },
            TextBoxEvent::CursorMoved => {
                &&& fits
                &&& input.mouse_y_up >= i32::MIN + 0x1_0000
            },
            _ => true,
        }
    }

    /// Whether `text` can be set as the contents ([`TextBox::contents_fit`]).
    pub fn contents_fit_check(&self, text: &[char], tr: &TextRenderer) -> (r: bool)
        requires
            tr.wf(),
        ensures
            r == self.contents_fit(text@, tr),
    {
        let filtered = self.retain_valid(text);
        filtered.len() < 0x7fff_ffff && tr.width_fits_u16(filtered.as_slice())
    }

    /// Whether the text's screen width fits 16 bits.
    pub fn width_fits(&self, tr: &TextRenderer) -> (r: bool)
        requires
            tr.wf(),
        ensures
            r == (3 * width_units(tr.spec_glyphs(), self.spec_buffer()) <= u16::MAX),
    {
        tr.width_fits_u16(self.buffer.as_slice())
    }

    /// Whether a word-wise move to the left is defined ([`left_delim_ok`]).
    pub fn left_delim_defined(&self) -> (r: bool)
        requires
            self.wf(),
        ensures
            r == left_delim_ok(self.edit()),
    {
        if self.cursor_pos == 0 {
            return true;
        }
        if self.selection.end < 1 {
            return false;
        }
        let ghost b = self.buffer@;
        let mut idx: usize = self.selection.end as usize - 1;
        proof {
            lemma_skip_spaces_left_bounds(b, idx as int);
        }
        while self.buffer[idx] == ' '
            invariant
                b == self.buffer@,
                idx < b.len(),
                self.cursor_pos != 0,
                self.selection.end >= 1,
                skip_spaces_left(b, idx as int) == skip_spaces_left(b, self.selection.end - 1),
            decreases idx,
        {
            assert(skip_spaces_left(b, idx as int) == skip_spaces_left(b, idx as int - 1));
            if idx == 0 {
                assert(skip_spaces_left(b, -1) == -1);
                return false;
            }
            idx -= 1;
        }
        true
    }

    /// Whether every character is below 255.
    fn chars_below_255(&self) -> (r: bool)
        ensures
            r == forall|i: int| 0 <= i < self.spec_buffer().len() ==> (#[trigger] self.spec_buffer()[i] as u32) < 255,
    {
        let mut i: usize = 0;
        while i < self.buffer.len()
            invariant
                i <= self.buffer@.len(),
                forall|j: int| 0 <= j < i ==> (#[trigger] self.buffer@[j] as u32) < 255,
            decreases self.buffer@.len() - i,
        {
            if self.buffer[i] as u32 >= 255 {
                assert((self.spec_buffer()[i as int] as u32) >= 255);
                return false;
            }
            i += 1;
        }
        true
    }

    /// Whether an event can be handled ([`TextBox::event_ok`]), for callers
    /// that must check before handing one over.
    pub fn event_ok_check(&self, event: TextBoxEvent, input: TextBoxInput, tr: &TextRenderer) -> (r: bool)
        requires
            self.wf(),
            tr.wf(),
        ensures
            r == self.event_ok(event, input, tr),
    {
        match event {
            TextBoxEvent::ReceivedCharacter(c) => {
                if self.buffer.len() >= 0x7fff_fffe {
                    return false;
                }
                if c == BACKSPACE && input.mods.ctrl && self.cursor_pos != 0 && self.selection.start
                    == self.selection.end {
                    self.left_delim_defined()
                } else {
                    true
                }
            },
            TextBoxEvent::KeyPressed(key) => {
                if key == keys::LEFT && input.mods.ctrl {
                    self.left_delim_defined()
                } else {
                    true
                }
            },
            TextBoxEvent::LeftMousePressed => {
                self.mouse_fits(tr) && (self.buffer.len() != 0 || !self.empty_press_is_double_click(input, tr))
            },
            TextBoxEvent::CursorMoved => {
                self.mouse_fits(tr) && input.mouse_y_up >= i32::MIN + 0x1_0000
            },
            _ => true,
        }
    }

    /// [`TextBox::press_is_double_click`] for a box with no text.
    fn empty_press_is_double_click(&self, input: TextBoxInput, tr: &TextRenderer) -> (r: bool)
        requires
            self.wf(),
            tr.wf(),
            self.spec_buffer().len() == 0,
        ensures
            r == self.press_is_double_click(input, tr),
    {
        let vs: i64 = if self.old_cursor_pos > self.cursor_pos { 0 } else { self.visible_start as i64 };
        proof {
            assert(vs == self.scrolled_visible_start(tr));
        }
        let m = input.mouse_x as i64 + vs;
        let mx: i64 = if m < 0 { 0 } else if m > 65535 { 65535 } else { m };
        if mx < self.x as i64 {
            return false;
        }
        proof {
            assert(glyph_idx_at(tr.spec_glyphs(), self.spec_buffer(), mx - self.spec_x()) == 0);
        }
        let elapsed: u32 = if input.time_ms > self.last_mouse_click_ms { input.time_ms - self.last_mouse_click_ms } else { 0 };
        self.last_mouse_pos == 0 && elapsed <= 300 && self.mouse_clicks == 1
    }

    /// The part of [`TextBox::event_ok`] that mouse events need.
    fn mouse_fits(&self, tr: &TextRenderer) -> (r: bool)
        requires
            tr.wf(),
        ensures
            r == (3 * width_units(tr.spec_glyphs(), self.spec_buffer()) <= u16::MAX && self.spec_visible_start()
                + self.spec_width() <= u16::MAX && (forall|i: int|
                0 <= i < self.spec_buffer().len() ==> (#[trigger] self.spec_buffer()[i] as u32) < 255)),
    {
        tr.width_fits_u16(self.buffer.as_slice()) && self.visible_start as u32 + self.width as u32 <= 65535
            && self.chars_below_255()
    }

    /// Handles an input event; returns whether it was consumed and what it asks
    /// of the clipboard.
    #[verifier::spinoff_prover]
    #[verifier::rlimit(60)]
    pub fn process_event(&mut self, event: TextBoxEvent, input: TextBoxInput, text_renderer: &TextRenderer) -> (r: (
        bool,
        ClipboardRequest,
    ))
        requires
            old(self).wf(),
            text_renderer.wf(),
            old(self).event_ok(event, input, text_renderer),
        ensures
            final(self).wf(),
            final(self).event_post(old(self), event, input, text_renderer, r),
    {
        match event {
            TextBoxEvent::ReceivedCharacter(c) => {
                self.process_char_input(c, input.mods.ctrl);
                (true, ClipboardRequest::Nothing)
            },
            TextBoxEvent::KeyPressed(key) => {
                let ctrl = input.mods.ctrl;
                let shift = input.mods.shift;
                let mut clip = ClipboardRequest::Nothing;
                if key == keys::C && ctrl {
                    match self.copy_text() {
                        Some(t) => {
                            clip = ClipboardRequest::Write(t);
                        },
                        None => {},
                    }
                } else if key == keys::V && ctrl {
                    clip = ClipboardRequest::ReadForPaste;
                } else if key == keys::X && ctrl {
                    match self.cut_text() {
                        Some(t) => {
                            clip = ClipboardRequest::Write(t);
                        },
                        None => {},
                    }
                } else if key == keys::A && ctrl {
                    self.select_all();
                } else if key == keys::UP && shift {
                    let c = self.cursor_pos;
                    self.select_range(0, c);
                } else if key == keys::DOWN && shift {
                    let c = self.cursor_pos;
                    self.select_range(i32::MAX, c);
                } else if key == keys::UP {
                    self.clear_to(0);
                } else if key == keys::DOWN {
                    self.clear_to(i32::MAX);
                } else if key == keys::LEFT && shift && ctrl {
                    let st = self.selection.start;
                    let to = self.find_left_delim_idx();
                    self.select_range(st, to);
                } else if key == keys::RIGHT && shift && ctrl {
                    let st = self.selection.start;
                    let to = self.find_right_delim_idx();
                    self.select_range(st, to);
                } else if key == keys::LEFT && ctrl {
                    let to = self.find_left_delim_idx();
                    self.clear_to(to);
                } else if key == keys::RIGHT && ctrl {
                    let to = self.find_right_delim_idx();
                    self.clear_to(to);
                } else if key == keys::LEFT && shift {
                    let st = self.selection.start;
                    let e = self.selection.end - 1;
                    self.select_range(st, e);
                } else if key == keys::RIGHT && shift {
                    let st = self.selection.start;
                    let e = self.selection.end + 1;
                    self.select_range(st, e);
                } else if key == keys::LEFT && !self.selection.is_empty() {
                    let to = self.selection.sorted().start;
                    self.clear_to(to);
                } else if key == keys::RIGHT && !self.selection.is_empty() {
                    let to = self.selection.sorted().end;
                    self.clear_to(to);
                } else if key == keys::LEFT {
                    let to = self.cursor_pos - 1;
                    self.clear_to(to);
                } else if key == keys::RIGHT {
                    let to = self.cursor_pos + 1;
                    self.clear_to(to);
                } else if key == keys::D {
                    let to = self.cursor_pos;
                    self.clear_to(to);
                } else {
                    return (false, ClipboardRequest::Nothing);
                }
                self.last_keypress_ms = input.time_ms;
                (true, clip)
            },
            TextBoxEvent::LeftMousePressed => {
                self.recompute_visible_start_if_needed(text_renderer);
                let mouse_x = clamp_u16(input.mouse_x as i64 + self.visible_start as i64);
                if mouse_x >= self.x {
                    let rel_x = mouse_x - self.x;
                    let idx = text_renderer.compute_glyph_idx_at_pos_chars(self.buffer.as_slice(), rel_x);
                    proof {
                        lemma_glyph_idx_bounds(text_renderer.spec_glyphs(), self.buffer@, rel_x as int);
                    }
                    let pos = idx as i32;
                    let since = input.time_ms.saturating_sub(self.last_mouse_click_ms);
                    if pos != self.last_mouse_pos || since > 300 {
                        self.mouse_clicks = 0;
                    }
                    self.cursor_pos = pos;
                    self.selection.clear_to(pos);
                    self.mouse_clicks += 1;
                    self.last_mouse_click_ms = input.time_ms;
                    self.last_mouse_pos = pos;
                    self.dragging_mouse = self.mouse_clicks == 1;
                    if self.mouse_clicks == 2 {
                        self.select_word();
                    } else if self.mouse_clicks == 3 {
                        self.select_all();
                    } else if self.mouse_clicks == 4 {
                        self.mouse_clicks = 1;
                    }
                }
                (true, ClipboardRequest::Nothing)
            },
            TextBoxEvent::LeftMouseReleased => {
                self.dragging_mouse = false;
                (true, ClipboardRequest::Nothing)
            },
            TextBoxEvent::CursorMoved => {
                if self.dragging_mouse {
                    let mouse_x = clamp_u16(input.mouse_x as i64 + self.visible_start as i64);
                    let mouse_y = input.mouse_y_up;
                    if mouse_y - self.y as i32 > 40 {
                        self.selection.end = 0;
                        self.cursor_pos = 0;
                    } else if mouse_y - (self.y as i32) < -40 {
                        self.selection.end = self.buffer.len() as i32;
                        self.cursor_pos = self.selection.end;
                    } else {
                        let rel_x = (if mouse_x > self.x { mouse_x } else { self.x }) - self.x;
                        let idx = text_renderer.compute_glyph_idx_at_pos_chars(self.buffer.as_slice(), rel_x);
                        proof {
                            lemma_glyph_idx_bounds(text_renderer.spec_glyphs(), self.buffer@, rel_x as int);
                        }
                        let pos = idx as i32;
                        self.selection.end = pos;
                        self.cursor_pos = pos;
                    }
                }
                (true, ClipboardRequest::Nothing)
            },
            TextBoxEvent::Other => (false, ClipboardRequest::Nothing),
        }
    }

    /// What handling an event does (see [`TextBox::process_event`]): `self` is
    /// the box after the event, `before` the box before it, `r` the result.
    pub open spec fn event_post(
        &self,
        before: &TextBox,
        event: TextBoxEvent,
        input: TextBoxInput,
        text_renderer: &TextRenderer,
        r: (bool, ClipboardRequest),
    ) -> bool {
            match event {
                TextBoxEvent::ReceivedCharacter(c) => {
                    &&& r == (true, ClipboardRequest::Nothing)
                    &&& self.same_settings(before)
                    &&& self.edit() == es_char_input(
                        before.edit(),
                        c,
                        input.mods.ctrl,
                        before.spec_valid_chars(),
                        before.spec_length_limit() as int,
                    )
                },
                TextBoxEvent::KeyPressed(key) => match es_key(before.edit(), key, input.mods.ctrl, input.mods.shift) {
                    Some(e) => {
                        &&& r.0
                        &&& self.edit() == e
                        &&& self.spec_last_keypress() == input.time_ms
                        &&& self.same_settings_but_keypress(before)
                        &&& before.clipboard_ok(key, input.mods.ctrl, r.1)
                    },
                    None => r == (false, ClipboardRequest::Nothing) && *self == *before,
                },
                TextBoxEvent::LeftMousePressed => r == (true, ClipboardRequest::Nothing) && self.after_press(
                    before,
                    input,
                    text_renderer,
                ),
                TextBoxEvent::LeftMouseReleased => {
                    &&& r == (true, ClipboardRequest::Nothing)
                    &&& !self.spec_dragging()
                    &&& self.same_edit(before)
                    &&& self.same_settings_but_mouse(before)
                    &&& self.spec_mouse_clicks() == before.spec_mouse_clicks()
                    &&& self.spec_last_mouse_click() == before.spec_last_mouse_click()
                    &&& self.spec_last_mouse_pos() == before.spec_last_mouse_pos()
                },
                TextBoxEvent::CursorMoved => r == (true, ClipboardRequest::Nothing) && self.after_drag(
                    before,
                    input,
                    text_renderer,
                ),
                TextBoxEvent::Other => r == (false, ClipboardRequest::Nothing) && *self == *before,
            }
    }

    /// Handling an event never takes a box's text beyond its length limit.
    pub proof fn lemma_event_keeps_limit(
        &self,
        before: &TextBox,
        event: TextBoxEvent,
        input: TextBoxInput,
        tr: &TextRenderer,
        r: (bool, ClipboardRequest),
    )
        requires
            before.wf(),
            before.spec_buffer().len() <= before.spec_length_limit(),
            self.event_post(before, event, input, tr, r),
        ensures
            self.spec_length_limit() == before.spec_length_limit(),
            self.spec_buffer().len() <= self.spec_length_limit(),
    {
        let s = before.edit();
        match event {
            TextBoxEvent::ReceivedCharacter(c) => {
                lemma_char_input_limit(s, c, input.mods.ctrl, before.spec_valid_chars(), before.spec_length_limit() as int);
            },
            TextBoxEvent::KeyPressed(key) => {
                lemma_key_len(s, key, input.mods.ctrl, input.mods.shift);
            },
            _ => {},
        }
    }

    /// Handling an event keeps a box's text valid: if before it the text held
    /// only valid characters and fit the length limit, so does it after.
    pub proof fn lemma_event_keeps_valid_text(
        &self,
        before: &TextBox,
        event: TextBoxEvent,
        input: TextBoxInput,
        tr: &TextRenderer,
        r: (bool, ClipboardRequest),
    )
        requires
            before.wf(),
            before.spec_buffer().len() <= before.spec_length_limit(),
            all_valid(before.spec_buffer(), before.spec_valid_chars()),
            self.event_post(before, event, input, tr, r),
        ensures
            self.spec_length_limit() == before.spec_length_limit(),
            self.spec_valid_chars() == before.spec_valid_chars(),
            self.spec_buffer().len() <= self.spec_length_limit(),
            all_valid(self.spec_buffer(), self.spec_valid_chars()),
    {
        self.lemma_event_keeps_limit(before, event, input, tr, r);
        let s = before.edit();
        match event {
            TextBoxEvent::ReceivedCharacter(c) => {
                lemma_char_input_valid(s, c, input.mods.ctrl, before.spec_valid_chars(), before.spec_length_limit() as int);
            },
            TextBoxEvent::KeyPressed(key) => {
                lemma_erase_valid(s, before.spec_valid_chars());
            },
            _ => {},
        }
    }

    /// Typing: with nothing selected, a valid character is inserted at the
    /// cursor, which moves past it, unless the text is at its length limit;
    /// an invalid character changes nothing; backspace (without ctrl) deletes
    /// the character before the cursor; with text selected, backspace deletes
    /// the selection and the cursor goes to where it began.
    pub proof fn lemma_typing(
        &self,
        before: &TextBox,
        c: char,
        input: TextBoxInput,
        tr: &TextRenderer,
        r: (bool, ClipboardRequest),
    )
        requires
            before.wf(),
            self.event_post(before, TextBoxEvent::ReceivedCharacter(c), input, tr, r),
        ensures
            r.0,
            ({
                let b = before.spec_buffer();
                let cur = before.spec_cursor();
                let sel = before.spec_selection();
                let lo = if sel.start < sel.end { sel.start as int } else { sel.end as int };
                let hi = if sel.start < sel.end { sel.end as int } else { sel.start as int };
                let valid = before.spec_valid_chars();
                &&& c != BACKSPACE && valid.contains(c) && sel.start == sel.end && b.len() < before.spec_length_limit()
                    ==> self.spec_buffer() == b.insert(cur, c) && self.spec_cursor() == cur + 1
                &&& c != BACKSPACE && valid.contains(c) && sel.start == sel.end && b.len()
                    >= before.spec_length_limit() ==> self.spec_buffer() == b && self.spec_cursor() == cur
                &&& c != BACKSPACE && !valid.contains(c) ==> self.spec_buffer() == b && self.spec_cursor() == cur
                &&& c == BACKSPACE && !input.mods.ctrl && sel.start == sel.end && cur > 0 ==> self.spec_buffer()
                    == b.remove(cur - 1) && self.spec_cursor() == cur - 1
                &&& c == BACKSPACE && sel.start != sel.end ==> self.spec_buffer() == b.subrange(0, lo) + b.subrange(
                    hi,
                    b.len() as int,
                ) && self.spec_cursor() == lo
            }),
    {
        let b = before.spec_buffer();
        let cur = before.spec_cursor();
        if c == BACKSPACE && !input.mods.ctrl && before.spec_selection().start == before.spec_selection().end && cur > 0 {
            assert(b.subrange(0, cur - 1) + b.subrange(cur, b.len() as int) =~= b.remove(cur - 1));
        }
        if c != BACKSPACE && before.spec_valid_chars().contains(c) && before.spec_selection().start
            == before.spec_selection().end && b.len() < before.spec_length_limit() {
            assert(cur + 1 <= b.insert(cur, c).len());
        }
    }

    /// The other editing keys: up and down (without shift) move the cursor to
    /// the start and the end of the text; shift with left or right moves the
    /// selection's moving end by one character, keeping where it started;
    /// ctrl+A selects the whole text with the cursor at its end; ctrl+C copies
    /// the selection, ctrl+X cuts it (deleting it from the text), and ctrl+V
    /// asks for the clipboard's text, leaving the text as it is.
    pub proof fn lemma_editing_keys(
        &self,
        before: &TextBox,
        key: Key,
        input: TextBoxInput,
        tr: &TextRenderer,
        r: (bool, ClipboardRequest),
    )
        requires
            before.wf(),
            self.event_post(before, TextBoxEvent::KeyPressed(key), input, tr, r),
        ensures
            ({
                let b = before.spec_buffer();
                let len = b.len() as int;
                let sel = before.spec_selection();
                let lo = if sel.start < sel.end { sel.start as int } else { sel.end as int };
                let hi = if sel.start < sel.end { sel.end as int } else { sel.start as int };
                let ctrl = input.mods.ctrl;
                let shift = input.mods.shift;
                &&& key == keys::UP && !shift ==> self.spec_cursor() == 0 && self.spec_buffer() == b
                    && self.spec_selection().start == 0 && self.spec_selection().end == 0
                &&& key == keys::DOWN && !shift ==> self.spec_cursor() == len && self.spec_buffer() == b
                    && self.spec_selection().start == len && self.spec_selection().end == len
                &&& key == keys::RIGHT && shift && !ctrl ==> {
                    let e = if sel.end < len { sel.end + 1 } else { len };
                    &&& self.spec_buffer() == b
                    &&& self.spec_selection().start == sel.start
                    &&& self.spec_selection().end == e
                    &&& self.spec_cursor() == e
                }
                &&& key == keys::LEFT && shift && !ctrl ==> {
                    let e = if sel.end > 0 { sel.end - 1 } else { 0 };
                    &&& self.spec_buffer() == b
                    &&& self.spec_selection().start == sel.start
                    &&& self.spec_selection().end == e
                    &&& self.spec_cursor() == e
                }
                &&& key == keys::A && ctrl ==> self.spec_buffer() == b && self.spec_cursor() == len
                    && self.spec_selection().start == 0 && self.spec_selection().end == len
                &&& key == keys::C && ctrl ==> self.spec_buffer() == b && self.spec_cursor() == before.spec_cursor()
                    && (sel.start != sel.end ==> r.1 == ClipboardRequest::Write(r.1->Write_0) && (r.1->Write_0)@
                    == b.subrange(lo, hi))
                &&& key == keys::X && ctrl && sel.start != sel.end ==> {
                    &&& self.spec_buffer() == b.subrange(0, lo) + b.subrange(hi, len)
                    &&& self.spec_cursor() == lo
                    &&& r.1 is Write
                    &&& (r.1->Write_0)@ == b.subrange(lo, hi)
                }
                &&& key == keys::V && ctrl ==> self.spec_buffer() == b && r.1 == ClipboardRequest::ReadForPaste
            }),
    {
    }

    /// The plain arrow keys move the cursor one character and drop the
    /// selection: right moves to the next character boundary (staying at the
    /// end of the text), left to the previous one (staying at its start); with
    /// text selected, right goes to the selection's end and left to its start.
    /// The text is untouched and the key is consumed.
    pub proof fn lemma_arrow_keys(
        &self,
        before: &TextBox,
        key: Key,
        input: TextBoxInput,
        tr: &TextRenderer,
        r: (bool, ClipboardRequest),
    )
        requires
            before.wf(),
            key == keys::RIGHT || key == keys::LEFT,
            !input.mods.ctrl,
            !input.mods.shift,
            self.event_post(before, TextBoxEvent::KeyPressed(key), input, tr, r),
        ensures
            r.0,
            self.spec_buffer() == before.spec_buffer(),
            ({
                let c = before.spec_cursor();
                let len = before.spec_buffer().len() as int;
                let sel = before.spec_selection();
                let lo = if sel.start < sel.end { sel.start as int } else { sel.end as int };
                let hi = if sel.start < sel.end { sel.end as int } else { sel.start as int };
                &&& key == keys::RIGHT && sel.start == sel.end ==> self.spec_cursor() == if c < len { c + 1 } else { len }
                &&& key == keys::LEFT && sel.start == sel.end ==> self.spec_cursor() == if c > 0 { c - 1 } else { 0 }
                &&& key == keys::RIGHT && sel.start != sel.end ==> self.spec_cursor() == hi
                &&& key == keys::LEFT && sel.start != sel.end ==> self.spec_cursor() == lo
            }),
            self.spec_selection().start == self.spec_cursor(),
            self.spec_selection().end == self.spec_cursor(),
    {
    }

    /// What a handled key asks of the clipboard: ctrl+C and ctrl+X write a
    /// non-empty selection, ctrl+V reads, other keys ask nothing.
    pub open spec fn clipboard_ok(&self, key: Key, ctrl: bool, r: ClipboardRequest) -> bool {
        let sel = self.spec_selection();
        let sorted = sel.spec_sorted();
        if key == keys::C && ctrl || key == keys::X && ctrl {
            if sel.start == sel.end {
                r == ClipboardRequest::Nothing
            } else {
                r matches ClipboardRequest::Write(t) && t@ == self.spec_buffer().subrange(
                    sorted.start as int,
                    sorted.end as int,
                )
            }
        } else if key == keys::V && ctrl {
            r == ClipboardRequest::ReadForPaste
        } else {
            r == ClipboardRequest::Nothing
        }
    }

    /// The state after a left click, given the state before it: the view is
    /// scrolled for the last cursor move, then a click right of the box's start
    /// puts the cursor at the nearest glyph boundary; a second click there
    /// within 300 ms selects the word, a third the whole text, and a fourth
    /// counts as a first again. Only a first click starts a drag.
    pub open spec fn after_press(&self, before: &TextBox, input: TextBoxInput, tr: &TextRenderer) -> bool {
        let vs = before.scrolled_visible_start(tr);
        let mx = scrolled_mouse_x(input.mouse_x, vs);
        &&& self.spec_visible_start() == vs
        &&& self.spec_old_cursor() == before.spec_cursor()
        &&& self.spec_valid_chars() == before.spec_valid_chars()
        &&& self.spec_length_limit() == before.spec_length_limit()
        &&& self.spec_active() == before.spec_active()
        &&& self.spec_x() == before.spec_x()
        &&& self.spec_y() == before.spec_y()
        &&& self.spec_width() == before.spec_width()
        &&& self.spec_last_keypress() == before.spec_last_keypress()
        &&& if mx < before.spec_x() {
            &&& self.same_edit(before)
            &&& self.spec_mouse_clicks() == before.spec_mouse_clicks()
            &&& self.spec_last_mouse_click() == before.spec_last_mouse_click()
            &&& self.spec_last_mouse_pos() == before.spec_last_mouse_pos()
            &&& self.spec_dragging() == before.spec_dragging()
        } else {
            let pos = glyph_idx_at(tr.spec_glyphs(), before.spec_buffer(), mx - before.spec_x());
            let clicks = click_count(
                before.spec_mouse_clicks() as int,
                pos,
                before.spec_last_mouse_pos() as int,
                input.time_ms as int,
                before.spec_last_mouse_click() as int,
            );
            let e0 = es_clear_to(before.edit(), pos);
            &&& self.edit() == if clicks == 2 {
                es_select_word(e0)
            } else if clicks == 3 {
                es_select_all(e0)
            } else {
                e0
            }
            &&& self.spec_mouse_clicks() == if clicks == 4 { 1 } else { clicks }
            &&& self.spec_dragging() == (clicks == 1)
            &&& self.spec_last_mouse_click() == input.time_ms
            &&& self.spec_last_mouse_pos() == pos
        }
    }

    /// The state after the cursor moved, given the state before: while dragging,
    /// the selection's end and the cursor follow the mouse, to the text's start
    /// when the mouse is more than 40 pixels above the box and to its end when
    /// more than 40 pixels below.
    pub open spec fn after_drag(&self, before: &TextBox, input: TextBoxInput, tr: &TextRenderer) -> bool {
        if !before.spec_dragging() {
            *self == *before
        } else {
            let mx = scrolled_mouse_x(input.mouse_x, before.spec_visible_start() as int);
            let dy = input.mouse_y_up - before.spec_y();
            let len = before.spec_buffer().len() as int;
            let pos = if dy > 40 {
                0
            } else if dy < -40 {
                len
            } else {
                glyph_idx_at(
                    tr.spec_glyphs(),
                    before.spec_buffer(),
                    (if mx > before.spec_x() { mx } else { before.spec_x() as int }) - before.spec_x(),
                )
            };
            &&& self.same_settings(before)
            &&& self.spec_buffer() == before.spec_buffer()
            &&& self.spec_modified() == before.spec_modified()
            &&& self.spec_cursor() == pos
            &&& self.spec_selection() == (Selection { start: before.spec_selection().start, end: pos as i32 })
        }
    }

    /// Everything but the last key press time is as in `other`.
    pub open spec fn same_settings_but_keypress(&self, other: &TextBox) -> bool {
        &&& self.same_settings_but_mouse(other)
        &&& self.spec_mouse_clicks() == other.spec_mouse_clicks()
        &&& self.spec_last_mouse_click() == other.spec_last_mouse_click()
        &&& self.spec_last_mouse_pos() == other.spec_last_mouse_pos()
        &&& self.spec_dragging() == other.spec_dragging()
    }

    /// The settings unrelated to the mouse and to key presses are as in `other`.
    pub open spec fn same_settings_but_mouse(&self, other: &TextBox) -> bool {
        &&& self.spec_old_cursor() == other.spec_old_cursor()
        &&& self.spec_valid_chars() == other.spec_valid_chars()
        &&& self.spec_length_limit() == other.spec_length_limit()
        &&& self.spec_active() == other.spec_active()
        &&& self.spec_x() == other.spec_x()
        &&& self.spec_y() == other.spec_y()
        &&& self.spec_width() == other.spec_width()
        &&& self.spec_visible_start() == other.spec_visible_start()
    }
}

/// `v` clamped to the range of `u16`.
fn clamp_u16(v: i64) -> (r: u16)
    ensures
        r == if v < 0 {
            0
        } else if v > u16::MAX {
            u16::MAX as int
        } else {
            v as int
        },
{
    if v < 0 {
        0
    } else if v > 65535 {
        65535
    } else {
        v as u16
    }
}

/// Scanning left past spaces stops at a valid index or at -1.
proof fn lemma_skip_spaces_left_bounds(b: Seq<char>, idx: int)
    requires
        -1 <= idx < b.len(),
    ensures
        -1 <= skip_spaces_left(b, idx) <= idx,
        skip_spaces_left(b, idx) >= 0 ==> b[skip_spaces_left(b, idx)] != ' ',
    decreases idx + 1,
{
    if idx >= 0 && b[idx] == ' ' {
        lemma_skip_spaces_left_bounds(b, idx - 1);
    }
}

/// Scanning left to a word start stays between 0 and the start index.
proof fn lemma_word_start_bounds(b: Seq<char>, idx: int)
    requires
        0 <= idx,
    ensures
        0 <= word_start(b, idx) <= idx,
    decreases idx,
{
    if idx > 0 && !is_stopper(b[idx - 1]) {
        lemma_word_start_bounds(b, idx - 1);
    }
}

/// Removes `v[start..end]`.
pub fn remove_range(v: &mut Vec<char>, start: usize, end: usize)
    requires
        start <= end <= old(v)@.len(),
    ensures
        final(v)@ == old(v)@.subrange(0, start as int) + old(v)@.subrange(end as int, old(v)@.len() as int),
{
    let ghost orig = v@;
    let mut out: Vec<char> = Vec::with_capacity(v.len() - (end - start));
    let mut i: usize = 0;
    while i < v.len()
        invariant
            v@ == orig,
            start <= end <= orig.len(),
            i <= orig.len(),
            out@ == orig.subrange(0, if i < start { i as int } else { start as int }) + if i <= end {
                Seq::<char>::empty()
            } else {
                orig.subrange(end as int, i as int)
            },
        decreases orig.len() - i,
    {
        if i < start || i >= end {
            out.push(v[i]);
        }
        i += 1;
        proof {
            if i <= start {
                assert(out@ =~= orig.subrange(0, i as int));
            } else if i <= end {
                assert(out@ =~= orig.subrange(0, start as int));
            } else {
                assert(out@ =~= orig.subrange(0, start as int) + orig.subrange(end as int, i as int));
            }
        }
    }
    *v = out;
}

} // verus!
