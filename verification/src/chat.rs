//! The in-game chat: the history of received messages, the input line, and
//! browsing one's own earlier messages.

use vstd::prelude::*;
use crate::renderer::text_renderer::{
    packed_r6g6b6a3, rgba_bytes, TextColor, TextRenderer, Linebreaks, linebreak_list, width_units, linebreaks,
    linebreak_state, text_lines, char_at_byte, lemma_text_line_bounds, lemma_linebreaks_shape, ColorRange, TextOp,
    ops_post, lemma_ops_push, lemma_ops_none, lemma_ops_concat, Style, Align, GlyphData,
};
use crate::renderer::ui_renderer::{UiRenderer, UiRect, rects_queued, lemma_rects_queued_concat, lemma_rects_queued_none};
use crate::text::{byte_offset, str_slice};
use crate::text_box::Style as BoxStyle;
use crate::text_box::{
    TextBox, TextBoxBuilder, TextBoxEvent, TextBoxInput, ClipboardRequest, sat_sub, filter_valid, es_paste,
    lemma_paste_limit,
};
use crate::input::keys;

verus! {

/// Number of slots of the chat history ring.
pub const HISTORY_SLOTS: usize = 256;

/// A received chat message.
pub struct ChatEntry {
    pub contents: String,
    pub color: TextColor,
    pub time_received_ms: u32,
    /// The width the line breaks were computed for (`u16::MAX`: not yet).
    pub linebreak_width_px: u16,
    /// Byte offsets at which the lines end.
    pub linebreaks: Linebreaks,
}

/// The most recent chat messages, newest first from `head`, in a ring of 256
/// slots whose slot just before `head` is always empty.
pub struct ChatHistory {
    entries: Vec<Option<ChatEntry>>,
    head: usize,
}

/// The number of filled slots from `head + i` on, going forward around the ring.
pub open spec fn run_len(entries: Seq<Option<ChatEntry>>, head: int, i: int) -> int
    decreases 256 - i,
{
    if i >= 256 || i < 0 || entries[(head + i) % 256] is None {
        i
    } else {
        run_len(entries, head, i + 1)
    }
}

impl ChatHistory {
    pub closed spec fn spec_entries(&self) -> Seq<Option<ChatEntry>> {
        self.entries@
    }

    pub closed spec fn spec_head(&self) -> int {
        self.head as int
    }

    /// 256 slots, `head` is one, and the slot before it is empty.
    pub open spec fn wf(&self) -> bool {
        &&& self.spec_entries().len() == HISTORY_SLOTS
        &&& 0 <= self.spec_head() < 256
        &&& self.spec_entries()[(self.spec_head() + 255) % 256] is None
    }

    /// The messages, newest first: the filled slots from `head` on.
    pub open spec fn view(&self) -> Seq<ChatEntry> {
        let n = run_len(self.spec_entries(), self.spec_head(), 0);
        Seq::new(n as nat, |i: int| self.spec_entries()[(self.spec_head() + i) % 256]->Some_0)
    }

    /// The history holds at most 255 messages: the slot before the newest is
    /// always empty.
    pub proof fn lemma_at_most_255(&self)
        requires
            self.wf(),
        ensures
            self.view().len() <= 255,
    {
        let n = run_len(self.spec_entries(), self.spec_head(), 0);
        lemma_run_len_exact(self.spec_entries(), self.spec_head(), n);
        if n == 256 {
            assert(self.spec_entries()[(self.spec_head() + 255) % 256] is Some);
        }
    }

    /// An empty history.
    pub fn new() -> (r: Self)
        ensures
            r.wf(),
            r.view().len() == 0,
            forall|i: int| 0 <= i < 256 ==> #[trigger] r.spec_entries()[i] is None,
    {
        let mut entries: Vec<Option<ChatEntry>> = Vec::new();
        let mut i: usize = 0;
        while i < HISTORY_SLOTS
            invariant
                i <= HISTORY_SLOTS,
                entries@.len() == i,
                forall|j: int| 0 <= j < i ==> #[trigger] entries@[j] is None,
            decreases HISTORY_SLOTS - i,
        {
            entries.push(None);
            i += 1;
        }
        let r = Self { entries, head: 0 };
        assert(r.entries@[0] is None);
        r
    }

    /// The message at position `i` (0 is the newest), or `None` just past the
    /// oldest one.
    #[verifier::spinoff_prover]
    #[verifier::rlimit(40)]
    pub fn entry_at(&self, i: usize) -> (r: Option<&ChatEntry>)
        requires
            self.wf(),
            i <= self.view().len(),
        ensures
            i < self.view().len() ==> r == Some(&self.view()[i as int]),
            i == self.view().len() ==> r is None,
    {
        proof {
            self.lemma_at_most_255();
            lemma_run_len_bounds(self.entries@, self.head as int, 0);
            lemma_run_len_exact(self.entries@, self.head as int, run_len(self.entries@, self.head as int, 0));
        }
        let idx = (self.head + i) % HISTORY_SLOTS;
        match &self.entries[idx] {
            Some(e) => Some(e),
            None => None,
        }
    }

    /// Makes sure the line breaks of message `i` are the ones for `max_w`
    /// pixels: when they were computed for another width they are computed
    /// anew. Returns them.
    #[verifier::spinoff_prover]
    #[verifier::rlimit(40)]
    pub fn refresh_linebreaks(&mut self, i: usize, tr: &TextRenderer, max_w: u16) -> (r: Vec<u16>)
        requires
            old(self).wf(),
            tr.wf(),
            i < old(self).view().len(),
            old(self).view()[i as int].linebreak_width_px != max_w ==> {
                &&& linebreak_state(
                    tr.spec_glyphs(),
                    old(self).view()[i as int].contents@,
                    max_w as int,
                    old(self).view()[i as int].contents@.len() as int,
                ).fits
                &&& old(self).view()[i as int].contents@.len() < 0x1000_0000
            },
        ensures
            final(self).wf(),
            final(self).view().len() == old(self).view().len(),
            forall|j: int| 0 <= j < old(self).view().len() && j != i ==> #[trigger] final(self).view()[j] == old(self).view()[j],
            final(self).view()[i as int].contents == old(self).view()[i as int].contents,
            final(self).view()[i as int].color == old(self).view()[i as int].color,
            final(self).view()[i as int].time_received_ms == old(self).view()[i as int].time_received_ms,
            final(self).view()[i as int].linebreak_width_px == max_w,
            linebreak_list(final(self).view()[i as int].linebreaks) == if old(self).view()[i as int].linebreak_width_px
                == max_w {
                linebreak_list(old(self).view()[i as int].linebreaks)
            } else {
                linebreaks(tr.spec_glyphs(), old(self).view()[i as int].contents@, max_w as int)
            },
            r@ == linebreak_list(final(self).view()[i as int].linebreaks),
    {
        let ghost old_e = self.entries@;
        let ghost h = self.head as int;
        let ghost n = self.view().len() as int;
        proof {
            self.lemma_at_most_255();
            lemma_run_len_bounds(old_e, h, 0);
            lemma_run_len_exact(old_e, h, n);
        }
        let idx = (self.head + i) % HISTORY_SLOTS;
        let r = match &mut self.entries[idx] {
            Some(entry) => {
                if entry.linebreak_width_px != max_w {
                    entry.linebreak_width_px = max_w;
                    entry.linebreaks = tr.compute_linebreaks(entry.contents.as_str(), max_w);
                }
                entry.linebreaks.to_vec()
            },
            None => Vec::new(),
        };
        proof {
            let e = self.entries@;
            assert forall|j: int| 0 <= j < n implies #[trigger] e[(h + j) % 256] is Some by {
                assert(old_e[(h + j) % 256] is Some);
            }
            if n < 256 {
                assert(e[(h + n) % 256] is None) by {
                    assert(old_e[(h + n) % 256] is None);
                    if (h + n) % 256 == idx {
                        assert((h + i) % 256 != (h + n) % 256) by {
                            assert(0 <= i < n < 256);
                        }
                    }
                }
            }
            lemma_run_len_of(e, h, n);
            assert(e[(h + 255) % 256] is None) by {
                assert(old_e[(h + 255) % 256] is None);
                assert((h + i) % 256 != (h + 255) % 256) by {
                    assert(0 <= i < n <= 255);
                }
            }
            assert forall|j: int| 0 <= j < n && j != i implies #[trigger] self.view()[j] == old(self).view()[j] by {
                assert((h + j) % 256 != (h + i) % 256) by {
                    assert(0 <= j < 256 && 0 <= i < 256);
                }
            }
        }
        r
    }

    /// Adds a message as the newest; the oldest one is dropped when 255 are held.
    #[verifier::spinoff_prover]
    #[verifier::rlimit(40)]
    pub fn add_entry(&mut self, entry: ChatEntry)
        requires
            old(self).wf(),
        ensures
            final(self).wf(),
            final(self).view() == seq![entry] + if old(self).view().len() < 255 {
                old(self).view()
            } else {
                old(self).view().take(254)
            },
            final(self).spec_head() == (old(self).spec_head() + 255) % 256,
            final(self).spec_entries()[final(self).spec_head()] == Some(entry),
            final(self).spec_entries()[(final(self).spec_head() + 255) % 256] is None,
            forall|i: int|
                0 <= i < 256 && i != final(self).spec_head() && i != (final(self).spec_head() + 255) % 256
                    ==> #[trigger] final(self).spec_entries()[i] == old(self).spec_entries()[i],
    {
        let ghost old_e = self.entries@;
        let ghost h = self.head as int;
        proof {
            lemma_run_len_bounds(old_e, h, 0);
        }
        self.head = (self.head + 255) % HISTORY_SLOTS;
        let hd = self.head;
        self.entries.set(hd, Some(entry));
        self.entries.set((hd + 255) % HISTORY_SLOTS, None);
        proof {
            let e = self.entries@;
            let h2 = hd as int;
            let n = run_len(old_e, h, 0);
            let m = if n < 255 { n } else { 254 };
            assert forall|i: int| 1 <= i <= 254 implies #[trigger] e[(h2 + i) % 256] == old_e[(h + i - 1) % 256] by {
                assert((h2 + i) % 256 == (h + i - 1) % 256);
            }
            lemma_run_len_exact(old_e, h, n);
            assert(e[h2] is Some);
            assert forall|i: int| 0 <= i < m + 1 implies #[trigger] e[(h2 + i) % 256] is Some by {
                if i > 0 {
                    assert(e[(h2 + i) % 256] == old_e[(h + i - 1) % 256]);
                    let k = i - 1;
                    assert(0 <= k < n);
                    assert(old_e[(h + k) % 256] is Some);
                    assert(h + k == h + i - 1);
                } else {
                    assert((h2 + i) % 256 == h2);
                }
            }
            if m + 1 < 256 {
                if n < 255 {
                    assert(e[(h2 + n + 1) % 256] == old_e[(h + n) % 256]);
                } else {
                    assert((h2 + 255) % 256 == (h2 + m + 1) % 256);
                }
            }
            lemma_run_len_of(e, h2, m + 1);
            let v = Seq::new((m + 1) as nat, |i: int| e[(h2 + i) % 256]->Some_0);
            let ov = old(self).view();
            let expected = seq![entry] + if n < 255 { ov } else { ov.take(254) };
            assert(v =~= expected) by {
                assert forall|i: int| 0 <= i < m + 1 implies v[i] == expected[i] by {
                    if i > 0 {
                        assert(e[(h2 + i) % 256] == old_e[(h + i - 1) % 256]);
                    }
                }
            }
        }
    }
}

/// A run length is between its start and 256.
proof fn lemma_run_len_bounds(entries: Seq<Option<ChatEntry>>, head: int, i: int)
    requires
        0 <= i <= 256,
    ensures
        i <= run_len(entries, head, i) <= 256,
    decreases 256 - i,
{
    if i < 256 && entries[(head + i) % 256] is Some {
        lemma_run_len_bounds(entries, head, i + 1);
    }
}

/// The run from 0 has length `n`: the first `n` slots are filled and, below
/// 256, slot `n` is empty.
proof fn lemma_run_len_exact(entries: Seq<Option<ChatEntry>>, head: int, n: int)
    requires
        n == run_len(entries, head, 0),
    ensures
        0 <= n <= 256,
        forall|i: int| 0 <= i < n ==> #[trigger] entries[(head + i) % 256] is Some,
        n < 256 ==> entries[(head + n) % 256] is None,
{
    lemma_run_len_bounds(entries, head, 0);
    lemma_run_len_prefix(entries, head, 0);
}

proof fn lemma_run_len_prefix(entries: Seq<Option<ChatEntry>>, head: int, i: int)
    requires
        0 <= i <= 256,
    ensures
        forall|j: int| i <= j < run_len(entries, head, i) ==> #[trigger] entries[(head + j) % 256] is Some,
        run_len(entries, head, i) < 256 ==> entries[(head + run_len(entries, head, i)) % 256] is None,
    decreases 256 - i,
{
    if i < 256 && entries[(head + i) % 256] is Some {
        lemma_run_len_prefix(entries, head, i + 1);
    }
}

/// When the first `n` slots are filled and slot `n` (below 256) is empty, the
/// run from 0 has length `n`.
proof fn lemma_run_len_of(entries: Seq<Option<ChatEntry>>, head: int, n: int)
    requires
        0 <= n <= 256,
        forall|i: int| 0 <= i < n ==> #[trigger] entries[(head + i) % 256] is Some,
        n < 256 ==> entries[(head + n) % 256] is None,
    ensures
        run_len(entries, head, 0) == n,
{
    lemma_run_len_from(entries, head, n, 0);
}

proof fn lemma_run_len_from(entries: Seq<Option<ChatEntry>>, head: int, n: int, i: int)
    requires
        0 <= i <= n <= 256,
        forall|j: int| 0 <= j < n ==> #[trigger] entries[(head + j) % 256] is Some,
        n < 256 ==> entries[(head + n) % 256] is None,
    ensures
        run_len(entries, head, i) == n,
    decreases n - i,
{
    if i < n {
        assert(entries[(head + i) % 256] is Some);
        lemma_run_len_from(entries, head, n, i + 1);
    }
}

/// `s` without its leading spaces.
pub open spec fn trim_start(s: Seq<char>) -> Seq<char>
    decreases s.len(),
{
    if s.len() > 0 && s[0] == ' ' {
        trim_start(s.drop_first())
    } else {
        s
    }
}

/// `s` without its trailing spaces.
pub open spec fn trim_end(s: Seq<char>) -> Seq<char>
    decreases s.len(),
{
    if s.len() > 0 && s.last() == ' ' {
        trim_end(s.drop_last())
    } else {
        s
    }
}

/// `s` without its leading and trailing spaces.
pub open spec fn trimmed(s: Seq<char>) -> Seq<char> {
    trim_end(trim_start(s))
}

/// The message without leading and trailing spaces.
pub fn trim_message(msg: &[char]) -> (r: &[char])
    ensures
        r@ == trimmed(msg@),
{
    let ghost s = msg@;
    let mut a: usize = 0;
    assert(s.subrange(0, s.len() as int) =~= s);
    while a < msg.len() && msg[a] == ' '
        invariant
            a <= msg@.len(),
            s == msg@,
            trim_start(s) == trim_start(s.subrange(a as int, s.len() as int)),
        decreases msg@.len() - a,
    {
        assert(s.subrange(a as int, s.len() as int).drop_first() =~= s.subrange(a + 1, s.len() as int));
        a += 1;
    }
    assert(trim_start(s) == s.subrange(a as int, s.len() as int));
    let mut b: usize = msg.len();
    while b > a && msg[b - 1] == ' '
        invariant
            a <= b <= msg@.len(),
            s == msg@,
            trimmed(s) == trim_end(s.subrange(a as int, b as int)),
        decreases b,
    {
        assert(s.subrange(a as int, b as int).drop_last() =~= s.subrange(a as int, b - 1));
        b -= 1;
    }
    vstd::slice::slice_subrange(msg, a, b)
}

/// `trim_start` drops exactly the leading spaces: it is the suffix from index
/// `a`, everything before `a` is a space, and the character at `a` is not.
proof fn lemma_trim_start_index(s: Seq<char>) -> (a: int)
    ensures
        0 <= a <= s.len(),
        trim_start(s) == s.subrange(a, s.len() as int),
        forall|i: int| 0 <= i < a ==> s[i] == ' ',
        a < s.len() ==> s[a] != ' ',
    decreases s.len(),
{
    if s.len() > 0 && s[0] == ' ' {
        let a1 = lemma_trim_start_index(s.drop_first());
        assert(s.drop_first().subrange(a1, s.drop_first().len() as int) =~= s.subrange(a1 + 1, s.len() as int));
        assert forall|i: int| 0 <= i < a1 + 1 implies s[i] == ' ' by {
            if i > 0 {
                assert(s[i] == s.drop_first()[i - 1]);
            }
        }
        a1 + 1
    } else {
        assert(s.subrange(0, s.len() as int) =~= s);
        0
    }
}

/// `trim_end` drops exactly the trailing spaces: it is the prefix up to index
/// `b`, everything from `b` on is a space, and the character before `b` is not.
proof fn lemma_trim_end_index(s: Seq<char>) -> (b: int)
    ensures
        0 <= b <= s.len(),
        trim_end(s) == s.subrange(0, b),
        forall|i: int| b <= i < s.len() ==> s[i] == ' ',
        b > 0 ==> s[b - 1] != ' ',
    decreases s.len(),
{
    if s.len() > 0 && s.last() == ' ' {
        let b1 = lemma_trim_end_index(s.drop_last());
        assert(s.drop_last().subrange(0, b1) =~= s.subrange(0, b1));
        assert forall|i: int| b1 <= i < s.len() implies s[i] == ' ' by {
            if i < s.len() - 1 {
                assert(s[i] == s.drop_last()[i]);
            }
        }
        b1
    } else {
        assert(s.subrange(0, s.len() as int) =~= s);
        s.len() as int
    }
}

/// Trimming keeps a contiguous part of the message, drops only spaces around
/// it, and leaves no space at either end.
pub proof fn lemma_trimmed_shape(s: Seq<char>)
    ensures
        exists|a: int, b: int|
            0 <= a <= b <= s.len() && trimmed(s) == s.subrange(a, b) && (forall|i: int|
                0 <= i < a ==> s[i] == ' ') && (forall|i: int| b <= i < s.len() ==> s[i] == ' '),
        trimmed(s).len() > 0 ==> trimmed(s)[0] != ' ' && trimmed(s).last() != ' ',
{
    let a = lemma_trim_start_index(s);
    let t = trim_start(s);
    let b = lemma_trim_end_index(t);
    assert(t.subrange(0, b) =~= s.subrange(a, a + b));
    assert forall|i: int| a + b <= i < s.len() implies s[i] == ' ' by {
        assert(s[i] == t[i - a]);
    }
    assert(trimmed(s) == s.subrange(a, a + b));
    if trimmed(s).len() > 0 {
        assert(trimmed(s)[0] == t[0]);
    }
}

/// Trimming never lengthens a message.
pub proof fn lemma_trimmed_len(s: Seq<char>)
    ensures
        trimmed(s).len() <= s.len(),
{
    let a = lemma_trim_start_index(s);
    let b = lemma_trim_end_index(trim_start(s));
}

/// Trimming twice is trimming once.
pub proof fn lemma_trimmed_idempotent(s: Seq<char>)
    ensures
        trimmed(trimmed(s)) == trimmed(s),
{
    lemma_trimmed_shape(s);
    let t = trimmed(s);
    if t.len() > 0 {
        assert(trim_start(t) == t);
        assert(trim_end(t) == t);
    } else {
        assert(trim_start(t) == t);
        assert(trim_end(t) == t);
    }
}

/// The text drawing steps of a message's lines, in one color, at x = 16: the
/// first line with its base at `y_top`, each next one 30 pixels lower.
pub open spec fn entry_line_ops(lines: Seq<Seq<char>>, y_top: int, color: TextColor) -> Seq<TextOp> {
    Seq::new(
        lines.len(),
        |j: int| TextOp::Plain(lines[j], 16, (y_top - 30 * j) as u16, seq![ColorRange(color, u32::MAX)]),
    )
}

/// Draws the lines of a message cut at `breaks` (byte offsets, as computed for
/// it), the first with its base at `y_top`, each next one 30 pixels lower.
fn draw_entry_lines(
    ui: &mut UiRenderer,
    contents: &str,
    breaks: &[u16],
    color: TextColor,
    y_top: u16,
    Ghost(max_w): Ghost<int>,
)
    requires
        old(ui).wf(),
        breaks@ == linebreaks(old(ui).spec_text().spec_glyphs(), contents@, max_w),
        byte_offset(contents@, contents@.len() as int) <= u16::MAX,
        30 * breaks@.len() <= y_top,
        old(ui).spec_text().spec_text_buffer().len() + contents@.len() <= u32::MAX,
    ensures
        final(ui).wf(),
        final(ui).spec_vertices() == old(ui).spec_vertices(),
        final(ui).spec_num_verts_to_draw() == old(ui).spec_num_verts_to_draw(),
        final(ui).spec_text().spec_glyphs() == old(ui).spec_text().spec_glyphs(),
        final(ui).spec_text().spec_text_buffer().len() <= old(ui).spec_text().spec_text_buffer().len()
            + contents@.len(),
        ops_post(
            old(ui).spec_text(),
            final(ui).spec_text(),
            entry_line_ops(text_lines(old(ui).spec_text().spec_glyphs(), contents@, max_w), y_top as int, color),
        ),
{
    let ghost t0 = ui.spec_text();
    let ghost g = t0.spec_glyphs();
    let ghost msg = contents@;
    let ghost bs = breaks@;
    let ghost lines = text_lines(g, msg, max_w);
    let ghost ops = entry_line_ops(lines, y_top as int, color);
    proof {
        lemma_ops_none(t0);
        lemma_linebreaks_shape(g, msg, max_w);
        assert(char_at_byte(msg, 0) == 0) by {
            assert(byte_offset(msg, 0) == 0);
            crate::text::lemma_byte_offset_injective(msg, char_at_byte(msg, 0), 0);
        }
        assert(ops.take(0) =~= Seq::<TextOp>::empty());
    }
    let mut prev: usize = 0;
    let mut line_y: u16 = y_top;
    let mut k: usize = 0;
    while k < breaks.len()
        invariant
            breaks@ == bs,
            bs == linebreaks(g, msg, max_w),
            lines == text_lines(g, msg, max_w),
            ops == entry_line_ops(lines, y_top as int, color),
            msg == contents@,
            g == t0.spec_glyphs(),
            byte_offset(msg, msg.len() as int) <= u16::MAX,
            30 * bs.len() <= y_top,
            t0.spec_text_buffer().len() + msg.len() <= u32::MAX,
            k <= bs.len(),
            line_y == y_top - 30 * k,
            prev == if k == 0 { 0 } else { bs[k - 1] as int },
            0 <= char_at_byte(msg, prev as int) <= msg.len(),
            byte_offset(msg, char_at_byte(msg, prev as int)) == prev,
            ui.wf(),
            ui.spec_text().spec_glyphs() == g,
            ui.spec_text().spec_text_buffer().len() <= t0.spec_text_buffer().len() + char_at_byte(msg, prev as int),
            ui.spec_vertices() == old(ui).spec_vertices(),
            ui.spec_num_verts_to_draw() == old(ui).spec_num_verts_to_draw(),
            ops_post(t0, ui.spec_text(), ops.take(k as int)),
        decreases bs.len() - k,
    {
        let ghost cur = ui.spec_text();
        proof {
            lemma_text_line_bounds(g, msg, max_w, k as int);
        }
        let ghost a = char_at_byte(msg, prev as int);
        let ghost b = char_at_byte(msg, bs[k as int] as int);
        let lb = breaks[k] as usize;
        let line = str_slice(contents, prev, lb);
        assert(line@ == lines[k as int]);
        let colors = [ColorRange::new(color, u32::MAX)];
        let mut style = Style::default_style();
        style.colors = &colors;
        assert(style.colors@ =~= seq![ColorRange(color, u32::MAX)]);
        let pos = ui.text().draw_2d(line, 16, line_y, style);
        proof {
            let next = ui.spec_text();
            let op = ops[k as int];
            assert(op == TextOp::Plain(line@, 16, line_y, seq![ColorRange(color, u32::MAX)]));
            if line@.len() > 0 {
                cur.lemma_plain_op(next, line@, 16, line_y, style, pos);
            }
            lemma_ops_push(t0, cur, next, ops.take(k as int), op);
            assert(ops.take(k as int).push(op) =~= ops.take(k as int + 1));
            cur.lemma_op_growth(next, op);
        }
        prev = lb;
        k += 1;
        line_y -= 30;
    }
    assert(ops.take(k as int) =~= ops);
}

/// Whether a message is hidden for its age: only while the chat is closed,
/// once more than ten seconds old.
pub open spec fn expired(e: ChatEntry, open: bool, time_ms: u32) -> bool {
    !open && time_ms > e.time_received_ms && time_ms - e.time_received_ms > 10_000
}

/// The lines a message is drawn in at `max_w` pixels: none while its breaks
/// were never computed and `max_w` is the "not computed" width, else its
/// lines broken to that width.
pub open spec fn entry_lines(glyphs: Seq<GlyphData>, e: ChatEntry, max_w: u16) -> Seq<Seq<char>> {
    if e.linebreak_width_px == max_w && linebreak_list(e.linebreaks).len() == 0 {
        Seq::empty()
    } else {
        text_lines(glyphs, e.contents@, max_w as int)
    }
}

/// A message's cached line breaks are not computed yet, or are the ones for
/// its recorded width.
pub open spec fn cache_ok(glyphs: Seq<GlyphData>, e: ChatEntry) -> bool {
    ||| e.linebreak_width_px == u16::MAX && linebreak_list(e.linebreaks).len() == 0
    ||| linebreak_list(e.linebreaks) == linebreaks(glyphs, e.contents@, e.linebreak_width_px as int)
}

/// Drawing the history stops at the oldest message, once the lines reach 793
/// pixels, or at a message hidden for its age.
pub open spec fn chat_stops(es: Seq<ChatEntry>, open: bool, time_ms: u32, y: int) -> bool {
    es.len() == 0 || y >= 793 || expired(es[0], open, time_ms)
}

/// How many messages are drawn, newest first, above `y`.
pub open spec fn chat_shown(glyphs: Seq<GlyphData>, es: Seq<ChatEntry>, max_w: u16, open: bool, time_ms: u32, y: int) -> nat
    decreases es.len(),
{
    if chat_stops(es, open, time_ms, y) {
        0
    } else {
        1 + chat_shown(glyphs, es.drop_first(), max_w, open, time_ms, y + 30 * entry_lines(glyphs, es[0], max_w).len())
    }
}

/// How many lines are drawn.
pub open spec fn chat_line_total(glyphs: Seq<GlyphData>, es: Seq<ChatEntry>, max_w: u16, open: bool, time_ms: u32, y: int) -> int
    decreases es.len(),
{
    if chat_stops(es, open, time_ms, y) {
        0
    } else {
        let n = entry_lines(glyphs, es[0], max_w).len() as int;
        n + chat_line_total(glyphs, es.drop_first(), max_w, open, time_ms, y + 30 * n)
    }
}

/// The text drawing steps of the history: each message's lines stacked above
/// the previous message's, 30 pixels apart, the newest lowest.
pub open spec fn chat_ops(glyphs: Seq<GlyphData>, es: Seq<ChatEntry>, max_w: u16, open: bool, time_ms: u32, y: int) -> Seq<TextOp>
    decreases es.len(),
{
    if chat_stops(es, open, time_ms, y) {
        Seq::empty()
    } else {
        let lines = entry_lines(glyphs, es[0], max_w);
        let y2 = y + 30 * lines.len();
        entry_line_ops(lines, y2, es[0].color) + chat_ops(glyphs, es.drop_first(), max_w, open, time_ms, y2)
    }
}

/// Whether the history can be drawn after `queued` glyph vertices: each drawn
/// message's bytes fit `u16`, its line breaks can be computed, its lines stay
/// below the 16-bit top, and the glyph queue has room for it.
pub open spec fn chat_draw_ok(
    glyphs: Seq<GlyphData>,
    es: Seq<ChatEntry>,
    max_w: u16,
    open: bool,
    time_ms: u32,
    y: int,
    queued: int,
) -> bool
    decreases es.len(),
{
    if chat_stops(es, open, time_ms, y) {
        true
    } else {
        let c = es[0].contents@;
        let n = entry_lines(glyphs, es[0], max_w).len() as int;
        &&& byte_offset(c, c.len() as int) <= u16::MAX
        &&& es[0].linebreak_width_px != max_w ==> linebreak_state(glyphs, c, max_w as int, c.len() as int).fits
        &&& y + 30 * n <= u16::MAX
        &&& queued + c.len() <= u32::MAX
        &&& chat_draw_ok(glyphs, es.drop_first(), max_w, open, time_ms, y + 30 * n, queued + c.len())
    }
}

/// The width messages are broken to in a window `win_w` pixels wide: 40% of
/// it, at least 384 (truncated to 16 bits).
pub open spec fn chat_max_width(win_w: u32) -> u16 {
    vstd::math::max(win_w * 4 / 10, 384) as u16
}

/// The style the input line is drawn in: white.
pub open spec fn input_line_style() -> BoxStyle {
    BoxStyle { cursor_color: 0xFF_FF_FF_FF, text_color: crate::renderer::text_renderer::default_text_color() }
}

/// How the cursor is to be held after the chat opened or closed.
#[derive(Clone, Copy, PartialEq, Eq, Structural, Debug)]
pub enum CursorGrab {
    /// Confined to the window, hidden, and moved to its center.
    Confined,
    /// Free and visible, moved to the window's center.
    Free,
}

/// An event the chat handles.
#[derive(Clone, Copy, PartialEq, Eq, Structural, Debug)]
pub enum ChatEvent {
    /// The window's new width in pixels.
    Resized(u32),
    /// Keyboard or mouse input.
    Input(TextBoxEvent),
}

/// What handling an event asks of the caller.
pub struct ChatResponse {
    /// Whether the event was consumed.
    pub consumed: bool,
    /// What the text box asks of the clipboard.
    pub clipboard: ClipboardRequest,
    /// A message to send; if sending fails, call [`Chat::report_send_failure`].
    pub send: Option<Vec<char>>,
    /// How to hold the cursor, when the chat closed.
    pub cursor: Option<CursorGrab>,
}

/// The chat: received messages, the input line, and one's own sent messages,
/// which the up and down keys bring back into the input line.
pub struct Chat {
    history: ChatHistory,
    own_messages: Vec<Vec<char>>,
    chat_open: bool,
    text_box: TextBox,
    message_browser_idx: Option<usize>,
}

/// The color of a message that failed to send.
pub open spec fn failure_color() -> u32 {
    0xFF_00_00_FFu32
}

impl Chat {
    pub closed spec fn spec_history(&self) -> ChatHistory {
        self.history
    }

    pub closed spec fn spec_own_messages(&self) -> Seq<Seq<char>> {
        self.own_messages@.map_values(|m: Vec<char>| m@)
    }

    pub closed spec fn spec_open(&self) -> bool {
        self.chat_open
    }

    pub closed spec fn spec_text_box(&self) -> TextBox {
        self.text_box
    }

    pub closed spec fn spec_browser_idx(&self) -> Option<usize> {
        self.message_browser_idx
    }

    /// The history and the text box are well formed, the input line and every
    /// own message hold at most 500 characters, and the browsed message index
    /// is at most the number of own messages.
    pub open spec fn wf(&self) -> bool {
        &&& self.spec_history().wf()
        &&& self.spec_text_box().wf()
        &&& self.spec_text_box().spec_length_limit() == 500
        &&& self.spec_text_box().spec_buffer().len() <= 500
        &&& forall|i: int| 0 <= i < self.spec_own_messages().len() ==> #[trigger] self.spec_own_messages()[i].len() <= 500
        &&& match self.spec_browser_idx() {
            Some(i) => i <= self.spec_own_messages().len(),
            None => true,
        }
    }

    /// A closed chat with nothing in it; the input line starts at (10, 12), is
    /// 20 pixels narrower than the window and holds at most 500 characters.
    pub fn new(win_width: u16) -> (r: Self)
        requires
            win_width >= 20,
        ensures
            r.wf(),
            r.spec_history().view().len() == 0,
            r.spec_own_messages().len() == 0,
            !r.spec_open(),
            r.spec_browser_idx() is None,
            r.spec_text_box().spec_buffer().len() == 0,
            r.spec_text_box().spec_length_limit() == 500,
            r.spec_text_box().spec_width() == win_width - 20,
            (r.spec_text_box().spec_x(), r.spec_text_box().spec_y()) == (10u16, 12u16),
    {
        let text_box = TextBoxBuilder::new_at(10, 12).with_length_limit(500).with_width(win_width - 20).build();
        let r = Self {
            history: ChatHistory::new(),
            own_messages: Vec::new(),
            chat_open: false,
            text_box,
            message_browser_idx: None,
        };
        assert(r.spec_own_messages() =~= Seq::<Seq<char>>::empty());
        r
    }

    /// Adds a received message as the newest, its line breaks not yet computed.
    pub fn add_chat_entry(&mut self, message: String, color: TextColor, time_received_ms: u32)
        requires
            old(self).wf(),
        ensures
            final(self).wf(),
            final(self).spec_history().view().len() > 0,
            final(self).spec_history().view()[0].contents@ == message@,
            final(self).spec_history().view()[0].color == color,
            final(self).spec_history().view()[0].time_received_ms == time_received_ms,
            final(self).spec_history().view()[0].linebreak_width_px == u16::MAX,
            linebreak_list(final(self).spec_history().view()[0].linebreaks).len() == 0,
            final(self).spec_history().view().skip(1) == if old(self).spec_history().view().len() < 255 {
                old(self).spec_history().view()
            } else {
                old(self).spec_history().view().take(254)
            },
            final(self).spec_own_messages() == old(self).spec_own_messages(),
            final(self).spec_open() == old(self).spec_open(),
            final(self).spec_text_box() == old(self).spec_text_box(),
            final(self).spec_browser_idx() == old(self).spec_browser_idx(),
    {
        let entry = ChatEntry {
            contents: message,
            color,
            time_received_ms,
            linebreak_width_px: u16::MAX,
            linebreaks: Linebreaks::new(),
        };
        let ghost e = entry;
        self.history.add_entry(entry);
        proof {
            let v = self.history.view();
            assert(v[0] == e);
            let ov = old(self).history.view();
            let rest = if ov.len() < 255 { ov } else { ov.take(254) };
            assert(v == seq![e] + rest);
            assert(v.skip(1) =~= rest);
            assert(self.spec_own_messages() == old(self).spec_own_messages());
        }
    }

    /// Tells the chat that sending a message failed: a red notice is added.
    pub fn report_send_failure(&mut self, time_ms: u32)
        requires
            old(self).wf(),
        ensures
            final(self).wf(),
            final(self).spec_history().view().len() > 0,
            final(self).spec_history().view()[0].contents@ == "Failed to send message"@,
            final(self).spec_history().view()[0].color.0 == packed_r6g6b6a3(
                rgba_bytes(failure_color()).0,
                rgba_bytes(failure_color()).1,
                rgba_bytes(failure_color()).2,
                rgba_bytes(failure_color()).3,
            ),
            final(self).spec_history().view()[0].time_received_ms == time_ms,
            final(self).spec_history().view().skip(1) == if old(self).spec_history().view().len() < 255 {
                old(self).spec_history().view()
            } else {
                old(self).spec_history().view().take(254)
            },
            final(self).spec_own_messages() == old(self).spec_own_messages(),
            final(self).spec_open() == old(self).spec_open(),
            final(self).spec_text_box() == old(self).spec_text_box(),
            final(self).spec_browser_idx() == old(self).spec_browser_idx(),
    {
        let text = "Failed to send message".to_owned();
        self.add_chat_entry(text, TextColor::from_rgba32(0xFF_00_00_FF), time_ms);
    }

    /// Opens or closes the chat; closing empties the input line and stops
    /// browsing. Returns how to hold the cursor now.
    pub fn toggle_open(&mut self) -> (r: CursorGrab)
        requires
            old(self).wf(),
        ensures
            final(self).wf(),
            final(self).spec_open() == !old(self).spec_open(),
            final(self).spec_history() == old(self).spec_history(),
            final(self).spec_own_messages() == old(self).spec_own_messages(),
            old(self).spec_open() ==> {
                &&& r == CursorGrab::Confined
                &&& final(self).spec_text_box().reset_from(&old(self).spec_text_box())
                &&& final(self).spec_browser_idx() is None
            },
            !old(self).spec_open() ==> {
                &&& r == CursorGrab::Free
                &&& final(self).spec_text_box() == old(self).spec_text_box()
                &&& final(self).spec_browser_idx() == old(self).spec_browser_idx()
            },
    {
        assert(self.spec_own_messages() == old(self).spec_own_messages());
        if self.chat_open {
            self.chat_open = false;
            self.text_box.reset();
            self.message_browser_idx = None;
            CursorGrab::Confined
        } else {
            self.chat_open = true;
            CursorGrab::Free
        }
    }

    pub fn is_open(&self) -> (r: bool)
        ensures
            r == self.spec_open(),
    {
        self.chat_open
    }

    /// A browsing key: up or down, while there are own messages and the input
    /// line is unmodified or empty.
    pub open spec fn browses(&self, e: TextBoxEvent) -> bool {
        &&& (e == TextBoxEvent::KeyPressed(keys::DOWN) || e == TextBoxEvent::KeyPressed(keys::UP))
        &&& self.spec_own_messages().len() > 0
        &&& (!self.spec_text_box().spec_modified() || self.spec_text_box().spec_buffer().len() == 0)
    }

    /// The own message a browsing key moves to: down goes to the next one (or
    /// past the last), up to the previous one, or to the last when not yet
    /// browsing; down while not browsing moves nowhere.
    pub open spec fn browse_target(&self, e: TextBoxEvent) -> Option<int> {
        let n = self.spec_own_messages().len() as int;
        if e == TextBoxEvent::KeyPressed(keys::DOWN) {
            match self.spec_browser_idx() {
                Some(i) => Some(vstd::math::min(i + 1, n)),
                None => None,
            }
        } else {
            match self.spec_browser_idx() {
                Some(i) => Some(sat_sub(i as int, 1)),
                None => Some(n - 1),
            }
        }
    }

    /// Own message `i`, or nothing past the last one.
    pub open spec fn browse_text(&self, i: int) -> Seq<char> {
        if i == self.spec_own_messages().len() {
            Seq::empty()
        } else {
            self.spec_own_messages()[i]
        }
    }

    /// Whether an event can be handled: the text the input line gets must fit
    /// it, and an event passed on must suit the text box.
    pub open spec fn event_ok(&self, event: ChatEvent, input: TextBoxInput, tr: &TextRenderer) -> bool {
        let tb = self.spec_text_box();
        !self.spec_open() || match event {
            ChatEvent::Resized(_) => 3 * width_units(tr.spec_glyphs(), tb.spec_buffer()) <= u16::MAX,
            ChatEvent::Input(e) => if self.browses(e) {
                match self.browse_target(e) {
                    Some(i) => tb.contents_fit(self.browse_text(i), tr),
                    None => true,
                }
            } else if e == TextBoxEvent::KeyPressed(keys::RETURN) {
                true
            } else {
                tb.event_ok(e, input, tr)
            },
        }
    }

    /// Browsing one's own sent messages while the chat is open: down from
    /// message `i` moves to message `i + 1` and shows it (or, from the last
    /// one, empties the input line); up moves to the previous message (staying
    /// at the first) and shows it, or, when not browsing yet, to the newest
    /// one; down when not browsing changes nothing. The line shows the message's
    /// characters that the input line accepts. Nothing is sent and the own
    /// messages are kept.
    pub proof fn lemma_browse_keys(
        &self,
        before: &Chat,
        e: TextBoxEvent,
        input: TextBoxInput,
        tr: &TextRenderer,
        r: ChatResponse,
    )
        requires
            before.wf(),
            before.spec_open(),
            before.browses(e),
            self.event_post(before, ChatEvent::Input(e), input, tr, r),
        ensures
            r.consumed,
            r.send is None,
            self.spec_own_messages() == before.spec_own_messages(),
            ({
                let n = before.spec_own_messages().len() as int;
                let own = before.spec_own_messages();
                let valid = before.spec_text_box().spec_valid_chars();
                let line = self.spec_text_box().spec_buffer();
                &&& e == TextBoxEvent::KeyPressed(keys::DOWN) ==> match before.spec_browser_idx() {
                    Some(i) => if i < n {
                        &&& self.spec_browser_idx() == Some((i + 1) as usize)
                        &&& line == if i + 1 < n { filter_valid(own[i + 1], valid) } else { Seq::<char>::empty() }
                    } else {
                        &&& self.spec_browser_idx() == Some(n as usize)
                        &&& line.len() == 0
                    },
                    None => {
                        &&& self.spec_browser_idx() is None
                        &&& self.spec_text_box() == before.spec_text_box()
                    },
                }
                &&& e == TextBoxEvent::KeyPressed(keys::UP) ==> match before.spec_browser_idx() {
                    Some(i) => {
                        let j = if i > 0 { i - 1 } else { 0 };
                        &&& self.spec_browser_idx() == Some(j as usize)
                        &&& line == if j < n { filter_valid(own[j], valid) } else { Seq::<char>::empty() }
                    },
                    None => {
                        &&& self.spec_browser_idx() == Some((n - 1) as usize)
                        &&& line == filter_valid(own[n - 1], valid)
                    },
                }
            }),
    {
        let valid = before.spec_text_box().spec_valid_chars();
        assert(filter_valid(Seq::<char>::empty(), valid) =~= Seq::<char>::empty());
    }

    /// Whether an event can be handled ([`Chat::event_ok`]), for callers that
    /// must check before handing one over.
    pub fn event_ok_check(&self, event: ChatEvent, input: TextBoxInput, tr: &TextRenderer) -> (r: bool)
        requires
            self.wf(),
            tr.wf(),
        ensures
            r == self.event_ok(event, input, tr),
    {
        if !self.chat_open {
            return true;
        }
        match event {
            ChatEvent::Resized(_) => self.text_box.width_fits(tr),
            ChatEvent::Input(e) => {
                let n = self.own_messages.len();
                let browsing = (e == TextBoxEvent::KeyPressed(keys::DOWN) || e == TextBoxEvent::KeyPressed(keys::UP))
                    && n > 0 && (!self.text_box.modified() || self.text_box.is_empty());
                if browsing {
                    let target: Option<usize> = if e == TextBoxEvent::KeyPressed(keys::DOWN) {
                        match self.message_browser_idx {
                            Some(i) => Some(if i < n { i + 1 } else { n }),
                            None => None,
                        }
                    } else {
                        match self.message_browser_idx {
                            Some(i) => Some(if i > 0 { i - 1 } else { 0 }),
                            None => Some(n - 1),
                        }
                    };
                    match target {
                        Some(i) => {
                            if i == n {
                                let empty: &[char] = &[];
                                assert(empty@ =~= Seq::<char>::empty());
                                self.text_box.contents_fit_check(empty, tr)
                            } else {
                                assert(self.own_messages@[i as int]@ == self.spec_own_messages()[i as int]);
                                self.text_box.contents_fit_check(self.own_messages[i].as_slice(), tr)
                            }
                        },
                        None => true,
                    }
                } else if e == TextBoxEvent::KeyPressed(keys::RETURN) {
                    true
                } else {
                    self.text_box.event_ok_check(e, input, tr)
                }
            },
        }
    }

    /// The history, own messages and open flag are unchanged.
    pub open spec fn same_messages(&self, other: &Chat) -> bool {
        &&& self.spec_history() == other.spec_history()
        &&& self.spec_own_messages() == other.spec_own_messages()
        &&& self.spec_open() == other.spec_open()
    }

    /// What handling an event does (see [`Chat::process_event`]): `self` is the
    /// chat after the event, `before` the chat before it, `r` the response.
    pub open spec fn event_post(
        &self,
        before: &Chat,
        event: ChatEvent,
        input: TextBoxInput,
        tr: &TextRenderer,
        r: ChatResponse,
    ) -> bool {
        let tb = self.spec_text_box();
        let btb = before.spec_text_box();
        if !before.spec_open() {
            &&& !r.consumed
            &&& r.clipboard == ClipboardRequest::Nothing
            &&& r.send is None
            &&& r.cursor is None
            &&& self.same_messages(before)
            &&& tb == btb
            &&& self.spec_browser_idx() == before.spec_browser_idx()
        } else {
            match event {
                ChatEvent::Resized(w) => {
                    &&& !r.consumed
                    &&& r.clipboard == ClipboardRequest::Nothing
                    &&& r.send is None
                    &&& r.cursor is None
                    &&& self.same_messages(before)
                    &&& self.spec_browser_idx() == before.spec_browser_idx()
                    &&& tb.width_set(&btb, sat_sub((w as u16) as int, 20) as u16, tr)
                },
                ChatEvent::Input(e) => if before.browses(e) {
                    &&& r.consumed
                    &&& r.clipboard == ClipboardRequest::Nothing
                    &&& r.send is None
                    &&& r.cursor is None
                    &&& self.same_messages(before)
                    &&& match before.browse_target(e) {
                        Some(i) => {
                            &&& self.spec_browser_idx() == Some(i as usize)
                            &&& tb.contents_set(&btb, before.browse_text(i), tr)
                        },
                        None => {
                            &&& self.spec_browser_idx() == before.spec_browser_idx()
                            &&& tb == btb
                        },
                    }
                } else if e == TextBoxEvent::KeyPressed(keys::RETURN) {
                    let t = trimmed(btb.spec_buffer());
                    &&& r.consumed
                    &&& r.clipboard == ClipboardRequest::Nothing
                    &&& r.cursor == Some(CursorGrab::Confined)
                    &&& !self.spec_open()
                    &&& self.spec_history() == before.spec_history()
                    &&& self.spec_browser_idx() is None
                    &&& tb.reset_from(&btb)
                    &&& if t.len() > 0 {
                        &&& self.spec_own_messages() == before.spec_own_messages().push(t)
                        &&& r.send matches Some(v) && v@ == t
                    } else {
                        &&& self.spec_own_messages() == before.spec_own_messages()
                        &&& r.send is None
                    }
                } else {
                    &&& tb.event_post(&btb, e, input, tr, (r.consumed, r.clipboard))
                    &&& r.send is None
                    &&& r.cursor is None
                    &&& self.same_messages(before)
                    &&& self.spec_browser_idx() == if tb.spec_modified() {
                        None
                    } else {
                        before.spec_browser_idx()
                    }
                },
            }
        }
    }

    /// Pastes clipboard text into the input line (after a paste request); a
    /// change of the line stops browsing.
    pub fn paste_text(&mut self, clipboard_text: Option<Vec<char>>)
        requires
            old(self).wf(),
        ensures
            final(self).wf(),
            final(self).same_messages(old(self)),
            final(self).spec_text_box().same_settings(&old(self).spec_text_box()),
            final(self).spec_text_box().edit() == match clipboard_text {
                Some(t) => es_paste(
                    old(self).spec_text_box().edit(),
                    t@,
                    old(self).spec_text_box().spec_valid_chars(),
                    500,
                ),
                None => old(self).spec_text_box().edit(),
            },
            final(self).spec_browser_idx() == if final(self).spec_text_box().spec_modified() {
                None
            } else {
                old(self).spec_browser_idx()
            },
    {
        proof {
            if clipboard_text is Some {
                lemma_paste_limit(self.text_box.edit(), clipboard_text->0@, self.text_box.spec_valid_chars(), 500);
            }
        }
        self.text_box.paste_text(clipboard_text);
        if self.text_box.modified() {
            self.message_browser_idx = None;
        }
        assert(self.spec_own_messages() == old(self).spec_own_messages());
    }

    /// Handles an event while the chat is open: a resize narrows the input
    /// line, up and down browse own messages, return sends the trimmed line
    /// and closes the chat, and anything else goes to the input line.
    #[verifier::spinoff_prover]
    #[verifier::rlimit(40)]
    pub fn process_event(&mut self, event: ChatEvent, input: TextBoxInput, tr: &TextRenderer) -> (r: ChatResponse)
        requires
            old(self).wf(),
            tr.wf(),
            old(self).event_ok(event, input, tr),
        ensures
            final(self).wf(),
            final(self).event_post(old(self), event, input, tr, r),
    {
        if !self.chat_open {
            return ChatResponse { consumed: false, clipboard: ClipboardRequest::Nothing, send: None, cursor: None };
        }
        match event {
            ChatEvent::Resized(w) => {
                let w16 = #[verifier::truncate] (w as u16);
                let width = if w16 >= 20 { w16 - 20 } else { 0 };
                self.text_box.set_width(width, tr);
                ChatResponse { consumed: false, clipboard: ClipboardRequest::Nothing, send: None, cursor: None }
            },
            ChatEvent::Input(e) => {
                let n = self.own_messages.len();
                let browsing = (e == TextBoxEvent::KeyPressed(keys::DOWN) || e == TextBoxEvent::KeyPressed(keys::UP))
                    && n > 0 && (!self.text_box.modified() || self.text_box.is_empty());
                if browsing {
                    if e == TextBoxEvent::KeyPressed(keys::DOWN) {
                        match self.message_browser_idx {
                            Some(idx) => {
                                let next = if idx < n { idx + 1 } else { n };
                                self.message_browser_idx = Some(next);
                                if next == n {
                                    let empty: &[char] = &[];
                                    assert(empty@ =~= Seq::<char>::empty());
                                    self.text_box.set_contents(empty, tr);
                                    proof {
                                        broadcast use vstd::seq_lib::group_filter_ensures;
                                        assert(filter_valid(empty@, old(self).text_box.spec_valid_chars()).len() <= 0);
                                    }
                                } else {
                                    assert(self.own_messages@[next as int]@ == old(self).spec_own_messages()[next as int]);
                                    self.text_box.set_contents(self.own_messages[next].as_slice(), tr);
                                    proof {
                                        broadcast use vstd::seq_lib::group_filter_ensures;
                                        let m = old(self).spec_own_messages()[next as int];
                                        assert(m.len() <= 500);
                                        assert(filter_valid(m, old(self).text_box.spec_valid_chars()).len() <= m.len());
                                    }
                                }
                            },
                            None => {},
                        }
                    } else {
                        let idx = match self.message_browser_idx {
                            Some(i) => if i > 0 { i - 1 } else { 0 },
                            None => n - 1,
                        };
                        self.message_browser_idx = Some(idx);
                        assert(self.own_messages@[idx as int]@ == old(self).spec_own_messages()[idx as int]);
                        self.text_box.set_contents(self.own_messages[idx].as_slice(), tr);
                        proof {
                            broadcast use vstd::seq_lib::group_filter_ensures;
                            let m = old(self).spec_own_messages()[idx as int];
                            assert(m.len() <= 500);
                            assert(filter_valid(m, old(self).text_box.spec_valid_chars()).len() <= m.len());
                        }
                    }
                    ChatResponse { consumed: true, clipboard: ClipboardRequest::Nothing, send: None, cursor: None }
                } else if e == TextBoxEvent::KeyPressed(keys::RETURN) {
                    let contents = trim_message(self.text_box.contents());
                    let mut send: Option<Vec<char>> = None;
                    if contents.len() > 0 {
                        self.own_messages.push(vstd::slice::slice_to_vec(contents));
                        send = Some(vstd::slice::slice_to_vec(contents));
                        proof {
                            let f = |m: Vec<char>| m@;
                            assert(self.own_messages@.map_values(f) =~= old(self).own_messages@.map_values(f).push(
                                contents@,
                            ));
                            lemma_trimmed_len(old(self).text_box.spec_buffer());
                        }
                    }
                    let cursor = self.toggle_open();
                    ChatResponse { consumed: true, clipboard: ClipboardRequest::Nothing, send, cursor: Some(cursor) }
                } else {
                    let ghost tb0 = self.text_box;
                    let (consumed, clipboard) = self.text_box.process_event(e, input, tr);
                    proof {
                        self.text_box.lemma_event_keeps_limit(&tb0, e, input, tr, (consumed, clipboard));
                    }
                    if self.text_box.modified() {
                        self.message_browser_idx = None;
                    }
                    ChatResponse { consumed, clipboard, send: None, cursor: None }
                }
            },
        }
    }
}

impl Chat {
    /// The history's messages all have consistent cached line breaks.
    pub open spec fn caches_ok(&self, glyphs: Seq<GlyphData>) -> bool {
        forall|i: int| 0 <= i < self.spec_history().view().len() ==> cache_ok(glyphs, #[trigger] self.spec_history().view()[i])
    }

    /// Whether the chat can be drawn in a window `win_w` by `win_h` pixels: the
    /// window is wide enough, the input line (while open) can be drawn, and so
    /// can the messages and their background.
    pub open spec fn draw_ok(&self, ui: &UiRenderer, time_ms: u32, win_w: u32, win_h: u32) -> bool {
        let tr = ui.spec_text();
        let g = tr.spec_glyphs();
        let q = tr.spec_text_buffer().len() as int;
        let es = self.spec_history().view();
        let mw = chat_max_width(win_w);
        let tb = self.spec_text_box();
        &&& win_w <= u32::MAX / 4
        &&& self.spec_open() ==> {
            &&& win_w as u16 >= 20
            &&& tb.draw_fits(&tr, q, tb.scrolled_visible_start(&tr), win_h as u16, time_ms)
        }
        &&& chat_draw_ok(g, es, mw, self.spec_open(), time_ms, 26, q + 500)
        &&& mw + 22 <= u16::MAX
        &&& 30 * chat_line_total(g, es, mw, self.spec_open(), time_ms, 26) + 52 <= u16::MAX
    }

    /// What drawing the chat does: `self` is the chat after, `before` the chat
    /// before, `ui` and `after` the renderer before and after.
    pub open spec fn drawn(&self, before: &Chat, ui: &UiRenderer, after: &UiRenderer, time_ms: u32, win_w: u32, win_h: u32) -> bool {
        let tr = ui.spec_text();
        let g = tr.spec_glyphs();
        let es = before.spec_history().view();
        let open = before.spec_open();
        let mw = chat_max_width(win_w);
        let k = chat_shown(g, es, mw, open, time_ms, 26) as int;
        let total = chat_line_total(g, es, mw, open, time_ms, 26);
        let tb = self.spec_text_box();
        let v = self.spec_history().view();
        &&& self.same_messages_but_history(before)
        &&& tb == if open { before.spec_text_box().with_scroll(&tr) } else { before.spec_text_box() }
        &&& v.len() == es.len()
        &&& forall|i: int| k <= i < es.len() ==> #[trigger] v[i] == es[i]
        &&& forall|i: int|
            0 <= i < k ==> {
                &&& (#[trigger] v[i]).contents == es[i].contents
                &&& v[i].color == es[i].color
                &&& v[i].time_received_ms == es[i].time_received_ms
                &&& v[i].linebreak_width_px == mw
                &&& linebreak_list(v[i].linebreaks) == if es[i].linebreak_width_px == mw {
                    linebreak_list(es[i].linebreaks)
                } else {
                    linebreaks(g, es[i].contents@, mw as int)
                }
            }
        &&& after.wf()
        &&& after.spec_num_verts_to_draw() == ui.spec_num_verts_to_draw()
        &&& rects_queued(
            ui.spec_vertices(),
            after.spec_vertices(),
            (if open {
                seq![UiRect { x: 4, y: 6, w: ((win_w as u16) - 20 + 6) as u16, h: 30, color: 0x06_06_06_50 }] + tb.draw_rects(
                    &tr,
                    tb.spec_visible_start() as int,
                    time_ms,
                    input_line_style(),
                )
            } else {
                Seq::empty()
            }) + (if total > 0 {
                seq![UiRect { x: 10, y: 50, w: (mw + 12) as u16, h: (total * 30 + 2) as u16, color: 0x06_06_06_50 }]
            } else {
                Seq::empty()
            }),
        )
        &&& ops_post(
            tr,
            after.spec_text(),
            (if open {
                seq![tb.draw_op(win_h as u16, input_line_style().text_color)]
            } else {
                Seq::empty()
            }) + chat_ops(g, es, mw, open, time_ms, 26),
        )
    }

    /// Everything but the history and the input line is as in `other`.
    pub open spec fn same_messages_but_history(&self, other: &Chat) -> bool {
        &&& self.spec_own_messages() == other.spec_own_messages()
        &&& self.spec_open() == other.spec_open()
        &&& self.spec_browser_idx() == other.spec_browser_idx()
    }

    /// Draws message `k` of the history with its lines above `y`, refreshing
    /// its line breaks; returns how many lines it has.
    #[verifier::spinoff_prover]
    #[verifier::rlimit(40)]
    fn draw_entry(&mut self, k: usize, renderer: &mut UiRenderer, max_w: u16, y: u16, Ghost(qk): Ghost<int>) -> (r: u16)
        requires
            old(self).wf(),
            old(renderer).wf(),
            k < old(self).spec_history().view().len(),
            cache_ok(old(renderer).spec_text().spec_glyphs(), old(self).spec_history().view()[k as int]),
            ({
                let e = old(self).spec_history().view()[k as int];
                let c = e.contents@;
                let n = entry_lines(old(renderer).spec_text().spec_glyphs(), e, max_w).len() as int;
                &&& byte_offset(c, c.len() as int) <= u16::MAX
                &&& e.linebreak_width_px != max_w ==> linebreak_state(
                    old(renderer).spec_text().spec_glyphs(),
                    c,
                    max_w as int,
                    c.len() as int,
                ).fits
                &&& y + 30 * n <= u16::MAX
                &&& qk + c.len() <= u32::MAX
            }),
            old(renderer).spec_text().spec_text_buffer().len() <= qk,
        ensures
            ({
                let g = old(renderer).spec_text().spec_glyphs();
                let es = old(self).spec_history().view();
                let v = final(self).spec_history().view();
                let e = es[k as int];
                let lines = entry_lines(g, e, max_w);
                &&& final(self).wf()
                &&& final(renderer).wf()
                &&& r == lines.len()
                &&& v.len() == es.len()
                &&& forall|i: int| 0 <= i < es.len() && i != k ==> #[trigger] v[i] == es[i]
                &&& v[k as int].contents == e.contents
                &&& v[k as int].color == e.color
                &&& v[k as int].time_received_ms == e.time_received_ms
                &&& v[k as int].linebreak_width_px == max_w
                &&& linebreak_list(v[k as int].linebreaks) == if e.linebreak_width_px == max_w {
                    linebreak_list(e.linebreaks)
                } else {
                    linebreaks(g, e.contents@, max_w as int)
                }
                &&& cache_ok(g, v[k as int])
                &&& ops_post(
                    old(renderer).spec_text(),
                    final(renderer).spec_text(),
                    entry_line_ops(lines, y + 30 * lines.len(), e.color),
                )
                &&& final(renderer).spec_text().spec_glyphs() == g
                &&& final(renderer).spec_text().spec_text_buffer().len() <= qk + e.contents@.len()
                &&& final(renderer).spec_vertices() == old(renderer).spec_vertices()
                &&& final(renderer).spec_num_verts_to_draw() == old(renderer).spec_num_verts_to_draw()
                &&& final(self).spec_text_box() == old(self).spec_text_box()
                &&& final(self).same_messages_but_history(old(self))
            }),
    {
        let ghost g = renderer.spec_text().spec_glyphs();
        let ghost t0 = renderer.spec_text();
        let ghost e = self.history.view()[k as int];
        let ghost c = e.contents@;
        let ghost lines = entry_lines(g, e, max_w);
        proof {
            crate::text::lemma_byte_offset_bounds(c, 0, c.len() as int);
        }
        let color = self.history.entry_at(k).unwrap().color;
        let breaks = self.history.refresh_linebreaks(k, renderer.text_ref(), max_w);
        let n = breaks.len();
        proof {
            if breaks@.len() > 0 {
                assert(breaks@ == linebreaks(g, c, max_w as int));
                lemma_linebreaks_shape(g, c, max_w as int);
            } else {
                if !(e.linebreak_width_px == max_w && linebreak_list(e.linebreaks).len() == 0) {
                    lemma_linebreaks_shape(g, c, max_w as int);
                }
            }
            assert(lines.len() == breaks@.len());
        }
        let y_top = y + (n as u16) * 30;
        if n > 0 {
            let entry2 = self.history.entry_at(k).unwrap();
            draw_entry_lines(renderer, entry2.contents.as_str(), breaks.as_slice(), color, y_top, Ghost(max_w as int));
        } else {
            proof {
                assert(entry_line_ops(lines, y_top as int, color) =~= Seq::<TextOp>::empty());
                lemma_ops_none(t0);
            }
        }
        proof {
            assert(self.spec_own_messages() == old(self).spec_own_messages());
        }
        n as u16
    }

    /// The total of lines drawn is never negative.
    proof fn lemma_line_total_nonneg(glyphs: Seq<GlyphData>, es: Seq<ChatEntry>, max_w: u16, open: bool, time_ms: u32, y: int)
        ensures
            chat_line_total(glyphs, es, max_w, open, time_ms, y) >= 0,
        decreases es.len(),
    {
        if !chat_stops(es, open, time_ms, y) {
            Self::lemma_line_total_nonneg(
                glyphs,
                es.drop_first(),
                max_w,
                open,
                time_ms,
                y + 30 * entry_lines(glyphs, es[0], max_w).len(),
            );
        }
    }

    /// Draws the chat: while open, a dark bar with the input line; then the
    /// messages, newest lowest, each broken to 40% of the window's width (at
    /// least 384 pixels), up to 793 pixels high; while closed, only messages
    /// of the last ten seconds. A dark background goes behind the messages.
    #[verifier::spinoff_prover]
    #[verifier::rlimit(40)]
    pub fn draw(&mut self, time_ms: u32, renderer: &mut UiRenderer, win_w: u32, win_h: u32)
        requires
            old(self).wf(),
            old(renderer).wf(),
            old(self).caches_ok(old(renderer).spec_text().spec_glyphs()),
            old(self).draw_ok(old(renderer), time_ms, win_w, win_h),
        ensures
            final(self).wf(),
            final(self).caches_ok(old(renderer).spec_text().spec_glyphs()),
            final(self).drawn(old(self), old(renderer), final(renderer), time_ms, win_w, win_h),
    {
        let ghost t0 = renderer.spec_text();
        let ghost v0 = renderer.spec_vertices();
        let ghost g = t0.spec_glyphs();
        let ghost q0 = t0.spec_text_buffer().len() as int;
        let ghost es = self.history.view();
        let ghost open = self.chat_open;
        let ghost before = *self;
        proof {
            lemma_ops_none(t0);
            lemma_rects_queued_none(v0);
            self.history.lemma_at_most_255();
        }
        let ghost mut head_rects: Seq<UiRect> = Seq::empty();
        let ghost mut head_ops: Seq<TextOp> = Seq::empty();
        if self.chat_open {
            let w = #[verifier::truncate] (win_w as u16);
            let h = #[verifier::truncate] (win_h as u16);
            renderer.draw_rect_xy_wh((10 - 2 * 3, 12 - 2 * 3), (w - 20 + 2 * 3, 10 * 3), 0x06_06_06_50);
            let ghost ui1 = *renderer;
            let ghost tb0 = self.text_box;
            proof {
                tb0.lemma_with_scroll_glyphs(&t0, &ui1.spec_text());
            }
            let r = self.text_box.draw(renderer, h, time_ms);
            proof {
                let tb = self.text_box;
                tb.lemma_drawn_op(&tb0, &ui1, renderer, h, time_ms, input_line_style(), r);
                let rr = tb.draw_rects(&ui1.spec_text(), tb.spec_visible_start() as int, time_ms, input_line_style());
                lemma_rects_queued_concat(v0, ui1.spec_vertices(), renderer.spec_vertices(), seq![UiRect { x: 4, y: 6, w: (w - 20 + 6) as u16, h: 30, color: 0x06_06_06_50 }], rr);
                head_rects = seq![UiRect { x: 4, y: 6, w: (w - 20 + 6) as u16, h: 30, color: 0x06_06_06_50 }] + rr;
                lemma_ops_push(t0, t0, renderer.spec_text(), Seq::empty(), tb.draw_op(h, input_line_style().text_color));
                head_ops = Seq::<TextOp>::empty().push(tb.draw_op(h, input_line_style().text_color));
                assert(head_ops =~= seq![tb.draw_op(h, input_line_style().text_color)]);
                t0.lemma_op_growth(renderer.spec_text(), tb.draw_op(h, input_line_style().text_color));
                assert(tb.spec_buffer() == tb0.spec_buffer());
                assert(tb.spec_length_limit() == tb0.spec_length_limit());
                assert(self.spec_own_messages() == before.spec_own_messages());
            }
        }
        let ghost t1 = renderer.spec_text();
        let ghost v1 = renderer.spec_vertices();
        let mw_full = if win_w * 4 / 10 > 384 { win_w * 4 / 10 } else { 384 };
        let max_w = #[verifier::truncate] (mw_full as u16);
        let mut y: u16 = 26;
        let mut lines_drawn: u32 = 0;
        let mut k: usize = 0;
        let mut done = false;
        let ghost mut ops: Seq<TextOp> = Seq::empty();
        let ghost mut qk: int = q0 + 500;
        proof {
            assert(es.skip(0) =~= es);
            Self::lemma_line_total_nonneg(g, es, max_w, open, time_ms, 26);
        }
        while !done
            invariant
                self.wf(),
                renderer.wf(),
                es == before.spec_history().view(),
                open == self.chat_open,
                open == before.spec_open(),
                g == t0.spec_glyphs(),
                renderer.spec_text().spec_glyphs() == g,
                max_w == chat_max_width(win_w),
                k <= es.len(),
                es.len() <= 255,
                self.spec_history().view().len() == es.len(),
                forall|i: int| k <= i < es.len() ==> #[trigger] self.spec_history().view()[i] == es[i],
                forall|i: int| 0 <= i < es.len() ==> cache_ok(g, #[trigger] es[i]),
                forall|i: int| 0 <= i < es.len() ==> cache_ok(g, #[trigger] self.spec_history().view()[i]),
                forall|i: int|
                    0 <= i < k ==> {
                        &&& (#[trigger] self.spec_history().view()[i]).contents == es[i].contents
                        &&& self.spec_history().view()[i].color == es[i].color
                        &&& self.spec_history().view()[i].time_received_ms == es[i].time_received_ms
                        &&& self.spec_history().view()[i].linebreak_width_px == max_w
                        &&& linebreak_list(self.spec_history().view()[i].linebreaks) == if es[i].linebreak_width_px
                            == max_w {
                            linebreak_list(es[i].linebreaks)
                        } else {
                            linebreaks(g, es[i].contents@, max_w as int)
                        }
                    },
                !done ==> chat_draw_ok(g, es.skip(k as int), max_w, open, time_ms, y as int, qk),
                renderer.spec_text().spec_text_buffer().len() <= qk,
                ops_post(t1, renderer.spec_text(), ops),
                done ==> chat_stops(es.skip(k as int), open, time_ms, y as int),
                chat_ops(g, es, max_w, open, time_ms, 26) == ops + chat_ops(g, es.skip(k as int), max_w, open, time_ms, y as int),
                chat_line_total(g, es, max_w, open, time_ms, 26) == lines_drawn + chat_line_total(
                    g,
                    es.skip(k as int),
                    max_w,
                    open,
                    time_ms,
                    y as int,
                ),
                chat_shown(g, es, max_w, open, time_ms, 26) == k + chat_shown(g, es.skip(k as int), max_w, open, time_ms, y as int),
                renderer.spec_vertices() == v1,
                renderer.spec_num_verts_to_draw() == old(renderer).spec_num_verts_to_draw(),
                self.spec_text_box() == if open { before.spec_text_box().with_scroll(&t0) } else { before.spec_text_box() },
                self.same_messages_but_history(&before),
                0 <= lines_drawn <= chat_line_total(g, es, max_w, open, time_ms, 26),
                30 * chat_line_total(g, es, max_w, open, time_ms, 26) + 52 <= u16::MAX,
            decreases 256 - k + (if done { 0int } else { 1int }),
        {
            let ghost rest = es.skip(k as int);
            match self.history.entry_at(k) {
                None => {
                    done = true;
                    proof {
                        assert(rest.len() == 0);
                    }
                },
                Some(entry) => {
                    proof {
                        assert(rest[0] == es[k as int]);
                    }
                    if y >= 793 || (!self.chat_open && time_ms > entry.time_received_ms && time_ms
                        - entry.time_received_ms > 10_000) {
                        done = true;
                    } else {
                        let ghost e = es[k as int];
                        let ghost tk = renderer.spec_text();
                        let ghost ys = y as int;
                        proof {
                            assert(rest.drop_first() =~= es.skip(k as int + 1));
                        }
                        let n = self.draw_entry(k, renderer, max_w, y, Ghost(qk));
                        y = y + n * 30;
                        proof {
                            let lines = entry_lines(g, e, max_w);
                            lemma_ops_concat(t1, tk, renderer.spec_text(), ops, entry_line_ops(lines, y as int, e.color));
                            assert(ops + entry_line_ops(lines, y as int, e.color) + chat_ops(g, es.skip(k as int + 1), max_w, open, time_ms, y as int)
                                == ops + chat_ops(g, rest, max_w, open, time_ms, ys));
                            ops = ops + entry_line_ops(lines, y as int, e.color);
                            qk = qk + e.contents@.len();
                            Self::lemma_line_total_nonneg(g, es.skip(k as int + 1), max_w, open, time_ms, y as int);
                        }
                        lines_drawn = lines_drawn + n as u32;
                        k += 1;
                    }
                },
            }
        }
        proof {
            assert(chat_ops(g, es.skip(k as int), max_w, open, time_ms, y as int) =~= Seq::<TextOp>::empty());
            assert(ops =~= chat_ops(g, es, max_w, open, time_ms, 26));
            lemma_ops_concat(t0, t1, renderer.spec_text(), head_ops, ops);
        }
        if lines_drawn != 0 {
            renderer.draw_rect_xy_wh((16 - 2 * 3, 56 - 2 * 3), (max_w + 2 * 3 * 2, (lines_drawn as u16) * 30 + 2 * 3 * 2 - 10), 0x06_06_06_50);
            proof {
                lemma_rects_queued_concat(v0, v1, renderer.spec_vertices(), head_rects, seq![UiRect { x: 10, y: 50, w: (max_w + 12) as u16, h: (lines_drawn * 30 + 2) as u16, color: 0x06_06_06_50 }]);
            }
        } else {
            proof {
                assert(head_rects + Seq::<UiRect>::empty() =~= head_rects);
            }
        }
    }
}

} // verus!
