//! Read-only renderings of buffers that hold terminal output or other
//! control-character-heavy text: either every control character is made
//! visible, or escape sequences and control characters are cleaned away.
use vstd::prelude::*;
use crate::text::{chars_of, push_str, is_cc};

verus! {

/// How a control character is shown in the visible rendering.
pub enum ControlCharDisplay {
    /// A single replacement glyph.
    Literal(char),
    /// A short bracketed name such as `<LRM>`.
    Label(&'static str),
    /// The `\xHH` escape of the code point.
    Hex,
}

/// The bracketed name used for a formatting or separator control, if any.
pub open spec fn control_label(ch: char) -> Option<Seq<char>> {
    if ch == '\u{001E}' { Some("<RS>"@) }
    else if ch == '\u{001F}' { Some("<US>"@) }
    else if ch == '\u{200E}' { Some("<LRM>"@) }
    else if ch == '\u{200F}' { Some("<RLM>"@) }
    else if ch == '\u{200D}' { Some("<ZWJ>"@) }
    else if ch == '\u{200C}' { Some("<ZWNJ>"@) }
    else if ch == '\u{202A}' { Some("<LRE>"@) }
    else if ch == '\u{202B}' { Some("<RLE>"@) }
    else if ch == '\u{202D}' { Some("<LRO>"@) }
    else if ch == '\u{202E}' { Some("<RLO>"@) }
    else if ch == '\u{202C}' { Some("<PDF>"@) }
    else if ch == '\u{206E}' { Some("<NADS>"@) }
    else if ch == '\u{206F}' { Some("<NODS>"@) }
    else if ch == '\u{206B}' { Some("<ASS>"@) }
    else if ch == '\u{206A}' { Some("<ISS>"@) }
    else if ch == '\u{206D}' { Some("<AAFS>"@) }
    else if ch == '\u{206C}' { Some("<IAFS>"@) }
    else { None }
}

/// The single glyph that stands for a control character, if any.
pub open spec fn control_glyph(ch: char) -> Option<char> {
    if ch == '\u{1B}' { Some('\u{241B}') }
    else if ch == '\u{0008}' { Some('\u{2408}') }
    else if ch == '\t' { Some('\u{2192}') }
    else if ch == '\r' { Some('\u{240D}') }
    else { None }
}

/// Upper-case hexadecimal digit for a value below sixteen.
pub open spec fn hex_digit(d: nat) -> char {
    if d < 10 { ((48 + d) as u32) as char } else { ((55 + d) as u32) as char }
}

/// The `\xHH` escape of a code point below 256.
pub open spec fn hex_escape(code: nat) -> Seq<char> {
    seq!['\\', 'x', hex_digit(code / 16), hex_digit(code % 16)]
}

/// What the visible rendering shows for one character.
pub open spec fn visible_piece(ch: char) -> Seq<char> {
    if control_glyph(ch) is Some {
        seq![control_glyph(ch)->0]
    } else if ch == '\n' {
        seq!['\n']
    } else if control_label(ch) is Some {
        control_label(ch)->0
    } else if is_cc(ch) {
        hex_escape(ch as u32 as nat)
    } else {
        seq![ch]
    }
}

/// The visible rendering of the first `n` characters of `s`.
pub open spec fn visible_prefix(s: Seq<char>, n: nat) -> Seq<char>
    decreases n,
{
    if n == 0 {
        Seq::empty()
    } else {
        visible_prefix(s, (n - 1) as nat) + visible_piece(s[n - 1])
    }
}

/// The visible rendering of a whole text.
pub open spec fn visible_text(s: Seq<char>) -> Seq<char> {
    visible_prefix(s, s.len())
}

/// Shows every control character of `text` as a glyph, a bracketed name or a
/// `\xHH` escape; line feeds stay line feeds and other characters are kept.
pub fn make_control_chars_visible(text: &str) -> (visible: String)
    ensures
        visible@ == visible_text(text@),
{
    let chars = chars_of(text);
    let mut visible = String::new();
    let mut i: usize = 0;
    while i < chars.len()
        invariant
            chars@ == text@,
            i <= chars.len(),
            visible@ == visible_prefix(text@, i as nat),
        decreases chars.len() - i,
    {
        let next = if i + 1 < chars.len() { Some(chars[i + 1]) } else { None };
        push_visible_char(&mut visible, chars[i], next);
        i = i + 1;
    }
    visible
}

fn hex_digit_char(d: u32) -> (c: char)
    requires
        d < 16,
    ensures
        c == hex_digit(d as nat),
{
    match d {
        0 => '0', 1 => '1', 2 => '2', 3 => '3', 4 => '4', 5 => '5', 6 => '6', 7 => '7',
        8 => '8', 9 => '9', 10 => 'A', 11 => 'B', 12 => 'C', 13 => 'D', 14 => 'E', _ => 'F',
    }
}

/// Appends the visible rendering of `ch` (followed by `next`) to `visible`.
pub fn push_visible_char(visible: &mut String, ch: char, next: Option<char>)
    ensures
        final(visible)@ == old(visible)@ + visible_piece(ch),
{
    match visible_control_char(ch, next) {
        Some(ControlCharDisplay::Literal(replacement)) => visible.push(replacement),
        Some(ControlCharDisplay::Label(label)) => push_str(visible, label),
        Some(ControlCharDisplay::Hex) => {
            let code = ch as u32;
            visible.push('\\');
            visible.push('x');
            visible.push(hex_digit_char(code / 16));
            visible.push(hex_digit_char(code % 16));
        },
        None => visible.push(ch),
    }
    assert(visible@ =~= old(visible)@ + visible_piece(ch));
}

/// Classifies `ch` for the visible rendering; `None` keeps it as it is.
pub fn visible_control_char(ch: char, next: Option<char>) -> (display: Option<ControlCharDisplay>)
    ensures
        match display {
            Some(ControlCharDisplay::Literal(g)) => control_glyph(ch) == Some(g),
            Some(ControlCharDisplay::Label(l)) => control_glyph(ch) is None && ch != '\n'
                && control_label(ch) == Some(l@),
            Some(ControlCharDisplay::Hex) => control_glyph(ch) is None && ch != '\n'
                && control_label(ch) is None && is_cc(ch),
            None => control_glyph(ch) is None && (ch == '\n' || (control_label(ch) is None
                && !is_cc(ch))),
        },
{
    if ch == '\u{1B}' {
        Some(ControlCharDisplay::Literal('\u{241B}'))
    } else if ch == '\u{0008}' {
        Some(ControlCharDisplay::Literal('\u{2408}'))
    } else if ch == '\t' {
        Some(ControlCharDisplay::Literal('\u{2192}'))
    } else if ch == '\u{001E}' {
        Some(ControlCharDisplay::Label("<RS>"))
    } else if ch == '\u{001F}' {
        Some(ControlCharDisplay::Label("<US>"))
    } else if ch == '\r' && next == Some('\n') {
        Some(ControlCharDisplay::Literal('\u{240D}'))
    } else if ch == '\r' {
        Some(ControlCharDisplay::Literal('\u{240D}'))
    } else if ch == '\n' {
        None
    } else if ch == '\u{200E}' {
        Some(ControlCharDisplay::Label("<LRM>"))
    } else if ch == '\u{200F}' {
        Some(ControlCharDisplay::Label("<RLM>"))
    } else if ch == '\u{200D}' {
        Some(ControlCharDisplay::Label("<ZWJ>"))
    } else if ch == '\u{200C}' {
        Some(ControlCharDisplay::Label("<ZWNJ>"))
    } else if ch == '\u{202A}' {
        Some(ControlCharDisplay::Label("<LRE>"))
    } else if ch == '\u{202B}' {
        Some(ControlCharDisplay::Label("<RLE>"))
    } else if ch == '\u{202D}' {
        Some(ControlCharDisplay::Label("<LRO>"))
    } else if ch == '\u{202E}' {
        Some(ControlCharDisplay::Label("<RLO>"))
    } else if ch == '\u{202C}' {
        Some(ControlCharDisplay::Label("<PDF>"))
    } else if ch == '\u{206E}' {
        Some(ControlCharDisplay::Label("<NADS>"))
    } else if ch == '\u{206F}' {
        Some(ControlCharDisplay::Label("<NODS>"))
    } else if ch == '\u{206B}' {
        Some(ControlCharDisplay::Label("<ASS>"))
    } else if ch == '\u{206A}' {
        Some(ControlCharDisplay::Label("<ISS>"))
    } else if ch == '\u{206D}' {
        Some(ControlCharDisplay::Label("<AAFS>"))
    } else if ch == '\u{206C}' {
        Some(ControlCharDisplay::Label("<IAFS>"))
    } else if ch.is_control() {
        Some(ControlCharDisplay::Hex)
    } else {
        None
    }
}

} // verus!

verus! {

/// Position just after the final byte of a CSI sequence whose parameters
/// start at `j` (the final byte is in `@`..=`~`), or the end of the text.
pub open spec fn csi_end(s: Seq<char>, j: int) -> int
    decreases s.len() - j,
{
    if j >= s.len() || j < 0 {
        s.len() as int
    } else if '@' <= s[j] && s[j] <= '~' {
        j + 1
    } else {
        csi_end(s, j + 1)
    }
}

/// Position just after the terminator of an OSC sequence whose payload starts
/// at `j` (BEL, or ESC followed by a backslash), or the end of the text.
pub open spec fn osc_end(s: Seq<char>, j: int) -> int
    decreases s.len() - j,
{
    if j >= s.len() || j < 0 {
        s.len() as int
    } else if s[j] == '\u{0007}' {
        j + 1
    } else if s[j] == '\u{1B}' && j + 1 < s.len() && s[j + 1] == '\\' {
        j + 2
    } else {
        osc_end(s, j + 1)
    }
}

/// Position after the escape sequence introduced by an ESC just before `j`.
pub open spec fn escape_end(s: Seq<char>, j: int) -> int {
    if 0 <= j < s.len() && s[j] == '[' {
        csi_end(s, j + 1)
    } else if 0 <= j < s.len() && s[j] == ']' {
        osc_end(s, j + 1)
    } else {
        j
    }
}

/// The cleaned rendering of `s` from position `i` on, appended to `out`:
/// escape sequences are dropped, a backspace erases the last kept character,
/// CR LF becomes LF, a lone CR becomes LF, other control characters except
/// LF and TAB are dropped.
pub open spec fn clean_from(s: Seq<char>, i: int, out: Seq<char>) -> Seq<char>
    decreases s.len() - i,
{
    if i >= s.len() || i < 0 {
        out
    } else {
        let ch = s[i];
        if ch == '\u{1B}' {
            let j = escape_end(s, i + 1);
            if i < j <= s.len() {
                clean_from(s, j, out)
            } else {
                out
            }
        } else if ch == '\u{0008}' {
            clean_from(s, i + 1, if out.len() > 0 { out.drop_last() } else { out })
        } else if ch == '\r' && i + 1 < s.len() && s[i + 1] == '\n' {
            clean_from(s, i + 1, out)
        } else if ch == '\r' {
            clean_from(s, i + 1, out.push('\n'))
        } else if ch == '\n' || ch == '\t' {
            clean_from(s, i + 1, out.push(ch))
        } else if is_cc(ch) {
            clean_from(s, i + 1, out)
        } else {
            clean_from(s, i + 1, out.push(ch))
        }
    }
}

/// The cleaned rendering of a whole text.
pub open spec fn clean_text(s: Seq<char>) -> Seq<char> {
    clean_from(s, 0, Seq::empty())
}

proof fn lemma_csi_end_bounds(s: Seq<char>, j: int)
    requires
        0 <= j,
    ensures
        j <= csi_end(s, j) <= s.len() || (j > s.len() && csi_end(s, j) == s.len()),
    decreases s.len() - j,
{
    if j < s.len() && !('@' <= s[j] && s[j] <= '~') {
        lemma_csi_end_bounds(s, j + 1);
    }
}

proof fn lemma_osc_end_bounds(s: Seq<char>, j: int)
    requires
        0 <= j,
    ensures
        j <= osc_end(s, j) <= s.len() || (j > s.len() && osc_end(s, j) == s.len()),
    decreases s.len() - j,
{
    if j < s.len() && s[j] != '\u{0007}' && !(s[j] == '\u{1B}' && j + 1 < s.len() && s[j + 1]
        == '\\') {
        lemma_osc_end_bounds(s, j + 1);
    }
}

/// Removes escape sequences and control characters other than line feeds
/// and tabs, applying backspaces and turning carriage returns into line feeds.
pub fn make_control_chars_clean(text: &str) -> (clean: String)
    ensures
        clean@ == clean_text(text@),
{
    let chars = chars_of(text);
    let mut kept: Vec<char> = Vec::new();
    let mut i: usize = 0;
    while i < chars.len()
        invariant
            chars@ == text@,
            i <= chars.len(),
            clean_from(text@, i as int, kept@) == clean_text(text@),
        decreases chars.len() - i,
    {
        i = push_clean_char(&mut kept, &chars, i);
    }
    crate::text::string_of(kept.as_slice())
}

/// Handles the character at `i`: updates `clean` and returns the position of
/// the next character to look at.
pub fn push_clean_char(clean: &mut Vec<char>, chars: &Vec<char>, i: usize) -> (next: usize)
    requires
        i < chars.len(),
    ensures
        i < next <= chars.len(),
        clean_from(chars@, next as int, final(clean)@) == clean_from(chars@, i as int, old(clean)@),
{
    let ch = chars[i];
    if ch == '\u{1B}' {
        let next = skip_ansi_sequence(chars, i + 1);
        next
    } else if ch == '\u{0008}' {
        clean.pop();
        assert(old(clean)@.len() > 0 ==> clean@ =~= old(clean)@.drop_last());
        i + 1
    } else if ch == '\r' && i + 1 < chars.len() && chars[i + 1] == '\n' {
        i + 1
    } else if ch == '\r' {
        clean.push('\n');
        i + 1
    } else if ch == '\n' || ch == '\t' {
        clean.push(ch);
        i + 1
    } else if ch.is_control() {
        i + 1
    } else {
        clean.push(ch);
        i + 1
    }
}

/// Position after the escape sequence whose introducer follows an ESC, where
/// `j` is the position just after that ESC.
pub fn skip_ansi_sequence(chars: &Vec<char>, j: usize) -> (next: usize)
    requires
        0 < j <= chars.len(),
    ensures
        next == escape_end(chars@, j as int),
        j <= next <= chars.len(),
{
    if j < chars.len() && chars[j] == '[' {
        proof { lemma_csi_end_bounds(chars@, j + 1); }
        skip_csi_sequence(chars, j + 1)
    } else if j < chars.len() && chars[j] == ']' {
        proof { lemma_osc_end_bounds(chars@, j + 1); }
        skip_osc_sequence(chars, j + 1)
    } else {
        j
    }
}

/// Position just after the final byte of a CSI sequence starting at `j`.
pub fn skip_csi_sequence(chars: &Vec<char>, j: usize) -> (next: usize)
    requires
        j <= chars.len(),
    ensures
        next == csi_end(chars@, j as int),
{
    let mut k = j;
    while k < chars.len()
        invariant
            j <= k <= chars.len(),
            csi_end(chars@, k as int) == csi_end(chars@, j as int),
        decreases chars.len() - k,
    {
        let ch = chars[k];
        if '@' <= ch && ch <= '~' {
            return k + 1;
        }
        k = k + 1;
    }
    k
}

/// Position just after the terminator of an OSC sequence starting at `j`.
pub fn skip_osc_sequence(chars: &Vec<char>, j: usize) -> (next: usize)
    requires
        j <= chars.len(),
    ensures
        next == osc_end(chars@, j as int),
{
    let mut k = j;
    while k < chars.len()
        invariant
            j <= k <= chars.len(),
            osc_end(chars@, k as int) == osc_end(chars@, j as int),
        decreases chars.len() - k,
    {
        let ch = chars[k];
        if ch == '\u{0007}' {
            return k + 1;
        }
        if ch == '\u{1B}' && k + 1 < chars.len() && chars[k + 1] == '\\' {
            return k + 2;
        }
        k = k + 1;
    }
    k
}

} // verus!

verus! {

/// No character of `t` is a control character other than a line feed or a tab.
pub open spec fn only_layout_controls(t: Seq<char>) -> bool {
    forall|k: int| 0 <= k < t.len() ==> t[k] == '\n' || t[k] == '\t' || !is_cc(#[trigger] t[k])
}

/// No character of `t` is a control character other than a line feed.
pub open spec fn only_line_feed_controls(t: Seq<char>) -> bool {
    forall|k: int| 0 <= k < t.len() ==> t[k] == '\n' || !is_cc(#[trigger] t[k])
}

proof fn lemma_piece_has_no_hidden_controls(ch: char)
    ensures
        only_line_feed_controls(visible_piece(ch)),
{
    reveal_strlit("<RS>");
    reveal_strlit("<US>");
    reveal_strlit("<LRM>");
    reveal_strlit("<RLM>");
    reveal_strlit("<ZWJ>");
    reveal_strlit("<ZWNJ>");
    reveal_strlit("<LRE>");
    reveal_strlit("<RLE>");
    reveal_strlit("<LRO>");
    reveal_strlit("<RLO>");
    reveal_strlit("<PDF>");
    reveal_strlit("<NADS>");
    reveal_strlit("<NODS>");
    reveal_strlit("<ASS>");
    reveal_strlit("<ISS>");
    reveal_strlit("<AAFS>");
    reveal_strlit("<IAFS>");
    let p = visible_piece(ch);
    if is_cc(ch) && control_glyph(ch) is None && ch != '\n' && control_label(ch) is None {
        let code = ch as u32 as nat;
        assert(code < 0xa0);
        assert(code / 16 < 16);
        assert(code % 16 < 16);
    }
}

/// Every control character of the visible rendering is a line feed: nothing
/// that would be invisible on screen survives.
pub proof fn visible_rendering_hides_no_controls(s: Seq<char>)
    ensures
        only_line_feed_controls(visible_text(s)),
{
    lemma_visible_prefix_controls(s, s.len());
}

proof fn lemma_visible_prefix_controls(s: Seq<char>, n: nat)
    ensures
        only_line_feed_controls(visible_prefix(s, n)),
    decreases n,
{
    if n > 0 {
        lemma_visible_prefix_controls(s, (n - 1) as nat);
        lemma_piece_has_no_hidden_controls(s[n - 1]);
        let a = visible_prefix(s, (n - 1) as nat);
        let b = visible_piece(s[n - 1]);
        assert forall|k: int| 0 <= k < (a + b).len() implies (a + b)[k] == '\n' || !is_cc(
            #[trigger] (a + b)[k],
        ) by {
            if k < a.len() {
                assert((a + b)[k] == a[k]);
            } else {
                assert((a + b)[k] == b[k - a.len()]);
            }
        }
    }
}

/// Text whose only control characters are line feeds, and which holds none of
/// the named formatting characters, is shown unchanged.
pub proof fn visible_rendering_keeps_plain_text(s: Seq<char>)
    requires
        forall|k: int|
            0 <= k < s.len() ==> (s[k] == '\n' || !is_cc(#[trigger] s[k])) && control_label(s[k])
                is None,
    ensures
        visible_text(s) == s,
{
    lemma_visible_prefix_plain(s, s.len());
    assert(s.take(s.len() as int) =~= s);
}

proof fn lemma_visible_prefix_plain(s: Seq<char>, n: nat)
    requires
        n <= s.len(),
        forall|k: int|
            0 <= k < s.len() ==> (s[k] == '\n' || !is_cc(#[trigger] s[k])) && control_label(s[k])
                is None,
    ensures
        visible_prefix(s, n) == s.take(n as int),
    decreases n,
{
    if n > 0 {
        lemma_visible_prefix_plain(s, (n - 1) as nat);
        let ch = s[n - 1];
        assert((ch == '\n' || !is_cc(ch)) && control_label(ch) is None);
        assert(s.take(n as int) =~= s.take(n - 1).push(ch));
    }
}

proof fn lemma_clean_from_controls(s: Seq<char>, i: int, out: Seq<char>)
    requires
        only_layout_controls(out),
    ensures
        only_layout_controls(clean_from(s, i, out)),
    decreases s.len() - i,
{
    if 0 <= i < s.len() {
        let ch = s[i];
        if ch == '\u{1B}' {
            let j = escape_end(s, i + 1);
            if i < j <= s.len() {
                lemma_clean_from_controls(s, j, out);
            }
        } else if ch == '\u{0008}' {
            let o = if out.len() > 0 { out.drop_last() } else { out };
            assert forall|k: int| 0 <= k < o.len() implies o[k] == '\n' || o[k] == '\t' || !is_cc(
                #[trigger] o[k],
            ) by {
                assert(o[k] == out[k]);
            }
            lemma_clean_from_controls(s, i + 1, o);
        } else if ch == '\r' && i + 1 < s.len() && s[i + 1] == '\n' {
            lemma_clean_from_controls(s, i + 1, out);
        } else if ch == '\r' {
            let o = out.push('\n');
            assert forall|k: int| 0 <= k < o.len() implies o[k] == '\n' || o[k] == '\t' || !is_cc(
                #[trigger] o[k],
            ) by {
                if k < out.len() {
                    assert(o[k] == out[k]);
                }
            }
            lemma_clean_from_controls(s, i + 1, o);
        } else if is_cc(ch) && ch != '\n' && ch != '\t' {
            lemma_clean_from_controls(s, i + 1, out);
        } else {
            let o = out.push(ch);
            assert forall|k: int| 0 <= k < o.len() implies o[k] == '\n' || o[k] == '\t' || !is_cc(
                #[trigger] o[k],
            ) by {
                if k < out.len() {
                    assert(o[k] == out[k]);
                }
            }
            lemma_clean_from_controls(s, i + 1, o);
        }
    }
}

/// The cleaned rendering holds no control characters other than line feeds
/// and tabs: escape sequences, carriage returns and the like are all gone.
pub proof fn clean_rendering_keeps_only_layout_controls(s: Seq<char>)
    ensures
        only_layout_controls(clean_text(s)),
{
    lemma_clean_from_controls(s, 0, Seq::empty());
}

proof fn lemma_clean_from_plain(s: Seq<char>, i: int)
    requires
        0 <= i <= s.len(),
        only_layout_controls(s),
    ensures
        clean_from(s, i, s.take(i)) == s,
    decreases s.len() - i,
{
    if i < s.len() {
        let ch = s[i];
        assert(ch == '\n' || ch == '\t' || !is_cc(ch));
        assert(s.take(i + 1) =~= s.take(i).push(ch));
        lemma_clean_from_plain(s, i + 1);
    } else {
        assert(s.take(i) =~= s);
    }
}

/// Cleaning leaves text alone when its only control characters are line
/// feeds and tabs.
pub proof fn clean_rendering_keeps_plain_text(s: Seq<char>)
    requires
        only_layout_controls(s),
    ensures
        clean_text(s) == s,
{
    lemma_clean_from_plain(s, 0);
    assert(s.take(0) =~= Seq::<char>::empty());
}

/// Cleaning twice is cleaning once: the cleaned rendering holds only line
/// feeds and tabs among control characters, and such text is left alone.
pub proof fn clean_rendering_is_idempotent(s: Seq<char>)
    ensures
        clean_text(clean_text(s)) == clean_text(s),
{
    clean_rendering_keeps_only_layout_controls(s);
    clean_rendering_keeps_plain_text(clean_text(s));
}

proof fn lemma_clean_from_plain_run(s: Seq<char>, i: int, j: int, out: Seq<char>)
    requires
        0 <= i <= j <= s.len(),
        forall|k: int| i <= k < j ==> s[k] == '\n' || s[k] == '\t' || !is_cc(#[trigger] s[k]),
    ensures
        clean_from(s, i, out) == clean_from(s, j, out + s.subrange(i, j)),
    decreases j - i,
{
    if i < j {
        let ch = s[i];
        assert(ch == '\n' || ch == '\t' || !is_cc(ch));
        lemma_clean_from_plain_run(s, i + 1, j, out.push(ch));
        assert(out.push(ch) + s.subrange(i + 1, j) =~= out + s.subrange(i, j));
    } else {
        assert(out + s.subrange(i, j) =~= out);
    }
}

/// Cleaning turns each line break into one line feed: between two pieces of
/// text that hold no control characters other than line feeds and tabs, a
/// CR LF pair becomes a single line feed, and so does a carriage return that
/// no line feed follows.
pub proof fn clean_rendering_turns_line_breaks_into_one_line_feed(p: Seq<char>, q: Seq<char>)
    requires
        only_layout_controls(p),
        only_layout_controls(q),
    ensures
        clean_text(p + seq!['\r', '\n'] + q) == p + seq!['\n'] + q,
        q.len() == 0 || q[0] != '\n' ==> clean_text(p + seq!['\r'] + q) == p + seq!['\n'] + q,
{
    let n = p.len() as int;
    let s = p + seq!['\r', '\n'] + q;
    assert forall|k: int| 0 <= k < n implies s[k] == '\n' || s[k] == '\t' || !is_cc(#[trigger] s[k]) by {
        assert(s[k] == p[k]);
        assert(p[k] == '\n' || p[k] == '\t' || !is_cc(p[k]));
    }
    lemma_clean_from_plain_run(s, 0, n, Seq::empty());
    assert(Seq::<char>::empty() + s.subrange(0, n) =~= p);
    assert(s[n] == '\r' && s[n + 1] == '\n');
    assert(clean_from(s, n, p) == clean_from(s, n + 1, p));
    assert(clean_from(s, n + 1, p) == clean_from(s, n + 2, p.push('\n')));
    assert forall|k: int| n + 2 <= k < s.len() implies s[k] == '\n' || s[k] == '\t' || !is_cc(#[trigger] s[k]) by {
        assert(s[k] == q[k - n - 2]);
        assert(q[k - n - 2] == '\n' || q[k - n - 2] == '\t' || !is_cc(q[k - n - 2]));
    }
    lemma_clean_from_plain_run(s, n + 2, s.len() as int, p.push('\n'));
    assert(p.push('\n') + s.subrange(n + 2, s.len() as int) =~= p + seq!['\n'] + q);
    assert(clean_from(s, s.len() as int, p + seq!['\n'] + q) == p + seq!['\n'] + q);

    if q.len() == 0 || q[0] != '\n' {
        let t = p + seq!['\r'] + q;
        assert forall|k: int| 0 <= k < n implies t[k] == '\n' || t[k] == '\t' || !is_cc(#[trigger] t[k]) by {
            assert(t[k] == p[k]);
            assert(p[k] == '\n' || p[k] == '\t' || !is_cc(p[k]));
        }
        lemma_clean_from_plain_run(t, 0, n, Seq::empty());
        assert(Seq::<char>::empty() + t.subrange(0, n) =~= p);
        assert(t[n] == '\r');
        assert(n + 1 < t.len() ==> t[n + 1] == q[0]);
        assert(clean_from(t, n, p) == clean_from(t, n + 1, p.push('\n')));
        assert forall|k: int| n + 1 <= k < t.len() implies t[k] == '\n' || t[k] == '\t' || !is_cc(#[trigger] t[k]) by {
            assert(t[k] == q[k - n - 1]);
            assert(q[k - n - 1] == '\n' || q[k - n - 1] == '\t' || !is_cc(q[k - n - 1]));
        }
        lemma_clean_from_plain_run(t, n + 1, t.len() as int, p.push('\n'));
        assert(p.push('\n') + t.subrange(n + 1, t.len() as int) =~= p + seq!['\n'] + q);
        assert(clean_from(t, t.len() as int, p + seq!['\n'] + q) == p + seq!['\n'] + q);
    }
}

proof fn lemma_clean_prefix_suffix(s: Seq<char>, p: Seq<char>, m: int, q: Seq<char>, out: Seq<char>)
    requires
        only_layout_controls(p),
        only_layout_controls(q),
        p.len() <= s.len(),
        s.subrange(0, p.len() as int) == p,
        0 <= m <= s.len(),
        s.subrange(m, s.len() as int) == q,
    ensures
        clean_text(s) == clean_from(s, p.len() as int, p),
        clean_from(s, m, out) == out + q,
{
    let n = p.len() as int;
    assert forall|k: int| 0 <= k < n implies s[k] == '\n' || s[k] == '\t' || !is_cc(#[trigger] s[k]) by {
        assert(s[k] == s.subrange(0, n)[k]);
        assert(p[k] == '\n' || p[k] == '\t' || !is_cc(p[k]));
    }
    lemma_clean_from_plain_run(s, 0, n, Seq::empty());
    assert(Seq::<char>::empty() + s.subrange(0, n) =~= p);
    assert forall|k: int| m <= k < s.len() implies s[k] == '\n' || s[k] == '\t' || !is_cc(#[trigger] s[k]) by {
        assert(s[k] == s.subrange(m, s.len() as int)[k - m]);
        assert(q[k - m] == '\n' || q[k - m] == '\t' || !is_cc(q[k - m]));
    }
    lemma_clean_from_plain_run(s, m, s.len() as int, out);
}

proof fn lemma_csi_end_run(s: Seq<char>, j: int, e: int)
    requires
        0 <= j <= e < s.len(),
        forall|k: int| j <= k < e ==> !('@' <= #[trigger] s[k] && s[k] <= '~'),
        '@' <= s[e] && s[e] <= '~',
    ensures
        csi_end(s, j) == e + 1,
    decreases e - j,
{
    if j < e {
        lemma_csi_end_run(s, j + 1, e);
    }
}

proof fn lemma_osc_end_run(s: Seq<char>, j: int, e: int)
    requires
        0 <= j <= e < s.len(),
        forall|k: int| j <= k < e ==> #[trigger] s[k] != '\u{0007}' && s[k] != '\u{1B}',
        s[e] == '\u{0007}' || (s[e] == '\u{1B}' && e + 1 < s.len() && s[e + 1] == '\\'),
    ensures
        osc_end(s, j) == if s[e] == '\u{0007}' { e + 1 } else { e + 2 },
    decreases e - j,
{
    if j < e {
        lemma_osc_end_run(s, j + 1, e);
    }
}

/// Between two pieces of text that hold no control characters other than line
/// feeds and tabs, cleaning applies what a terminal would: a backspace erases
/// the character before it (none at the start), any other control character
/// but an escape, a carriage return, a line feed and a tab vanishes, and a CSI
/// sequence (ESC `[`, parameters, a final byte in `@`..=`~`) or an OSC sequence
/// (ESC `]`, a payload, then BEL or ESC and a backslash) vanishes whole.
pub proof fn clean_rendering_applies_terminal_controls(p: Seq<char>, q: Seq<char>, ch: char, params: Seq<char>, fin: char)
    requires
        only_layout_controls(p),
        only_layout_controls(q),
    ensures
        clean_text(p + seq!['\u{0008}'] + q) == (if p.len() > 0 { p.drop_last() } else { p }) + q,
        is_cc(ch) && ch != '\u{1B}' && ch != '\u{0008}' && ch != '\r' && ch != '\n' && ch != '\t'
            ==> clean_text(p + seq![ch] + q) == p + q,
        (forall|k: int| 0 <= k < params.len() ==> !('@' <= #[trigger] params[k] && params[k] <= '~'))
            && '@' <= fin && fin <= '~'
            ==> clean_text(p + seq!['\u{1B}', '['] + params + seq![fin] + q) == p + q,
        (forall|k: int| 0 <= k < params.len() ==> #[trigger] params[k] != '\u{0007}' && params[k] != '\u{1B}')
            ==> clean_text(p + seq!['\u{1B}', ']'] + params + seq!['\u{0007}'] + q) == p + q
            && clean_text(p + seq!['\u{1B}', ']'] + params + seq!['\u{1B}', '\\'] + q) == p + q,
{
    let n = p.len() as int;
    let b = if p.len() > 0 { p.drop_last() } else { p };
    let s1 = p + seq!['\u{0008}'] + q;
    assert(s1.subrange(0, n) =~= p);
    assert(s1.subrange(n + 1, s1.len() as int) =~= q);
    lemma_clean_prefix_suffix(s1, p, n + 1, q, b);
    assert(s1[n] == '\u{0008}');
    assert(clean_from(s1, n, p) == clean_from(s1, n + 1, b));

    if is_cc(ch) && ch != '\u{1B}' && ch != '\u{0008}' && ch != '\r' && ch != '\n' && ch != '\t' {
        let s2 = p + seq![ch] + q;
        assert(s2.subrange(0, n) =~= p);
        assert(s2.subrange(n + 1, s2.len() as int) =~= q);
        lemma_clean_prefix_suffix(s2, p, n + 1, q, p);
        assert(s2[n] == ch);
        assert(clean_from(s2, n, p) == clean_from(s2, n + 1, p));
    }

    let m = params.len() as int;
    if (forall|k: int| 0 <= k < params.len() ==> !('@' <= #[trigger] params[k] && params[k] <= '~'))
        && '@' <= fin && fin <= '~' {
        let s3 = p + seq!['\u{1B}', '['] + params + seq![fin] + q;
        assert(s3.subrange(0, n) =~= p);
        assert(s3.subrange(n + m + 3, s3.len() as int) =~= q);
        lemma_clean_prefix_suffix(s3, p, n + m + 3, q, p);
        assert(s3[n] == '\u{1B}' && s3[n + 1] == '[');
        assert forall|k: int| n + 2 <= k < n + 2 + m implies !('@' <= #[trigger] s3[k] && s3[k] <= '~') by {
            assert(s3[k] == params[k - n - 2]);
        }
        assert(s3[n + 2 + m] == fin);
        lemma_csi_end_run(s3, n + 2, n + 2 + m);
        assert(escape_end(s3, n + 1) == n + m + 3);
        assert(clean_from(s3, n, p) == clean_from(s3, n + m + 3, p));
    }

    if forall|k: int| 0 <= k < params.len() ==> #[trigger] params[k] != '\u{0007}' && params[k] != '\u{1B}' {
        let s4 = p + seq!['\u{1B}', ']'] + params + seq!['\u{0007}'] + q;
        assert(s4.subrange(0, n) =~= p);
        assert(s4.subrange(n + m + 3, s4.len() as int) =~= q);
        lemma_clean_prefix_suffix(s4, p, n + m + 3, q, p);
        assert(s4[n] == '\u{1B}' && s4[n + 1] == ']');
        assert forall|k: int| n + 2 <= k < n + 2 + m implies #[trigger] s4[k] != '\u{0007}' && s4[k] != '\u{1B}' by {
            assert(s4[k] == params[k - n - 2]);
        }
        assert(s4[n + 2 + m] == '\u{0007}');
        lemma_osc_end_run(s4, n + 2, n + 2 + m);
        assert(escape_end(s4, n + 1) == n + m + 3);
        assert(clean_from(s4, n, p) == clean_from(s4, n + m + 3, p));

        let s5 = p + seq!['\u{1B}', ']'] + params + seq!['\u{1B}', '\\'] + q;
        assert(s5.subrange(0, n) =~= p);
        assert(s5.subrange(n + m + 4, s5.len() as int) =~= q);
        lemma_clean_prefix_suffix(s5, p, n + m + 4, q, p);
        assert(s5[n] == '\u{1B}' && s5[n + 1] == ']');
        assert forall|k: int| n + 2 <= k < n + 2 + m implies #[trigger] s5[k] != '\u{0007}' && s5[k] != '\u{1B}' by {
            assert(s5[k] == params[k - n - 2]);
        }
        assert(s5[n + 2 + m] == '\u{1B}' && s5[n + 3 + m] == '\\');
        lemma_osc_end_run(s5, n + 2, n + 2 + m);
        assert(escape_end(s5, n + 1) == n + m + 4);
        assert(clean_from(s5, n, p) == clean_from(s5, n + m + 4, p));
    }
}

/// How many line feeds `s` holds.
pub open spec fn line_feed_count(s: Seq<char>) -> nat
    decreases s.len(),
{
    if s.len() == 0 {
        0
    } else {
        line_feed_count(s.drop_last()) + if s.last() == '\n' { 1nat } else { 0nat }
    }
}

proof fn lemma_line_feed_count_concat(a: Seq<char>, b: Seq<char>)
    ensures
        line_feed_count(a + b) == line_feed_count(a) + line_feed_count(b),
    decreases b.len(),
{
    if b.len() > 0 {
        lemma_line_feed_count_concat(a, b.drop_last());
        assert((a + b).drop_last() =~= a + b.drop_last());
    } else {
        assert(a + b =~= a);
    }
}

proof fn lemma_no_line_feed(t: Seq<char>)
    requires
        forall|k: int| 0 <= k < t.len() ==> #[trigger] t[k] != '\n',
    ensures
        line_feed_count(t) == 0,
    decreases t.len(),
{
    if t.len() > 0 {
        lemma_no_line_feed(t.drop_last());
    }
}

proof fn lemma_piece_line_feeds(ch: char)
    ensures
        line_feed_count(visible_piece(ch)) == if ch == '\n' { 1nat } else { 0nat },
{
    reveal_strlit("<RS>");
    reveal_strlit("<US>");
    reveal_strlit("<LRM>");
    reveal_strlit("<RLM>");
    reveal_strlit("<ZWJ>");
    reveal_strlit("<ZWNJ>");
    reveal_strlit("<LRE>");
    reveal_strlit("<RLE>");
    reveal_strlit("<LRO>");
    reveal_strlit("<RLO>");
    reveal_strlit("<PDF>");
    reveal_strlit("<NADS>");
    reveal_strlit("<NODS>");
    reveal_strlit("<ASS>");
    reveal_strlit("<ISS>");
    reveal_strlit("<AAFS>");
    reveal_strlit("<IAFS>");
    let p = visible_piece(ch);
    if ch == '\n' {
        assert(p == seq!['\n']);
        assert(p.drop_last() =~= Seq::<char>::empty());
        assert(line_feed_count(p.drop_last()) == 0);
        assert(p.last() == '\n');
    } else {
        if is_cc(ch) && control_glyph(ch) is None && control_label(ch) is None {
            let code = ch as u32 as nat;
            assert(code / 16 < 16);
            assert(code % 16 < 16);
        }
        assert forall|k: int| 0 <= k < p.len() implies #[trigger] p[k] != '\n' by {}
        lemma_no_line_feed(p);
    }
}

proof fn lemma_visible_prefix_line_feeds(s: Seq<char>, n: nat)
    requires
        n <= s.len(),
    ensures
        line_feed_count(visible_prefix(s, n)) == line_feed_count(s.take(n as int)),
    decreases n,
{
    if n > 0 {
        lemma_visible_prefix_line_feeds(s, (n - 1) as nat);
        lemma_line_feed_count_concat(visible_prefix(s, (n - 1) as nat), visible_piece(s[n - 1]));
        lemma_piece_line_feeds(s[n - 1]);
        assert(s.take(n as int).drop_last() =~= s.take(n - 1));
    } else {
        assert(s.take(0) =~= Seq::<char>::empty());
    }
}

/// The visible rendering keeps every line feed: it holds as many as the text.
pub proof fn visible_rendering_keeps_line_feeds(s: Seq<char>)
    ensures
        line_feed_count(visible_text(s)) == line_feed_count(s),
{
    lemma_visible_prefix_line_feeds(s, s.len());
    assert(s.take(s.len() as int) =~= s);
}

} // verus!
