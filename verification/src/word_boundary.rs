//! Word boundaries for word-wise caret movement, deletion and double-click selection.
use vstd::prelude::*;
use crate::piece_tree::PieceTreeLite;
use crate::text::{is_white_space, alphanumeric};

verus! {

/// Character classes whose transitions delimit words.
#[derive(Clone, Copy, PartialEq, Eq, Debug, Structural)]
pub enum CharClass {
    Whitespace,
    Punctuation,
    Word,
}

/// Class of a character: white space, word (alphanumeric or `_`), or punctuation.
pub open spec fn class_of(ch: char) -> CharClass {
    if is_white_space(ch) {
        CharClass::Whitespace
    } else if alphanumeric(ch) || ch == '_' {
        CharClass::Word
    } else {
        CharClass::Punctuation
    }
}

/// Moves left from `pos` over characters of class `class`.
pub open spec fn scan_left(s: Seq<char>, pos: int, class: CharClass) -> int
    decreases pos,
{
    if pos > 0 && pos <= s.len() && class_of(s[pos - 1]) == class {
        scan_left(s, pos - 1, class)
    } else {
        pos
    }
}

/// Moves right from `pos` over characters of class `class`.
pub open spec fn scan_right(s: Seq<char>, pos: int, class: CharClass) -> int
    decreases s.len() - pos,
{
    if 0 <= pos < s.len() && class_of(s[pos]) == class {
        scan_right(s, pos + 1, class)
    } else {
        pos
    }
}

/// The smaller of `index` and the text length.
pub open spec fn clamp_to(s: Seq<char>, index: int) -> int {
    if index < s.len() { index } else { s.len() as int }
}

/// Start of the previous word: skip white space leftwards, then the run of
/// the class found there.
pub open spec fn word_boundary_left(s: Seq<char>, index: int) -> int {
    let p = scan_left(s, clamp_to(s, index), CharClass::Whitespace);
    if p <= 0 { 0 } else { scan_left(s, p, class_of(s[p - 1])) }
}

/// Start of the next word: skip the run of the class at the caret, then white space.
pub open spec fn word_boundary_right(s: Seq<char>, index: int) -> int {
    let pos = clamp_to(s, index);
    if pos >= s.len() {
        s.len() as int
    } else {
        scan_right(s, scan_right(s, pos, class_of(s[pos])), CharClass::Whitespace)
    }
}

/// Start of the run that ends at the caret (double-click selection).
pub open spec fn word_start_of(s: Seq<char>, index: int) -> int {
    let pos = clamp_to(s, index);
    if pos <= 0 { 0 } else { scan_left(s, pos, class_of(s[pos - 1])) }
}

/// End of the run that starts at the caret (double-click selection).
pub open spec fn word_end_of(s: Seq<char>, index: int) -> int {
    let pos = clamp_to(s, index);
    if pos >= s.len() { s.len() as int } else { scan_right(s, pos, class_of(s[pos])) }
}

proof fn lemma_scan_left_bounds(s: Seq<char>, pos: int, class: CharClass)
    requires
        0 <= pos <= s.len(),
    ensures
        0 <= scan_left(s, pos, class) <= pos,
    decreases pos,
{
    if pos > 0 && class_of(s[pos - 1]) == class {
        lemma_scan_left_bounds(s, pos - 1, class);
    }
}

proof fn lemma_scan_right_bounds(s: Seq<char>, pos: int, class: CharClass)
    requires
        0 <= pos <= s.len(),
    ensures
        pos <= scan_right(s, pos, class) <= s.len(),
    decreases s.len() - pos,
{
    if pos < s.len() && class_of(s[pos]) == class {
        lemma_scan_right_bounds(s, pos + 1, class);
    }
}

/// Class of a character.
pub fn classify(ch: char) -> (class: CharClass)
    ensures
        class == class_of(ch),
{
    if ch.is_whitespace() {
        CharClass::Whitespace
    } else if ch.is_alphanumeric() || ch == '_' {
        CharClass::Word
    } else {
        CharClass::Punctuation
    }
}

/// Class of the character before `pos`.
pub fn class_before(piece_tree: &PieceTreeLite, pos: usize) -> (class: CharClass)
    requires
        0 < pos <= piece_tree@.len(),
    ensures
        class == class_of(piece_tree@[pos - 1]),
{
    match piece_tree.char_at(pos - 1) {
        Some(ch) => classify(ch),
        None => classify('\0'),
    }
}

/// Class of the character at `pos`.
pub fn class_at(piece_tree: &PieceTreeLite, pos: usize) -> (class: CharClass)
    requires
        pos < piece_tree@.len(),
    ensures
        class == class_of(piece_tree@[pos as int]),
{
    match piece_tree.char_at(pos) {
        Some(ch) => classify(ch),
        None => classify('\0'),
    }
}

/// Moves left from `pos` while the character before is of class `class`.
pub fn scan_left_while(piece_tree: &PieceTreeLite, pos: usize, class: CharClass) -> (end: usize)
    requires
        pos <= piece_tree@.len(),
    ensures
        end == scan_left(piece_tree@, pos as int, class),
        end <= pos,
{
    let mut pos = pos;
    let ghost original = pos;
    proof { lemma_scan_left_bounds(piece_tree@, pos as int, class); }
    while pos > 0
        invariant
            pos <= original <= piece_tree@.len(),
            scan_left(piece_tree@, pos as int, class) == scan_left(piece_tree@, original as int, class),
        ensures
            scan_left(piece_tree@, pos as int, class) == pos,
            scan_left(piece_tree@, pos as int, class) == scan_left(piece_tree@, original as int, class),
            pos <= original,
        decreases pos,
    {
        match piece_tree.char_at(pos - 1) {
            Some(ch) => {
                if classify(ch) != class {
                    break;
                }
            },
            None => {
                break;
            },
        }
        pos = pos - 1;
    }
    pos
}

/// Moves right from `pos` while the character there is of class `class`.
pub fn scan_right_while(piece_tree: &PieceTreeLite, pos: usize, total: usize, class: CharClass) -> (end: usize)
    requires
        pos <= total,
        total == piece_tree@.len(),
    ensures
        end == scan_right(piece_tree@, pos as int, class),
        pos <= end <= total,
{
    let mut pos = pos;
    let ghost original = pos;
    proof { lemma_scan_right_bounds(piece_tree@, pos as int, class); }
    while pos < total
        invariant
            original <= pos <= total == piece_tree@.len(),
            scan_right(piece_tree@, pos as int, class) == scan_right(piece_tree@, original as int, class),
        ensures
            scan_right(piece_tree@, pos as int, class) == pos,
            scan_right(piece_tree@, pos as int, class) == scan_right(piece_tree@, original as int, class),
            original <= pos <= total,
        decreases total - pos,
    {
        match piece_tree.char_at(pos) {
            Some(ch) => {
                if classify(ch) != class {
                    break;
                }
            },
            None => {
                break;
            },
        }
        pos = pos + 1;
    }
    pos
}

/// Start of the previous word, skipping white space first then stopping at a
/// class transition.
pub fn find_word_boundary_left(piece_tree: &PieceTreeLite, index: usize) -> (pos: usize)
    ensures
        pos == word_boundary_left(piece_tree@, index as int),
        pos <= index,
        pos <= piece_tree@.len(),
{
    let len = piece_tree.len_chars();
    let mut pos = if index < len { index } else { len };
    pos = scan_left_while(piece_tree, pos, CharClass::Whitespace);
    if pos == 0 {
        return 0;
    }
    let class = class_before(piece_tree, pos);
    scan_left_while(piece_tree, pos, class)
}

/// Start of the next word: end of the run at the caret, then past white space.
pub fn find_word_boundary_right(piece_tree: &PieceTreeLite, index: usize) -> (pos: usize)
    ensures
        pos == word_boundary_right(piece_tree@, index as int),
        pos <= piece_tree@.len(),
        index <= piece_tree@.len() ==> index <= pos,
{
    let total = piece_tree.len_chars();
    let pos = if index < total { index } else { total };
    if pos >= total {
        return total;
    }
    let class = class_at(piece_tree, pos);
    let after_word = scan_right_while(piece_tree, pos, total, class);
    scan_right_while(piece_tree, after_word, total, CharClass::Whitespace)
}

/// Start of the word around `index`.
pub fn word_start(piece_tree: &PieceTreeLite, index: usize) -> (pos: usize)
    ensures
        pos == word_start_of(piece_tree@, index as int),
        pos <= index,
{
    let len = piece_tree.len_chars();
    let pos = if index < len { index } else { len };
    if pos == 0 {
        return 0;
    }
    let class = class_before(piece_tree, pos);
    scan_left_while(piece_tree, pos, class)
}

/// End of the word around `index`.
pub fn word_end(piece_tree: &PieceTreeLite, index: usize) -> (pos: usize)
    ensures
        pos == word_end_of(piece_tree@, index as int),
        pos <= piece_tree@.len(),
        index <= piece_tree@.len() ==> index <= pos,
{
    let total = piece_tree.len_chars();
    let pos = if index < total { index } else { total };
    if pos >= total {
        return total;
    }
    let class = class_at(piece_tree, pos);
    scan_right_while(piece_tree, pos, total, class)
}

/// The word boundary left of a position is not after it.
pub proof fn lemma_word_boundary_left_not_after(s: Seq<char>, index: int)
    requires
        0 <= index,
    ensures
        0 <= word_boundary_left(s, index) <= index,
{
    let c = clamp_to(s, index);
    lemma_scan_left_bounds(s, c, CharClass::Whitespace);
    let p = scan_left(s, c, CharClass::Whitespace);
    if p > 0 {
        lemma_scan_left_bounds(s, p, class_of(s[p - 1]));
    }
}

} // verus!

verus! {

proof fn lemma_scan_left_run(s: Seq<char>, pos: int, class: CharClass)
    requires
        0 <= pos <= s.len(),
    ensures
        0 <= scan_left(s, pos, class) <= pos,
        forall|k: int| scan_left(s, pos, class) <= k < pos ==> class_of(#[trigger] s[k]) == class,
        scan_left(s, pos, class) > 0 ==> class_of(s[scan_left(s, pos, class) - 1]) != class,
    decreases pos,
{
    if pos > 0 && class_of(s[pos - 1]) == class {
        lemma_scan_left_run(s, pos - 1, class);
    }
}

/// Word-wise movement to the left (Ctrl+Left, Ctrl+Backspace) first passes the
/// white space just before the caret and then the whole run of one character
/// class before that: with `c` the caret clamped to the text and `b` the
/// result, there is a point `p` such that `p..c` is white space, the character
/// before `p` is not, `b..p` is one non-empty run of that character's class
/// and the character before `b` is of another class. When only white space
/// precedes the caret, the result is the start of the text.
pub proof fn word_boundary_left_skips_space_then_run(s: Seq<char>, index: int)
    requires
        0 <= index,
    ensures
        ({
            let c = if index < s.len() { index } else { s.len() as int };
            let b = word_boundary_left(s, index);
            exists|p: int| #![trigger s[p - 1]] 0 <= b <= p <= c
                && (forall|k: int| p <= k < c ==> is_white_space(#[trigger] s[k]))
                && (p == 0 ==> b == 0)
                && (p > 0 ==> !is_white_space(s[p - 1]) && b < p
                    && (forall|k: int| b <= k < p ==> class_of(#[trigger] s[k]) == class_of(s[p - 1]))
                    && (b > 0 ==> class_of(s[b - 1]) != class_of(s[p - 1])))
        }),
{
    let c = clamp_to(s, index);
    lemma_scan_left_run(s, c, CharClass::Whitespace);
    let p = scan_left(s, c, CharClass::Whitespace);
    let b = word_boundary_left(s, index);
    assert forall|k: int| p <= k < c implies is_white_space(#[trigger] s[k]) by {
        assert(class_of(s[k]) == CharClass::Whitespace);
    }
    if p > 0 {
        lemma_scan_left_run(s, p, class_of(s[p - 1]));
        assert(class_of(s[p - 1]) != CharClass::Whitespace);
    }
    assert(0 <= b <= p <= c);
}

proof fn lemma_scan_right_run(s: Seq<char>, pos: int, class: CharClass)
    requires
        0 <= pos <= s.len(),
    ensures
        pos <= scan_right(s, pos, class) <= s.len(),
        forall|k: int| pos <= k < scan_right(s, pos, class) ==> class_of(#[trigger] s[k]) == class,
        scan_right(s, pos, class) < s.len() ==> class_of(s[scan_right(s, pos, class)]) != class,
    decreases s.len() - pos,
{
    if pos < s.len() && class_of(s[pos]) == class {
        lemma_scan_right_run(s, pos + 1, class);
    }
}

/// Word-wise movement to the right (Ctrl+Right, Ctrl+Delete) first passes the
/// whole run of the character class at the caret and then the white space
/// after it: with `c` the caret clamped to the text and `e` the result, there
/// is a point `q` such that `c..q` is one non-empty run of the class of the
/// character at `c`, the character at `q` (if any) is of another class,
/// `q..e` is white space and the character at `e` (if any) is not. At the end
/// of the text the result is the end of the text.
pub proof fn word_boundary_right_skips_run_then_space(s: Seq<char>, index: int)
    requires
        0 <= index,
    ensures
        ({
            let c = if index < s.len() { index } else { s.len() as int };
            let e = word_boundary_right(s, index);
            &&& c >= s.len() ==> e == s.len()
            &&& c < s.len() ==> exists|q: int| #![trigger s[q]] c < q <= e <= s.len()
                && (forall|k: int| c <= k < q ==> class_of(#[trigger] s[k]) == class_of(s[c]))
                && (q < s.len() ==> class_of(s[q]) != class_of(s[c]))
                && (forall|k: int| q <= k < e ==> is_white_space(#[trigger] s[k]))
                && (e < s.len() ==> !is_white_space(s[e]))
        }),
{
    let c = clamp_to(s, index);
    if c < s.len() {
        lemma_scan_right_run(s, c, class_of(s[c]));
        let q = scan_right(s, c, class_of(s[c]));
        lemma_scan_right_run(s, q, CharClass::Whitespace);
        let e = scan_right(s, q, CharClass::Whitespace);
        assert(e == word_boundary_right(s, index));
        assert forall|k: int| q <= k < e implies is_white_space(#[trigger] s[k]) by {
            assert(class_of(s[k]) == CharClass::Whitespace);
        }
        if e < s.len() {
            assert(class_of(s[e]) != CharClass::Whitespace);
        }
        assert(c < q);
    }
}

/// A double click selects the run of one character class around the caret:
/// `word_start_of` goes back over the run of the class of the character before
/// the caret, to the start of the text or to a character of another class, and
/// `word_end_of` goes forward over the run of the class of the character at
/// the caret, to the end of the text or to a character of another class.
pub proof fn word_start_and_end_bound_one_run(s: Seq<char>, index: int)
    requires
        0 <= index,
    ensures
        ({
            let c = if index < s.len() { index } else { s.len() as int };
            let b = word_start_of(s, index);
            let e = word_end_of(s, index);
            &&& c == 0 ==> b == 0
            &&& c > 0 ==> 0 <= b < c
                && (forall|k: int| b <= k < c ==> class_of(#[trigger] s[k]) == class_of(s[c - 1]))
                && (b > 0 ==> class_of(s[b - 1]) != class_of(s[c - 1]))
            &&& c >= s.len() ==> e == s.len()
            &&& c < s.len() ==> c < e <= s.len()
                && (forall|k: int| c <= k < e ==> class_of(#[trigger] s[k]) == class_of(s[c]))
                && (e < s.len() ==> class_of(s[e]) != class_of(s[c]))
        }),
{
    let c = clamp_to(s, index);
    if c > 0 {
        lemma_scan_left_run(s, c, class_of(s[c - 1]));
    }
    if c < s.len() {
        lemma_scan_right_run(s, c, class_of(s[c]));
    }
}

} // verus!
