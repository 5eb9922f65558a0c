//! Document text with its line table.
use vstd::prelude::*;
use crate::text::{chars_of, string_of};

verus! {

/// Start of every line of `s`: 0, and each position just after a line feed.
pub open spec fn line_starts(s: Seq<char>) -> Seq<usize>
    decreases s.len(),
{
    if s.len() == 0 {
        seq![0usize]
    } else {
        let prev = line_starts(s.drop_last());
        if s.last() == '\n' {
            prev.push(s.len() as usize)
        } else {
            prev
        }
    }
}

/// The last line of `starts` that begins at or before `offset`.
pub open spec fn line_of(starts: Seq<usize>, offset: int) -> int
    decreases starts.len(),
{
    if starts.len() <= 1 {
        0
    } else if starts.last() <= offset {
        starts.len() - 1
    } else {
        line_of(starts.drop_last(), offset)
    }
}

/// Line starts begin at 0, increase strictly and stay within the text.
pub open spec fn well_ordered_starts(starts: Seq<usize>, len: int) -> bool {
    &&& starts.len() >= 1
    &&& starts[0] == 0
    &&& forall|i: int, j: int| 0 <= i < j < starts.len() ==> starts[i] < starts[j]
    &&& forall|i: int| 0 <= i < starts.len() ==> starts[i] <= len
}

/// Number of line feeds in `s`.
pub open spec fn newline_count(s: Seq<char>) -> nat {
    (line_starts(s).len() - 1) as nat
}

/// Line of document position `offset` (clamped to the text).
pub open spec fn line_index_at(s: Seq<char>, offset: int) -> int {
    line_of(line_starts(s), if offset < s.len() { offset } else { s.len() as int })
}

/// First position of line `line`.
pub open spec fn line_start_of(s: Seq<char>, line: int) -> int {
    line_starts(s)[line] as int
}

/// Position just after line `line`, its line feed included.
pub open spec fn line_end_of(s: Seq<char>, line: int) -> int {
    if line + 1 < line_starts(s).len() { line_starts(s)[line + 1] as int } else { s.len() as int }
}

/// Line starts are increasing, there is one per line feed plus the first,
/// and each start after the first follows a line feed.
pub proof fn lemma_line_starts(s: Seq<char>)
    requires
        s.len() < usize::MAX,
    ensures
        well_ordered_starts(line_starts(s), s.len() as int),
        line_starts(s).len() <= s.len() + 1,
        forall|l: int| 1 <= l < line_starts(s).len() ==> s[line_starts(s)[l] - 1] == '\n',
        forall|p: int| 0 <= p < s.len() && s[p] == '\n' ==> exists|l: int| 1 <= l < line_starts(s).len() && line_starts(s)[l] == p + 1,
    decreases s.len(),
{
    if s.len() > 0 {
        let t = s.drop_last();
        lemma_line_starts(t);
        let prev = line_starts(t);
        assert forall|l: int| 1 <= l < prev.len() implies s[prev[l] - 1] == '\n' by {
            assert(s[prev[l] - 1] == t[prev[l] - 1]);
        }
        assert forall|p: int| 0 <= p < s.len() && s[p] == '\n' implies exists|l: int| 1 <= l < line_starts(s).len() && line_starts(s)[l] == p + 1 by {
            if p < t.len() {
                assert(t[p] == s[p]);
                let l = choose|l: int| 1 <= l < prev.len() && prev[l] == p + 1;
                assert(line_starts(s)[l] == p + 1);
            } else {
                assert(line_starts(s)[prev.len() as int] == p + 1);
            }
        }
    }
}

/// The line of an offset is a valid line whose start is at or before the
/// offset and whose successor starts after it.
pub proof fn lemma_line_of(starts: Seq<usize>, offset: int)
    requires
        starts.len() >= 1,
        starts[0] <= offset,
        forall|i: int, j: int| 0 <= i < j < starts.len() ==> starts[i] < starts[j],
    ensures
        0 <= line_of(starts, offset) < starts.len(),
        starts[line_of(starts, offset)] <= offset,
        line_of(starts, offset) + 1 < starts.len() ==> offset < starts[line_of(starts, offset) + 1],
    decreases starts.len(),
{
    if starts.len() > 1 && starts.last() > offset {
        lemma_line_of(starts.drop_last(), offset);
    }
}

/// Line and character measurements of a document.
pub struct PieceTreeMetrics {
    pub chars: usize,
    pub newlines: usize,
}

/// Where a line starts and how many characters it has, line feed included.
pub struct LineInfo {
    pub start_char: usize,
    pub char_len: usize,
}

/// Document text with its line table.
pub struct PieceTreeLite {
    chars: Vec<char>,
    starts: Vec<usize>,
}

impl View for PieceTreeLite {
    type V = Seq<char>;

    closed spec fn view(&self) -> Seq<char> {
        self.chars@
    }
}

impl PieceTreeLite {
    #[verifier::type_invariant]
    closed spec fn inv(self) -> bool {
        &&& self.chars@.len() < usize::MAX
        &&& self.starts@ == line_starts(self.chars@)
    }

    /// A document holding `chars`.
    pub fn from_chars(chars: Vec<char>) -> (tree: Self)
        requires
            chars@.len() < usize::MAX,
        ensures
            tree@ == chars@,
    {
        let mut starts: Vec<usize> = Vec::new();
        starts.push(0);
        let mut i: usize = 0;
        while i < chars.len()
            invariant
                i <= chars.len() < usize::MAX,
                starts@ == line_starts(chars@.take(i as int)),
            decreases chars.len() - i,
        {
            proof {
                assert(chars@.take(i + 1).drop_last() =~= chars@.take(i as int));
            }
            if chars[i] == '\n' {
                starts.push(i + 1);
            }
            i = i + 1;
        }
        proof {
            assert(chars@.take(i as int) =~= chars@);
        }
        PieceTreeLite { chars, starts }
    }

    /// A document holding the characters of `text`.
    pub fn from_string(text: String) -> (tree: Self)
        requires
            text@.len() < usize::MAX,
        ensures
            tree@ == text@,
    {
        PieceTreeLite::from_chars(chars_of(text.as_str()))
    }

    /// Number of characters.
    pub fn len_chars(&self) -> (n: usize)
        ensures
            n == self@.len(),
            n < usize::MAX,
            well_ordered_starts(line_starts(self@), n as int),
    {
        proof { use_type_invariant(self); lemma_line_starts(self@); }
        self.chars.len()
    }

    /// Character at `pos`, or `None` past the end.
    pub fn char_at(&self, pos: usize) -> (c: Option<char>)
        ensures
            c == (if pos < self@.len() { Some(self@[pos as int]) } else { None::<char> }),
    {
        if pos < self.chars.len() { Some(self.chars[pos]) } else { None }
    }

    /// Character and line-feed counts.
    pub fn metrics(&self) -> (m: PieceTreeMetrics)
        ensures
            m.chars == self@.len(),
            m.newlines == newline_count(self@),
            m.newlines <= m.chars < usize::MAX,
    {
        proof { use_type_invariant(self); lemma_line_starts(self@); }
        PieceTreeMetrics { chars: self.chars.len(), newlines: self.starts.len() - 1 }
    }

    /// Line holding document position `offset` (positions past the end count
    /// as the end); a line feed belongs to the line it ends.
    pub fn line_index_at_offset(&self, offset: usize) -> (line: usize)
        ensures
            line == line_index_at(self@, offset as int),
            line <= newline_count(self@),
            line_start_of(self@, line as int) <= offset,
            line_start_of(self@, line as int) <= self@.len(),
            offset < self@.len() ==> offset < line_end_of(self@, line as int),
            well_ordered_starts(line_starts(self@), self@.len() as int),
    {
        proof { use_type_invariant(self); lemma_line_starts(self@); }
        let off = if offset < self.chars.len() { offset } else { self.chars.len() };
        let mut l = self.starts.len() - 1;
        proof {
            assert(self.starts@.take(l + 1) =~= self.starts@);
        }
        while l > 0 && self.starts[l] > off
            invariant
                l < self.starts@.len(),
                self.starts@ == line_starts(self@),
                line_of(self.starts@.take(l + 1), off as int) == line_of(self.starts@, off as int),
            decreases l,
        {
            proof {
                assert(self.starts@.take(l + 1).drop_last() =~= self.starts@.take(l as int));
            }
            l = l - 1;
        }
        proof {
            lemma_line_of(self.starts@, off as int);
            if l > 0 {
                assert(self.starts@.take(l + 1).last() == self.starts@[l as int]);
            }
        }
        l
    }

    /// Start and length (line feed included) of line `line`.
    pub fn line_info(&self, line: usize) -> (info: LineInfo)
        requires
            line <= newline_count(self@),
        ensures
            info.start_char == line_start_of(self@, line as int),
            info.start_char + info.char_len == line_end_of(self@, line as int),
            info.start_char <= line_end_of(self@, line as int) <= self@.len() < usize::MAX,
    {
        proof { use_type_invariant(self); lemma_line_starts(self@); }
        let start = self.starts[line];
        let end = if line < self.starts.len() - 1 { self.starts[line + 1] } else { self.chars.len() };
        LineInfo { start_char: start, char_len: end - start }
    }

    /// The characters in `start..end`.
    pub fn extract_range(&self, range: std::ops::Range<usize>) -> (text: String)
        requires
            range.start <= range.end <= self@.len(),
        ensures
            text@ == self@.subrange(range.start as int, range.end as int),
    {
        let mut out: Vec<char> = Vec::new();
        let mut i = range.start;
        while i < range.end
            invariant
                range.start <= i <= range.end <= self@.len(),
                out@ == self@.subrange(range.start as int, i as int),
            decreases range.end - i,
        {
            out.push(self.chars[i]);
            i = i + 1;
            assert(out@ =~= self@.subrange(range.start as int, i as int));
        }
        string_of(out.as_slice())
    }

    /// The whole text.
    pub fn text(&self) -> (text: String)
        ensures
            text@ == self@,
    {
        string_of(self.chars.as_slice())
    }

    /// A document whose `start..end` is replaced by `inserted`.
    pub fn replaced(&self, start: usize, end: usize, inserted: &[char]) -> (tree: Self)
        requires
            start <= end <= self@.len(),
            self@.len() - (end - start) + inserted@.len() < usize::MAX,
        ensures
            tree@ == self@.subrange(0, start as int) + inserted@ + self@.subrange(end as int, self@.len() as int),
    {
        let mut out: Vec<char> = Vec::new();
        let mut i: usize = 0;
        while i < start
            invariant
                i <= start <= end <= self@.len(),
                out@ == self@.subrange(0, i as int),
            decreases start - i,
        {
            out.push(self.chars[i]);
            i = i + 1;
            assert(out@ =~= self@.subrange(0, i as int));
        }
        let mut k: usize = 0;
        while k < inserted.len()
            invariant
                k <= inserted@.len(),
                out@ == self@.subrange(0, start as int) + inserted@.take(k as int),
            decreases inserted.len() - k,
        {
            out.push(inserted[k]);
            k = k + 1;
            assert(out@ =~= self@.subrange(0, start as int) + inserted@.take(k as int));
        }
        assert(inserted@.take(k as int) =~= inserted@);
        let mut j = end;
        while j < self.chars.len()
            invariant
                end <= j <= self@.len(),
                self.chars@ == self@,
                out@ == self@.subrange(0, start as int) + inserted@ + self@.subrange(end as int, j as int),
            decreases self@.len() - j,
        {
            out.push(self.chars[j]);
            j = j + 1;
            assert(out@ =~= self@.subrange(0, start as int) + inserted@ + self@.subrange(end as int, j as int));
        }
        PieceTreeLite::from_chars(out)
    }
}

} // verus!
