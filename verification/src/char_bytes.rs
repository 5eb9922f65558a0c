//! Character offsets to UTF-8 byte offsets, for handing text ranges to a
//! layout engine that counts bytes.
use vstd::prelude::*;
use vstd::utf8::encode_utf8;
use crate::text::chars_of;

verus! {

/// `char::len_utf8` is the number of bytes the character takes in UTF-8.
pub assume_specification[ char::len_utf8 ](c: char) -> (n: usize)
    ensures
        n == encode_utf8(seq![c]).len(),
;

/// Byte offset, in the UTF-8 encoding of `s`, of the character at index `i`.
pub open spec fn byte_offset_of(s: Seq<char>, i: int) -> nat {
    encode_utf8(s.take(i)).len()
}

/// The byte offset of every character of `s`, then the length in bytes.
pub open spec fn byte_offsets(s: Seq<char>) -> Seq<nat> {
    Seq::new((s.len() + 1) as nat, |i: int| byte_offset_of(s, i))
}

/// Encoding a sequence with one more character appends that character's bytes.
pub proof fn lemma_encode_utf8_push(a: Seq<char>, c: char)
    ensures
        encode_utf8(a.push(c)) == encode_utf8(a) + encode_utf8(seq![c]),
    decreases a.len(),
{
    if a.len() == 0 {
        assert(a.push(c) =~= seq![c]);
        assert(encode_utf8(a) =~= Seq::<u8>::empty());
        assert(encode_utf8(a) + encode_utf8(seq![c]) =~= encode_utf8(seq![c]));
    } else {
        lemma_encode_utf8_push(a.drop_first(), c);
        assert(a.push(c).drop_first() =~= a.drop_first().push(c));
        assert(a.push(c)[0] == a[0]);
        let head = vstd::utf8::encode_scalar(a[0] as u32);
        assert(encode_utf8(a.push(c)) == head + encode_utf8(a.drop_first().push(c)));
        assert(head + (encode_utf8(a.drop_first()) + encode_utf8(seq![c]))
            =~= (head + encode_utf8(a.drop_first())) + encode_utf8(seq![c]));
    }
}

/// Byte offsets grow with the character index.
pub proof fn lemma_byte_offset_monotone(s: Seq<char>, i: int, j: int)
    requires
        0 <= i <= j <= s.len(),
    ensures
        byte_offset_of(s, i) <= byte_offset_of(s, j),
    decreases j - i,
{
    if i < j {
        lemma_byte_offset_monotone(s, i, j - 1);
        lemma_encode_utf8_push(s.take(j - 1), s[j - 1]);
        assert(s.take(j - 1).push(s[j - 1]) =~= s.take(j));
    }
}

/// An ASCII text has one byte per character.
pub proof fn lemma_ascii_byte_offset(s: Seq<char>, i: int)
    requires
        vstd::utf8::is_ascii_chars(s),
        0 <= i <= s.len(),
    ensures
        byte_offset_of(s, i) == i,
{
    let t = s.take(i);
    assert(vstd::utf8::is_ascii_chars(t));
    vstd::utf8::is_ascii_chars_encode_utf8(t);
}

/// The byte offset of each character of `text`, then its length in bytes.
pub fn char_to_byte_map(text: &str) -> (offsets: Vec<usize>)
    requires
        encode_utf8(text@).len() <= usize::MAX,
    ensures
        offsets@.len() == text@.len() + 1,
        forall|i: int| 0 <= i <= text@.len() ==> offsets@[i] == byte_offset_of(text@, i),
{
    let chars = chars_of(text);
    let mut offsets: Vec<usize> = Vec::new();
    let mut offset: usize = 0;
    let mut i: usize = 0;
    while i < chars.len()
        invariant
            chars@ == text@,
            encode_utf8(text@).len() <= usize::MAX,
            i <= chars@.len(),
            offsets@.len() == i,
            offset == byte_offset_of(text@, i as int),
            forall|k: int| 0 <= k < i ==> offsets@[k] == byte_offset_of(text@, k),
        decreases chars@.len() - i,
    {
        offsets.push(offset);
        let width = chars[i].len_utf8();
        proof {
            lemma_encode_utf8_push(text@.take(i as int), text@[i as int]);
            assert(text@.take(i as int).push(text@[i as int]) =~= text@.take(i + 1));
            lemma_byte_offset_monotone(text@, i + 1, text@.len() as int);
            assert(text@.take(text@.len() as int) =~= text@);
        }
        offset = offset + width;
        i = i + 1;
    }
    proof {
        assert(text@.take(text@.len() as int) =~= text@);
    }
    offsets.push(offset);
    offsets
}

/// Character index to byte offset lookup: the identity for ASCII text, a
/// table otherwise.
pub enum CharByteMap {
    Ascii { len: usize },
    Table(Vec<usize>),
}

impl CharByteMap {
    /// The byte offsets this lookup answers with, one per character index
    /// and one for the end.
    pub open spec fn offsets(&self) -> Seq<nat> {
        match self {
            CharByteMap::Ascii { len } => Seq::new((*len + 1) as nat, |i: int| i as nat),
            CharByteMap::Table(offsets) => offsets@.map_values(|o: usize| o as nat),
        }
    }

    /// The lookup for `text`; ASCII text needs no table.
    pub fn build(text: &str) -> (map: Self)
        requires
            encode_utf8(text@).len() <= usize::MAX,
        ensures
            map.offsets() =~= byte_offsets(text@),
            (map is Ascii) == vstd::utf8::is_ascii_chars(text@),
    {
        if text.is_ascii() {
            let len = text.len();
            proof {
                vstd::utf8::is_ascii_chars_encode_utf8(text@);
                assert forall|i: int| 0 <= i <= text@.len() implies byte_offset_of(text@, i) == i by {
                    lemma_ascii_byte_offset(text@, i);
                }
            }
            CharByteMap::Ascii { len }
        } else {
            CharByteMap::Table(char_to_byte_map(text))
        }
    }

    /// Number of characters.
    pub fn char_len(&self) -> (n: usize)
        ensures
            n == if self.offsets().len() > 0 { self.offsets().len() - 1 } else { 0 },
    {
        match self {
            CharByteMap::Ascii { len } => *len,
            CharByteMap::Table(offsets) => offsets.len().saturating_sub(1),
        }
    }

    /// Byte offset of the character at `char_index`; for ASCII text, the
    /// index itself.
    pub fn byte_offset(&self, char_index: usize) -> (offset: usize)
        requires
            self is Table ==> char_index < self.offsets().len(),
        ensures
            self is Ascii ==> offset == char_index,
            self is Table ==> offset == self.offsets()[char_index as int],
    {
        match self {
            CharByteMap::Ascii { .. } => char_index,
            CharByteMap::Table(offsets) => offsets[char_index],
        }
    }
}

} // verus!
