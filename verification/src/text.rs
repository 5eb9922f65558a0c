//! Character-sequence helpers shared by the editor modules.
use vstd::prelude::*;

verus! {

/// `String::push` appends one character to the end of the string.
pub assume_specification[ String::push ](s: &mut String, ch: char)
    ensures
        final(s)@ == old(s)@.push(ch),
;

/// `char::is_control` holds exactly for the Unicode general category Cc,
/// which is U+0000..=U+001F and U+007F..=U+009F.
pub assume_specification[ char::is_control ](c: char) -> (r: bool)
    ensures
        r == is_cc(c),
;

/// The Unicode general category Cc (control codes).
pub open spec fn is_cc(c: char) -> bool {
    (c as u32) < 0x20 || (0x7f <= (c as u32) && (c as u32) < 0xa0)
}

/// The characters of a string slice, in order.
pub fn chars_of(s: &str) -> (v: Vec<char>)
    ensures
        v@ == s@,
{
    let mut v: Vec<char> = Vec::new();
    for c in it: s.chars()
        invariant
            v@ == it.seq().take(it.index() as int),
    {
        v.push(c);
    }
    v
}

/// Appends every character of `chars` to `out`.
pub fn push_chars(out: &mut String, chars: &[char])
    ensures
        final(out)@ == old(out)@ + chars@,
{
    let mut i: usize = 0;
    while i < chars.len()
        invariant
            i <= chars.len(),
            out@ == old(out)@ + chars@.take(i as int),
        decreases chars.len() - i,
    {
        out.push(chars[i]);
        i = i + 1;
        assert(out@ =~= old(out)@ + chars@.take(i as int));
    }
    assert(chars@.take(i as int) =~= chars@);
}

/// A string holding exactly the given characters.
pub fn string_of(chars: &[char]) -> (s: String)
    ensures
        s@ == chars@,
{
    let mut s = String::new();
    push_chars(&mut s, chars);
    s
}

/// Appends the characters of a string slice to `out`.
pub fn push_str(out: &mut String, text: &str)
    ensures
        final(out)@ == old(out)@ + text@,
{
    let chars = chars_of(text);
    push_chars(out, chars.as_slice());
}

/// The ASCII digit for a value below ten.
pub open spec fn digit_char(d: nat) -> char {
    ((48 + d) as u32) as char
}

/// Decimal notation of a natural number, most significant digit first.
pub open spec fn decimal(n: nat) -> Seq<char>
    decreases n,
{
    if n < 10 {
        seq![digit_char(n)]
    } else {
        decimal(n / 10).push(digit_char(n % 10))
    }
}

fn digit(d: usize) -> (c: char)
    requires
        d < 10,
    ensures
        c == digit_char(d as nat),
{
    match d {
        0 => '0',
        1 => '1',
        2 => '2',
        3 => '3',
        4 => '4',
        5 => '5',
        6 => '6',
        7 => '7',
        8 => '8',
        _ => '9',
    }
}

/// Appends the decimal notation of `n` to `out`.
pub fn push_decimal(out: &mut String, n: usize)
    ensures
        final(out)@ == old(out)@ + decimal(n as nat),
    decreases n,
{
    if n >= 10 {
        push_decimal(out, n / 10);
    }
    out.push(digit(n % 10));
    assert(out@ =~= old(out)@ + decimal(n as nat));
}

} // verus!

verus! {

/// Whether a code point is a Unicode scalar value, i.e. a valid `char`.
pub open spec fn is_scalar_value(i: u32) -> bool {
    i < 0xD800 || (0xE000 <= i && i <= 0x10FFFF)
}

/// `char::from_u32` gives the character for a Unicode scalar value and `None`
/// for surrogates and values above U+10FFFF.
pub assume_specification[ core::char::from_u32 ](i: u32) -> (r: Option<char>)
    ensures
        r == (if is_scalar_value(i) { Some(i as char) } else { None::<char> }),
;

} // verus!

verus! {

/// The Unicode White_Space property.
pub open spec fn is_white_space(c: char) -> bool {
    let u = c as u32;
    (0x09 <= u && u <= 0x0D) || u == 0x20 || u == 0x85 || u == 0xA0 || u == 0x1680
        || (0x2000 <= u && u <= 0x200A) || u == 0x2028 || u == 0x2029 || u == 0x202F
        || u == 0x205F || u == 0x3000
}

/// `char::is_whitespace` holds exactly for characters with the White_Space property.
pub assume_specification[ char::is_whitespace ](c: char) -> (r: bool)
    ensures
        r == is_white_space(c),
;

/// Whether a character is alphabetic or numeric in Unicode, as
/// `char::is_alphanumeric` reports it.
pub uninterp spec fn alphanumeric(c: char) -> bool;

/// `char::is_alphanumeric` reports the Unicode Alphabetic or Numeric
/// property; the tables are not restated here, the result is named. Among
/// ASCII characters those are exactly the letters and the digits.
pub assume_specification[ char::is_alphanumeric ](c: char) -> (r: bool)
    ensures
        r == alphanumeric(c),
        (c as u32) < 0x80 ==> (r <==> (('a' <= c && c <= 'z') || ('A' <= c && c <= 'Z') || ('0' <= c && c <= '9'))),
;

} // verus!

verus! {

/// A string holding `chars[start..end]`.
pub fn string_of_range(chars: &[char], start: usize, end: usize) -> (s: String)
    requires
        start <= end <= chars@.len(),
    ensures
        s@ == chars@.subrange(start as int, end as int),
{
    let mut s = String::new();
    let mut i = start;
    while i < end
        invariant
            start <= i <= end <= chars@.len(),
            s@ == chars@.subrange(start as int, i as int),
        decreases end - i,
    {
        s.push(chars[i]);
        i = i + 1;
        assert(s@ =~= chars@.subrange(start as int, i as int));
    }
    s
}

} // verus!

verus! {

/// Appends every character of `chars` to `out`.
pub fn append_chars(out: &mut Vec<char>, chars: &Vec<char>)
    ensures
        final(out)@ == old(out)@ + chars@,
{
    let mut i: usize = 0;
    while i < chars.len()
        invariant
            i <= chars.len(),
            out@ == old(out)@ + chars@.take(i as int),
        decreases chars.len() - i,
    {
        out.push(chars[i]);
        i = i + 1;
        assert(out@ =~= old(out)@ + chars@.take(i as int));
    }
    assert(chars@.take(i as int) =~= chars@);
}

/// A fresh string with the same characters.
pub fn string_of_chars_of(s: &String) -> (copy: String)
    ensures
        copy@ == s@,
{
    let chars = chars_of(s.as_str());
    string_of(chars.as_slice())
}

} // verus!
