//! Character-level helpers on `str` and `String` shared by the library.

use vstd::prelude::*;
use vstd::string::*;

verus! {

/// The characters with the Unicode `White_Space` property.
pub open spec fn is_white_space(c: char) -> bool {
    ||| ('\u{9}' <= c && c <= '\u{d}')
    ||| c == ' '
    ||| c == '\u{85}'
    ||| c == '\u{a0}'
    ||| c == '\u{1680}'
    ||| ('\u{2000}' <= c && c <= '\u{200a}')
    ||| c == '\u{2028}'
    ||| c == '\u{2029}'
    ||| c == '\u{202f}'
    ||| c == '\u{205f}'
    ||| c == '\u{3000}'
}

/// `s` without its leading white space.
pub open spec fn trim_start_chars(s: Seq<char>) -> Seq<char>
    decreases s.len(),
{
    if s.len() > 0 && is_white_space(s[0]) {
        trim_start_chars(s.drop_first())
    } else {
        s
    }
}

/// `s` without its trailing white space.
pub open spec fn trim_end_chars(s: Seq<char>) -> Seq<char>
    decreases s.len(),
{
    if s.len() > 0 && is_white_space(s.last()) {
        trim_end_chars(s.drop_last())
    } else {
        s
    }
}

/// `s` without leading and trailing white space.
pub open spec fn trim_chars(s: Seq<char>) -> Seq<char> {
    trim_end_chars(trim_start_chars(s))
}

/// Decimal digits of `n`, most significant first, without sign or padding.
pub open spec fn decimal(n: nat) -> Seq<char>
    decreases n,
{
    if n < 10 {
        seq![digit_char(n)]
    } else {
        decimal(n / 10).push(digit_char(n % 10))
    }
}

pub open spec fn digit_char(d: nat) -> char {
    if d == 0 { '0' }
    else if d == 1 { '1' }
    else if d == 2 { '2' }
    else if d == 3 { '3' }
    else if d == 4 { '4' }
    else if d == 5 { '5' }
    else if d == 6 { '6' }
    else if d == 7 { '7' }
    else if d == 8 { '8' }
    else { '9' }
}

/// `prefix` is a prefix of `s`.
pub open spec fn has_prefix(s: Seq<char>, prefix: Seq<char>) -> bool {
    prefix.len() <= s.len() && s.subrange(0, prefix.len() as int) == prefix
}

/// `needle` occurs somewhere in `s`.
pub open spec fn contains_chars(s: Seq<char>, needle: Seq<char>) -> bool {
    exists|i: int| 0 <= i && i + needle.len() <= s.len() && #[trigger] s.subrange(i, i + needle.len()) == needle
}

/// Whether `needle` occurs in `s`.
pub fn str_contains(s: &str, needle: &str) -> (b: bool)
    ensures
        b == contains_chars(s@, needle@),
{
    let sv = chars_of(s);
    let nv = chars_of(needle);
    if nv.len() > sv.len() {
        assert forall|i: int| 0 <= i && i + needle@.len() <= s@.len() implies #[trigger] s@.subrange(i, i + needle@.len()) != needle@ by {}
        return false;
    }
    let last = sv.len() - nv.len();
    let mut i: usize = 0;
    while i <= last
        invariant
            sv@ == s@,
            nv@ == needle@,
            nv.len() <= sv.len(),
            last == sv.len() - nv.len(),
            i <= last + 1,
            forall|k: int| 0 <= k < i ==> #[trigger] s@.subrange(k, k + needle@.len()) != needle@,
        decreases last + 1 - i,
    {
        let mut j: usize = 0;
        let mut same = true;
        while j < nv.len()
            invariant
                sv@ == s@,
                nv@ == needle@,
                i + nv@.len() <= sv@.len(),
                j <= nv@.len(),
                same == forall|q: int| 0 <= q < j ==> sv@[i + q] == nv@[q],
            decreases nv@.len() - j,
        {
            assert(i + j < sv.len());
            let k: usize = i + j;
            if sv[k] != nv[j] {
                same = false;
            }
            j = j + 1;
        }
        if same {
            assert(s@.subrange(i as int, i + needle@.len()) =~= needle@);
            return true;
        }
        assert(s@.subrange(i as int, i + needle@.len()) != needle@) by {
            let q = choose|q: int| 0 <= q < nv@.len() && sv@[i + q] != nv@[q];
            assert(s@.subrange(i as int, i + needle@.len())[q] != needle@[q]);
        }
        i = i + 1;
    }
    false
}

/// Removes leading and trailing white space, as `str::trim` does.
#[verifier::external_body]
pub(crate) fn trim(s: &str) -> (r: &str)
    ensures
        r@ == trim_chars(s@),
{
    s.trim()
}

/// Appends one character, as `String::push` does.
#[verifier::external_body]
pub(crate) fn push_char(s: &mut String, c: char)
    ensures
        final(s)@ == old(s)@.push(c),
{
    s.push(c)
}

/// A fresh `String` with the characters of `s`.
pub fn owned(s: &str) -> (r: String)
    ensures
        r@ == s@,
{
    String::from_str(s)
}

/// The characters of `s`, in order.
pub fn chars_of(s: &str) -> (v: Vec<char>)
    ensures
        v@ == s@,
{
    let mut v: Vec<char> = Vec::new();
    for c in it: s.chars()
        invariant
            v@ == it.seq().take(it.index() as int),
            it.seq() == s@,
    {
        v.push(c);
    }
    v
}

/// Whether two strings hold the same characters.
pub fn str_eq(a: &str, b: &str) -> (r: bool)
    ensures
        r == (a@ == b@),
{
    let x = String::from_str(a);
    let y = String::from_str(b);
    x == y
}

/// Whether `s` starts with `prefix`.
pub fn starts_with(s: &str, prefix: &str) -> (r: bool)
    ensures
        r == has_prefix(s@, prefix@),
{
    let sv = chars_of(s);
    let pv = chars_of(prefix);
    if pv.len() > sv.len() {
        return false;
    }
    let mut i: usize = 0;
    while i < pv.len()
        invariant
            pv@ == prefix@,
            sv@ == s@,
            pv.len() <= sv.len(),
            i <= pv.len(),
            forall|j: int| 0 <= j < i ==> sv@[j] == pv@[j],
        decreases pv.len() - i,
    {
        if sv[i] != pv[i] {
            assert(s@.subrange(0, prefix@.len() as int)[i as int] != prefix@[i as int]);
            return false;
        }
        i = i + 1;
    }
    assert(s@.subrange(0, prefix@.len() as int) =~= prefix@);
    true
}

/// Decimal representation of `n`, as `Display` writes it.
pub fn decimal_string(n: u64) -> (r: String)
    ensures
        r@ == decimal(n as nat),
    decreases n,
{
    let d = n % 10;
    let c = if d == 0 { '0' } else if d == 1 { '1' } else if d == 2 { '2' } else if d == 3 { '3' }
        else if d == 4 { '4' } else if d == 5 { '5' } else if d == 6 { '6' } else if d == 7 { '7' }
        else if d == 8 { '8' } else { '9' };
    if n < 10 {
        let mut s = String::new();
        push_char(&mut s, c);
        assert(s@ =~= seq![c]);
        s
    } else {
        let mut s = decimal_string(n / 10);
        push_char(&mut s, c);
        s
    }
}

} // verus!

verus! {

/// Length in bytes of the UTF-8 encoding of `s`.
pub open spec fn byte_len(s: Seq<char>) -> nat {
    vstd::utf8::encode_utf8(s).len()
}

/// Length in bytes of `s`, as `str::len` gives it.
pub fn str_byte_len(s: &str) -> (n: usize)
    ensures
        n == byte_len(s@),
{
    s.as_bytes().len()
}

} // verus!

verus! {

/// The characters encoded by bytes `start..end` of `bytes`.
pub open spec fn span_text(bytes: Seq<u8>, start: int, end: int) -> Seq<char> {
    vstd::utf8::decode_utf8(bytes.subrange(start, end))
}

/// A character boundary of a valid UTF-8 text is also one of its suffix
/// starting at an earlier boundary, and that suffix is valid UTF-8.
pub proof fn lemma_suffix_boundary(bytes: Seq<u8>, a: int, b: int)
    requires
        vstd::utf8::valid_utf8(bytes),
        0 <= a <= b <= bytes.len(),
        vstd::utf8::is_char_boundary(bytes, a),
        vstd::utf8::is_char_boundary(bytes, b),
    ensures
        vstd::utf8::valid_utf8(bytes.subrange(a, bytes.len() as int)),
        vstd::utf8::is_char_boundary(bytes.subrange(a, bytes.len() as int), b - a),
{
    let t = bytes.subrange(a, bytes.len() as int);
    vstd::utf8::valid_utf8_split(bytes, a);
    if b == bytes.len() {
        vstd::utf8::is_char_boundary_start_end_of_seq(t);
    } else {
        vstd::utf8::is_char_boundary_iff_not_is_continuation_byte(bytes, b);
        assert(t[b - a] == bytes[b]);
        vstd::utf8::is_char_boundary_iff_not_is_continuation_byte(t, b - a);
    }
}

/// The bytes between two character boundaries of a valid UTF-8 text are
/// valid UTF-8, so decoding and re-encoding them gives them back.
pub proof fn lemma_span_roundtrip(bytes: Seq<u8>, a: int, b: int)
    requires
        vstd::utf8::valid_utf8(bytes),
        0 <= a <= b <= bytes.len(),
        vstd::utf8::is_char_boundary(bytes, a),
        vstd::utf8::is_char_boundary(bytes, b),
    ensures
        vstd::utf8::valid_utf8(bytes.subrange(a, b)),
        vstd::utf8::encode_utf8(span_text(bytes, a, b)) == bytes.subrange(a, b),
        byte_len(span_text(bytes, a, b)) == b - a,
{
    let t = bytes.subrange(a, bytes.len() as int);
    lemma_suffix_boundary(bytes, a, b);
    vstd::utf8::valid_utf8_split(t, b - a);
    assert(t.subrange(0, b - a) =~= bytes.subrange(a, b));
    vstd::utf8::decode_utf8_encode_utf8(bytes.subrange(a, b));
}

/// The part of `text` between byte offsets `start` and `end`.
pub fn byte_slice<'a>(text: &'a str, start: usize, end: usize) -> (r: &'a str)
    requires
        start <= end <= text.spec_bytes().len(),
        vstd::utf8::is_char_boundary(text.spec_bytes(), start as int),
        vstd::utf8::is_char_boundary(text.spec_bytes(), end as int),
    ensures
        r.spec_bytes() == text.spec_bytes().subrange(start as int, end as int),
        r@ == span_text(text.spec_bytes(), start as int, end as int),
{
    proof {
        vstd::utf8::encode_utf8_valid_utf8(text@);
        lemma_suffix_boundary(text.spec_bytes(), start as int, end as int);
    }
    let (_, tail) = text.split_at(start);
    let (piece, _) = tail.split_at(end - start);
    proof {
        assert(piece.spec_bytes() =~= text.spec_bytes().subrange(start as int, end as int));
        vstd::utf8::encode_utf8_decode_utf8(piece@);
    }
    piece
}

} // verus!

verus! {

/// The views of a list of strings.
pub open spec fn strings_view(v: Seq<String>) -> Seq<Seq<char>> {
    v.map_values(|s: String| s@)
}

/// A copy of a list of strings.
pub fn clone_strings(v: &Vec<String>) -> (r: Vec<String>)
    ensures
        strings_view(r@) == strings_view(v@),
{
    let mut r: Vec<String> = Vec::new();
    for i in 0..v.len()
        invariant
            strings_view(r@) == strings_view(v@.take(i as int)),
    {
        let ghost old_r = r@;
        let c = v[i].clone();
        r.push(c);
        assert(r@ == old_r.push(c));
        assert(v@.take(i + 1) =~= v@.take(i as int).push(v@[i as int]));
        assert(strings_view(r@) =~= strings_view(old_r).push(c@));
        assert(strings_view(r@) =~= strings_view(v@.take(i + 1)));
    }
    assert(v@.take(v@.len() as int) =~= v@);
    r
}

/// Whether `v` holds a string equal to `s`.
pub fn contains_str(v: &Vec<String>, s: &str) -> (b: bool)
    ensures
        b == strings_view(v@).contains(s@),
{
    let mut i: usize = 0;
    while i < v.len()
        invariant
            i <= v@.len(),
            forall|j: int| 0 <= j < i ==> v@[j]@ != s@,
        decreases v@.len() - i,
    {
        if str_eq(v[i].as_str(), s) {
            assert(strings_view(v@)[i as int] == s@);
            return true;
        }
        i = i + 1;
    }
    proof {
        if strings_view(v@).contains(s@) {
            let j = choose|j: int| 0 <= j < strings_view(v@).len() && strings_view(v@)[j] == s@;
            assert(v@[j]@ == s@);
        }
    }
    false
}

/// A copy of an optional string.
pub fn clone_opt_string(s: &Option<String>) -> (r: Option<String>)
    ensures
        opt_view(r) == opt_view(*s),
{
    match s {
        Some(x) => Some(x.clone()),
        None => None,
    }
}

/// The view of an optional string.
pub open spec fn opt_view(s: Option<String>) -> Option<Seq<char>> {
    match s {
        Some(x) => Some(x@),
        None => None,
    }
}

} // verus!
