//! Text helpers: building strings from characters, trimming, decimal
//! formatting, and the text decoders the replies need.
use vstd::prelude::*;
use vstd::utf8::{valid_utf8, decode_utf8, encode_utf8, is_ascii_chars};

verus! {

/// Every byte is an ASCII byte.
pub open spec fn all_ascii(b: Seq<u8>) -> bool {
    forall|i: int| 0 <= i < b.len() ==> #[trigger] b[i] < 128
}

/// ASCII bytes read as characters.
pub open spec fn ascii_chars(b: Seq<u8>) -> Seq<char> {
    Seq::new(b.len(), |i: int| b[i] as char)
}

/// What `String::from_utf8_lossy` gives for the given bytes.
pub uninterp spec fn utf8_lossy(bytes: Seq<u8>) -> Seq<char>;

/// What GB18030 decoding (with BOM sniffing and replacement of malformed
/// sequences) gives for the given bytes, and whether any sequence was
/// malformed; `big5` selects the Big5 table instead.
pub uninterp spec fn decode_text(big5: bool, bytes: Seq<u8>) -> (Seq<char>, bool);

/// Calls `String::push`: appends one character.
#[verifier::external_body]
pub(crate) fn push_char(s: &mut String, c: char)
    ensures
        final(s)@ == old(s)@.push(c),
{
    s.push(c)
}

/// Calls `String::from_utf8_lossy`. The standard library documents that valid
/// UTF-8 comes back unchanged; ASCII bytes are valid UTF-8. Nothing is claimed
/// of invalid input beyond the name.
#[verifier::external_body]
pub(crate) fn lossy_utf8(bytes: &[u8]) -> (r: String)
    ensures
        r@ == utf8_lossy(bytes@),
        valid_utf8(bytes@) ==> r@ == decode_utf8(bytes@),
        all_ascii(bytes@) ==> r@ == ascii_chars(bytes@),
{
    String::from_utf8_lossy(bytes).into_owned()
}

/// Calls `encoding_rs::Encoding::decode` of GB18030 (or Big5). The crate's
/// documentation says that ASCII-only input to an ASCII-compatible encoding is
/// handed back unchanged and without errors; what else it gives is only named.
/// It panics when the output buffer size overflows `usize`, which `requires`
/// rules out.
#[verifier::external_body]
pub(crate) fn decode_bytes(big5: bool, bytes: &[u8]) -> (r: (String, bool))
    requires
        bytes@.len() * 3 + 8 <= usize::MAX,
    ensures
        (r.0@, r.1) == decode_text(big5, bytes@),
        all_ascii(bytes@) ==> r.0@ == ascii_chars(bytes@) && !r.1,
{
    let enc = if big5 { encoding_rs::BIG5 } else { encoding_rs::GB18030 };
    let (text, _, had_errors) = enc.decode(bytes);
    (text.into_owned(), had_errors)
}

/// What GB18030 (or Big5) encoding of the text gives, with unmappable
/// characters written as numeric character references, and whether any
/// was unmappable.
pub uninterp spec fn encode_text(big5: bool, text: Seq<char>) -> (Seq<u8>, bool);

/// Calls `encoding_rs::Encoding::encode` of GB18030 (or Big5). The crate's
/// source hands ASCII-only text back as its own bytes, without errors; what
/// else it gives is only named. The buffer size it computes must not
/// overflow, which `requires` keeps far away.
#[verifier::external_body]
pub(crate) fn encode_str(big5: bool, text: &str) -> (r: (Vec<u8>, bool))
    requires
        encode_utf8(text@).len() <= usize::MAX / 64,
    ensures
        (r.0@, r.1) == encode_text(big5, text@),
        is_ascii_chars(text@) ==> r.0@ == encode_utf8(text@) && !r.1,
{
    let enc = if big5 { encoding_rs::BIG5 } else { encoding_rs::GB18030 };
    let (bytes, _, had_errors) = enc.encode(text);
    (bytes.into_owned(), had_errors)
}

/// Calls `std::str::from_utf8`: the text of bytes that are valid UTF-8, and
/// nothing for other bytes.
#[verifier::external_body]
pub(crate) fn str_from_utf8(bytes: &[u8]) -> (r: Option<&str>)
    ensures
        r is Some <==> valid_utf8(bytes@),
        r is Some ==> r.unwrap()@ == decode_utf8(bytes@),
{
    std::str::from_utf8(bytes).ok()
}

/// The characters of a string slice.
pub fn to_chars(s: &str) -> (v: Vec<char>)
    ensures
        v@ == s@,
{
    let mut v: Vec<char> = Vec::new();
    for c in it: s.chars()
        invariant
            v@ == it.seq().take(it.index() as int),
    {
        v.push(c);
    }
    v
}

/// Appends characters to a string.
pub fn push_chars(s: &mut String, v: &[char])
    ensures
        final(s)@ == old(s)@ + v@,
{
    let mut i: usize = 0;
    while i < v.len()
        invariant
            i <= v.len(),
            s@ == old(s)@ + v@.take(i as int),
        decreases v.len() - i,
    {
        push_char(s, v[i]);
        assert(v@.take(i + 1) == v@.take(i as int).push(v@[i as int]));
        i = i + 1;
    }
    assert(v@.take(v.len() as int) == v@);
}

/// A string holding the given characters.
pub fn from_chars(v: &[char]) -> (s: String)
    ensures
        s@ == v@,
{
    let mut s = String::new();
    push_chars(&mut s, v);
    s
}

/// Appends the characters of a string slice.
pub fn push_str(s: &mut String, t: &str)
    ensures
        final(s)@ == old(s)@ + t@,
{
    let v = to_chars(t);
    push_chars(s, v.as_slice());
}

/// Unicode `White_Space`, the set that `char::is_whitespace` tests.
pub open spec fn is_white_space(c: char) -> bool {
    let u = c as u32;
    (0x09 <= u <= 0x0d) || u == 0x20 || u == 0x85 || u == 0xa0 || u == 0x1680
        || (0x2000 <= u <= 0x200a) || u == 0x2028 || u == 0x2029 || u == 0x202f
        || u == 0x205f || u == 0x3000
}

pub fn is_white_space_exec(c: char) -> (r: bool)
    ensures
        r == is_white_space(c),
{
    let u = c as u32;
    (0x09 <= u && u <= 0x0d) || u == 0x20 || u == 0x85 || u == 0xa0 || u == 0x1680
        || (0x2000 <= u && u <= 0x200a) || u == 0x2028 || u == 0x2029 || u == 0x202f
        || u == 0x205f || u == 0x3000
}

/// `s` begins with `p`.
pub open spec fn starts_with(s: Seq<char>, p: Seq<char>) -> bool {
    p.len() <= s.len() && s.take(p.len() as int) == p
}

/// `s` ends with `p`.
pub open spec fn ends_with(s: Seq<char>, p: Seq<char>) -> bool {
    p.len() <= s.len() && s.skip(s.len() - p.len()) == p
}

pub fn has_prefix(s: &[char], p: &[char]) -> (r: bool)
    ensures
        r == starts_with(s@, p@),
{
    if p.len() > s.len() {
        return false;
    }
    let mut i: usize = 0;
    while i < p.len()
        invariant
            i <= p@.len() <= s@.len(),
            forall|j: int| 0 <= j < i ==> s@[j] == p@[j],
        decreases p.len() - i,
    {
        if s[i] != p[i] {
            assert(s@.take(p@.len() as int)[i as int] != p@[i as int]);
            return false;
        }
        i = i + 1;
    }
    assert(s@.take(p@.len() as int) =~= p@);
    true
}

pub fn has_suffix(s: &[char], p: &[char]) -> (r: bool)
    ensures
        r == ends_with(s@, p@),
{
    if p.len() > s.len() {
        return false;
    }
    let off = s.len() - p.len();
    let mut i: usize = 0;
    while i < p.len()
        invariant
            off + p@.len() == s@.len(),
            s@.len() == s.len(),
            i <= p@.len(),
            forall|j: int| 0 <= j < i ==> s@[off + j] == p@[j],
        decreases p.len() - i,
    {
        if s[off + i] != p[i] {
            assert(s@.skip(off as int)[i as int] != p@[i as int]);
            return false;
        }
        i = i + 1;
    }
    assert(s@.skip(off as int) =~= p@);
    true
}

/// ASCII upper-case letters mapped to lower case, other characters kept.
pub open spec fn ascii_lower(c: char) -> char {
    if 'A' <= c <= 'Z' { ((c as u32) + 32) as char } else { c }
}

pub open spec fn ascii_lowercase(s: Seq<char>) -> Seq<char> {
    s.map_values(|c: char| ascii_lower(c))
}

pub fn ascii_lowercase_exec(s: &[char]) -> (r: Vec<char>)
    ensures
        r@ == ascii_lowercase(s@),
{
    let mut r: Vec<char> = Vec::new();
    let mut i: usize = 0;
    while i < s.len()
        invariant
            i <= s@.len(),
            r@ == ascii_lowercase(s@.take(i as int)),
        decreases s.len() - i,
    {
        let c = s[i];
        let l = if 'A' <= c && c <= 'Z' { ((c as u32) + 32) as u8 as char } else { c };
        assert(ascii_lowercase(s@.take(i + 1)) =~= ascii_lowercase(s@.take(i as int)).push(ascii_lower(c)));
        r.push(l);
        i = i + 1;
    }
    assert(s@.take(s@.len() as int) == s@);
    r
}

/// Number of leading white-space characters.
pub open spec fn lead_ws(s: Seq<char>) -> int
    decreases s.len(),
{
    if s.len() > 0 && is_white_space(s[0]) { 1 + lead_ws(s.drop_first()) } else { 0 }
}

/// Number of trailing white-space characters.
pub open spec fn trail_ws(s: Seq<char>) -> int
    decreases s.len(),
{
    if s.len() > 0 && is_white_space(s.last()) { 1 + trail_ws(s.drop_last()) } else { 0 }
}

/// `str::trim`: the text without leading and trailing white space.
pub open spec fn trim(s: Seq<char>) -> Seq<char> {
    let a = s.skip(lead_ws(s));
    a.take(a.len() - trail_ws(a))
}

pub proof fn lemma_lead_ws_bound(s: Seq<char>)
    ensures
        0 <= lead_ws(s) <= s.len(),
    decreases s.len(),
{
    if s.len() > 0 && is_white_space(s[0]) {
        lemma_lead_ws_bound(s.drop_first());
    }
}

pub proof fn lemma_trail_ws_bound(s: Seq<char>)
    ensures
        0 <= trail_ws(s) <= s.len(),
    decreases s.len(),
{
    if s.len() > 0 && is_white_space(s.last()) {
        lemma_trail_ws_bound(s.drop_last());
    }
}

/// The characters of `str::trim` of the text.
pub fn trim_exec(t: &str) -> (r: Vec<char>)
    ensures
        r@ == trim(t@),
{
    let v = to_chars(t);
    let mut lo: usize = 0;
    proof { lemma_lead_ws_bound(v@); }
    assert(v@.skip(0) == v@);
    while lo < v.len() && is_white_space_exec(v[lo])
        invariant
            lo <= v@.len(),
            lo + lead_ws(v@.skip(lo as int)) == lead_ws(v@),
        decreases v.len() - lo,
    {
        assert(v@.skip(lo as int).drop_first() == v@.skip(lo + 1));
        lo = lo + 1;
    }
    assert(lead_ws(v@.skip(lo as int)) == 0);
    let ghost a = v@.skip(lo as int);
    let mut hi: usize = v.len();
    proof { lemma_trail_ws_bound(a); }
    assert(a.take(a.len() as int) == a);
    while hi > lo && is_white_space_exec(v[hi - 1])
        invariant
            lo <= hi <= v@.len(),
            a == v@.skip(lo as int),
            trail_ws(a) == (a.len() - (hi - lo)) + trail_ws(a.take(hi - lo)),
        decreases hi,
    {
        assert(a.take(hi - lo).drop_last() == a.take(hi - lo - 1));
        assert(a.take(hi - lo).last() == v@[hi - 1]);
        hi = hi - 1;
    }
    assert(trail_ws(a.take(hi - lo)) == 0);
    let mut r: Vec<char> = Vec::new();
    let mut i = lo;
    while i < hi
        invariant
            lo <= i <= hi <= v@.len(),
            r@ == v@.subrange(lo as int, i as int),
        decreases hi - i,
    {
        r.push(v[i]);
        assert(v@.subrange(lo as int, i + 1) == v@.subrange(lo as int, i as int).push(v@[i as int]));
        i = i + 1;
    }
    assert(a.take(hi - lo) =~= v@.subrange(lo as int, hi as int));
    r
}

/// The sequence without its trailing `'\0'` characters.
pub open spec fn trim_end_nul(s: Seq<char>) -> Seq<char>
    decreases s.len(),
{
    if s.len() > 0 && s.last() == '\0' {
        trim_end_nul(s.drop_last())
    } else {
        s
    }
}

/// Removes trailing `'\0'` characters, as `str::trim_end_matches('\0')` does.
pub fn trim_end_nul_exec(s: &String) -> (r: String)
    ensures
        r@ == trim_end_nul(s@),
{
    let v = to_chars(s.as_str());
    let mut n = v.len();
    assert(v@.take(n as int) == v@);
    while n > 0 && v[n - 1] == '\0'
        invariant
            n <= v.len(),
            trim_end_nul(v@.take(n as int)) == trim_end_nul(v@),
        decreases n,
    {
        assert(v@.take(n as int).drop_last() == v@.take(n - 1));
        n = n - 1;
    }
    assert(v@.take(n as int) == v@.subrange(0, n as int));
    from_char_range(v.as_slice(), 0, n)
}

/// A string holding `v[lo..hi]`.
pub fn from_char_range(v: &[char], lo: usize, hi: usize) -> (s: String)
    requires
        lo <= hi <= v@.len(),
    ensures
        s@ == v@.subrange(lo as int, hi as int),
{
    let mut s = String::new();
    let mut i: usize = lo;
    while i < hi
        invariant
            lo <= i <= hi <= v@.len(),
            s@ == v@.subrange(lo as int, i as int),
        decreases hi - i,
    {
        push_char(&mut s, v[i]);
        assert(v@.subrange(lo as int, i + 1) == v@.subrange(lo as int, i as int).push(v@[i as int]));
        i = i + 1;
    }
    s
}

} // verus!
