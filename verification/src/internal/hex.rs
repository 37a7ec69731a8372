//! Hex text of byte arrays, such as `"01 0A"`.
use vstd::prelude::*;
use crate::internal::text::{push_char, to_chars, is_white_space, is_white_space_exec};

verus! {

/// Length of the UTF-8 encoding of `c`.
pub open spec fn utf8_width(c: char) -> int {
    let u = c as u32;
    if u < 0x80 { 1 } else if u < 0x800 { 2 } else if u < 0x10000 { 3 } else { 4 }
}

/// Length in bytes of the UTF-8 encoding of `s`.
pub open spec fn utf8_len(s: Seq<char>) -> int
    decreases s.len(),
{
    if s.len() == 0 { 0 } else { utf8_len(s.drop_last()) + utf8_width(s.last()) }
}

/// The characters that are not white space.
pub open spec fn strip_white_space(s: Seq<char>) -> Seq<char> {
    s.filter(|c: char| !is_white_space(c))
}

/// Value of a hex digit, upper or lower case.
pub open spec fn hex_digit(c: char) -> Option<u8> {
    if '0' <= c <= '9' {
        Some((c as u32 - '0' as u32) as u8)
    } else if 'a' <= c <= 'f' {
        Some((c as u32 - 'a' as u32 + 10) as u8)
    } else if 'A' <= c <= 'F' {
        Some((c as u32 - 'A' as u32 + 10) as u8)
    } else {
        None
    }
}

/// Value of a two-character text read as a base-16 `u8`: two hex digits, or a
/// `'+'` sign and one digit.
pub open spec fn hex_pair(c0: char, c1: char) -> Option<u8> {
    if c0 == '+' {
        hex_digit(c1)
    } else {
        match (hex_digit(c0), hex_digit(c1)) {
            (Some(h), Some(l)) => Some((h * 16 + l) as u8),
            _ => None,
        }
    }
}

/// Outcome of reading hex pairs from `s[k..]` (no white space left), where
/// every pair before `k` was two ASCII characters: `None` for a text that is
/// not hex, `Some(None)` where cutting the text at an odd byte would split a
/// character, and `Some(Some(bytes))` for the bytes.
pub open spec fn hex_pairs(s: Seq<char>, k: int) -> Option<Option<Seq<u8>>>
    decreases s.len() - k,
{
    if k < 0 || k >= s.len() {
        Some(Some(Seq::empty()))
    } else {
        let c0 = s[k];
        if (c0 as u32) < 0x80 {
            if k + 1 >= s.len() || (s[k + 1] as u32) >= 0x80 {
                Some(None)
            } else {
                match hex_pair(c0, s[k + 1]) {
                    Some(b) => match hex_pairs(s, k + 2) {
                        Some(Some(rest)) => Some(Some(seq![b] + rest)),
                        other => other,
                    },
                    None => None,
                }
            }
        } else if utf8_width(c0) == 2 {
            None
        } else {
            Some(None)
        }
    }
}

/// Whether reading the text as hex would cut a character apart, which the
/// reader does not survive.
pub open spec fn hex_splits_char(text: Seq<char>) -> bool {
    let f = strip_white_space(text);
    utf8_len(f) % 2 == 0 && hex_pairs(f, 0) == Some(None::<Seq<u8>>)
}

/// The bytes that a hex text stands for: white space is ignored, an odd
/// number of bytes or a pair that is not hex gives `None`.
pub open spec fn spec_hex_to_bytes(text: Seq<char>) -> Option<Seq<u8>> {
    let f = strip_white_space(text);
    if utf8_len(f) % 2 != 0 {
        None
    } else {
        match hex_pairs(f, 0) {
            Some(Some(b)) => Some(b),
            _ => None,
        }
    }
}

fn hex_digit_exec(c: char) -> (r: Option<u8>)
    ensures
        r == hex_digit(c),
{
    if '0' <= c && c <= '9' {
        Some((c as u32 - '0' as u32) as u8)
    } else if 'a' <= c && c <= 'f' {
        Some((c as u32 - 'a' as u32 + 10) as u8)
    } else if 'A' <= c && c <= 'F' {
        Some((c as u32 - 'A' as u32 + 10) as u8)
    } else {
        None
    }
}

fn hex_pair_exec(c0: char, c1: char) -> (r: Option<u8>)
    ensures
        r == hex_pair(c0, c1),
{
    if c0 == '+' {
        hex_digit_exec(c1)
    } else {
        match (hex_digit_exec(c0), hex_digit_exec(c1)) {
            (Some(h), Some(l)) => Some(h * 16 + l),
            _ => None,
        }
    }
}

fn utf8_width_exec(c: char) -> (r: usize)
    ensures
        r == utf8_width(c),
{
    let u = c as u32;
    if u < 0x80 { 1 } else if u < 0x800 { 2 } else if u < 0x10000 { 3 } else { 4 }
}

proof fn lemma_utf8_len_push(s: Seq<char>, c: char)
    ensures
        utf8_len(s.push(c)) == utf8_len(s) + utf8_width(c),
{
    assert(s.push(c).drop_last() == s);
}

proof fn lemma_utf8_len_nonneg(s: Seq<char>)
    ensures
        utf8_len(s) >= 0,
    decreases s.len(),
{
    if s.len() > 0 {
        lemma_utf8_len_nonneg(s.drop_last());
    }
}

/// Drops white space and counts the UTF-8 bytes of what remains.
pub(crate) fn strip_exec(text: &str) -> (r: (Vec<char>, usize))
    requires
        text@.len() <= usize::MAX / 4,
    ensures
        r.0@ == strip_white_space(text@),
        r.1 == utf8_len(r.0@),
{
    let v = to_chars(text);
    let mut out: Vec<char> = Vec::new();
    let mut bytes: usize = 0;
    let mut i: usize = 0;
    while i < v.len()
        invariant
            v@ == text@,
            i <= v@.len(),
            v@.len() <= usize::MAX / 4,
            out@ == v@.take(i as int).filter(|c: char| !is_white_space(c)),
            bytes == utf8_len(out@),
            bytes <= 4 * out@.len(),
            out@.len() <= i,
        decreases v.len() - i,
    {
        let c = v[i];
        let ghost before = v@.take(i as int);
        assert(v@.take(i + 1) == before.push(c));
        assert(v@.take(i + 1).drop_last() == before);
        if !is_white_space_exec(c) {
            proof { lemma_utf8_len_push(out@, c); }
            bytes = bytes + utf8_width_exec(c);
            out.push(c);
        }
        assert(v@.take(i + 1).filter(|c: char| !is_white_space(c))
            == before.filter(|c: char| !is_white_space(c))
               + if !is_white_space(c) { seq![c] } else { Seq::<char>::empty() }) by {
            reveal_with_fuel(Seq::filter, 1);
        }
        i = i + 1;
    }
    assert(v@.take(v@.len() as int) == v@);
    (out, bytes)
}

/// Reads pairs from `f[k..]` into `acc`.
pub(crate) fn pairs_exec(f: &Vec<char>) -> (r: Option<Vec<u8>>)
    requires
        hex_pairs(f@, 0) != Some(None::<Seq<u8>>),
    ensures
        match hex_pairs(f@, 0) {
            Some(Some(b)) => r is Some && r.unwrap()@ == b,
            _ => r is None,
        },
{
    let mut acc: Vec<u8> = Vec::new();
    let mut k: usize = 0;
    while k < f.len()
        invariant
            k <= f@.len(),
            hex_pairs(f@, k as int) != Some(None::<Seq<u8>>),
            forall|b: Seq<u8>| hex_pairs(f@, k as int) == Some(Some(b))
                ==> #[trigger] hex_pairs(f@, 0) == Some(Some(acc@ + b)),
            hex_pairs(f@, k as int) is None ==> hex_pairs(f@, 0) is None,
        decreases f.len() - k,
    {
        let c0 = f[k];
        if (c0 as u32) < 0x80 {
            let c1 = f[k + 1];
            match hex_pair_exec(c0, c1) {
                Some(b) => {
                    proof {
                        assert forall|rest: Seq<u8>| hex_pairs(f@, k + 2) == Some(Some(rest))
                            implies #[trigger] hex_pairs(f@, 0) == Some(Some(acc@.push(b) + rest)) by {
                            assert(hex_pairs(f@, k as int) == Some(Some(seq![b] + rest)));
                            assert(acc@ + (seq![b] + rest) == acc@.push(b) + rest);
                        }
                    }
                    acc.push(b);
                    k = k + 2;
                },
                None => {
                    return None;
                },
            }
        } else {
            return None;
        }
    }
    assert(hex_pairs(f@, k as int) == Some(Some(Seq::<u8>::empty())));
    assert(acc@ + Seq::<u8>::empty() == acc@);
    Some(acc)
}

/// Converts a hex text such as `"01 0A"` into bytes; white space is ignored,
/// and `None` comes back for an odd number of bytes or a pair that is not hex.
pub fn hex_string_to_bytes(hex_str: &str) -> (r: Option<Vec<u8>>)
    requires
        !hex_splits_char(hex_str@),
        hex_str@.len() <= usize::MAX / 4,
    ensures
        match spec_hex_to_bytes(hex_str@) {
            Some(b) => r is Some && r.unwrap()@ == b,
            None => r is None,
        },
{
    let (f, bytes) = strip_exec(hex_str);
    if bytes % 2 != 0 {
        return None;
    }
    pairs_exec(&f)
}

/// The upper-case hex digit of a nibble.
pub open spec fn hex_upper(n: int) -> char {
    if n < 10 { ('0' as u32 + n) as char } else { ('A' as u32 + n - 10) as char }
}

/// `"{:02X}"` of each byte, separated by single spaces.
pub open spec fn spec_bytes_to_hex(b: Seq<u8>) -> Seq<char>
    decreases b.len(),
{
    if b.len() == 0 {
        Seq::empty()
    } else {
        let last = b.last();
        let pair = seq![hex_upper((last / 16) as int), hex_upper((last % 16) as int)];
        if b.len() == 1 { pair } else { spec_bytes_to_hex(b.drop_last()) + seq![' '] + pair }
    }
}

fn hex_upper_exec(n: u8) -> (r: char)
    requires
        n < 16,
    ensures
        r == hex_upper(n as int),
{
    if n < 10 { ((48u8 + n) as char) } else { ((55u8 + n) as char) }
}

/// Formats bytes as upper-case hex pairs separated by spaces.
pub fn bytes_to_hex_string(bytes: &[u8]) -> (r: String)
    ensures
        r@ == spec_bytes_to_hex(bytes@),
{
    let mut result = String::new();
    let mut i: usize = 0;
    while i < bytes.len()
        invariant
            i <= bytes@.len(),
            result@ == spec_bytes_to_hex(bytes@.take(i as int)),
        decreases bytes.len() - i,
    {
        let ghost prev = bytes@.take(i as int);
        assert(bytes@.take(i + 1).drop_last() == prev);
        if i > 0 {
            push_char(&mut result, ' ');
        }
        push_char(&mut result, hex_upper_exec(bytes[i] / 16));
        push_char(&mut result, hex_upper_exec(bytes[i] % 16));
        i = i + 1;
    }
    assert(bytes@.take(bytes@.len() as int) == bytes@);
    result
}

} // verus!

verus! {

/// Two upper-case hex digits per byte, without separators.
pub open spec fn hex_digits_of(b: Seq<u8>) -> Seq<char> {
    Seq::new(
        2 * b.len(),
        |i: int| if i % 2 == 0 { hex_upper((b[i / 2] / 16) as int) } else { hex_upper((b[i / 2] % 16) as int) },
    )
}

proof fn lemma_hex_upper(n: int)
    requires
        0 <= n < 16,
    ensures
        hex_digit(hex_upper(n)) == Some(n as u8),
        (hex_upper(n) as u32) < 0x80,
        !is_white_space(hex_upper(n)),
        hex_upper(n) != '+',
{
}

proof fn lemma_strip_hex(b: Seq<u8>)
    ensures
        strip_white_space(spec_bytes_to_hex(b)) == hex_digits_of(b),
    decreases b.len(),
{
    let pred = |c: char| !is_white_space(c);
    if b.len() == 0 {
        assert(spec_bytes_to_hex(b).filter(pred) =~= Seq::<char>::empty()) by {
            reveal_with_fuel(Seq::filter, 1);
        }
        assert(hex_digits_of(b) =~= Seq::<char>::empty());
    } else {
        let p = b.drop_last();
        let last = b.last();
        let hi = hex_upper((last / 16) as int);
        let lo = hex_upper((last % 16) as int);
        let pair = seq![hi, lo];
        lemma_hex_upper((last / 16) as int);
        lemma_hex_upper((last % 16) as int);
        assert(pair.filter(pred) == pair) by {
            assert(pair == seq![hi] + seq![lo]);
            Seq::filter_distributes_over_add(seq![hi], seq![lo], pred);
            assert(seq![hi].filter(pred) == seq![hi]) by {
                reveal_with_fuel(Seq::filter, 2);
            }
            assert(seq![lo].filter(pred) == seq![lo]) by {
                reveal_with_fuel(Seq::filter, 2);
            }
        }
        if b.len() == 1 {
            assert(hex_digits_of(b) =~= pair);
        } else {
            lemma_strip_hex(p);
            let prev = spec_bytes_to_hex(p);
            assert(spec_bytes_to_hex(b) == prev + seq![' '] + pair);
            Seq::filter_distributes_over_add(prev + seq![' '], pair, pred);
            Seq::filter_distributes_over_add(prev, seq![' '], pred);
            assert(seq![' '].filter(pred) =~= Seq::<char>::empty()) by {
                assert(is_white_space(' '));
                reveal_with_fuel(Seq::filter, 2);
            }
            assert(hex_digits_of(b) =~= hex_digits_of(p) + pair);
        }
    }
}

proof fn lemma_hex_pairs_digits(b: Seq<u8>, i: int)
    requires
        0 <= i <= b.len(),
    ensures
        hex_pairs(hex_digits_of(b), 2 * i) == Some(Some(b.skip(i))),
    decreases b.len() - i,
{
    let s = hex_digits_of(b);
    if i == b.len() {
        assert(b.skip(i) =~= Seq::<u8>::empty());
    } else {
        lemma_hex_upper((b[i] / 16) as int);
        lemma_hex_upper((b[i] % 16) as int);
        assert(s[2 * i] == hex_upper((b[i] / 16) as int));
        assert(s[2 * i + 1] == hex_upper((b[i] % 16) as int));
        assert(hex_pair(s[2 * i], s[2 * i + 1]) == Some(b[i])) by {
            assert(((b[i] / 16) * 16 + b[i] % 16) as u8 == b[i]);
        }
        lemma_hex_pairs_digits(b, i + 1);
        assert(2 * i + 2 == 2 * (i + 1));
        assert(seq![b[i]] + b.skip(i + 1) =~= b.skip(i));
    }
}

proof fn lemma_utf8_len_ascii(s: Seq<char>)
    requires
        forall|i: int| 0 <= i < s.len() ==> (#[trigger] s[i] as u32) < 0x80,
    ensures
        utf8_len(s) == s.len(),
    decreases s.len(),
{
    if s.len() > 0 {
        lemma_utf8_len_ascii(s.drop_last());
    }
}

proof fn lemma_hex_pairs_ascii(f: Seq<char>, k: int)
    requires
        forall|i: int| 0 <= i < f.len() ==> (#[trigger] f[i] as u32) < 0x80,
        f.len() % 2 == 0,
        k % 2 == 0,
        0 <= k,
    ensures
        hex_pairs(f, k) != Some(None::<Seq<u8>>),
    decreases f.len() - k,
{
    if k < f.len() {
        assert((f[k] as u32) < 0x80);
        assert(k + 1 < f.len());
        assert((f[k + 1] as u32) < 0x80);
        lemma_hex_pairs_ascii(f, k + 2);
    }
}

/// Text of ASCII characters is read as hex without cutting a character,
/// its length in bytes once white space is dropped being its length in
/// characters: so `hex_string_to_bytes` reads it whenever it is not longer
/// than `usize::MAX / 4`, with `OddHexLength` exactly when an odd number of
/// non-space characters is left.
pub proof fn lemma_hex_ascii(text: Seq<char>)
    requires
        forall|i: int| 0 <= i < text.len() ==> (#[trigger] text[i] as u32) < 0x80,
    ensures
        !hex_splits_char(text),
        utf8_len(strip_white_space(text)) == strip_white_space(text).len(),
{
    let f = strip_white_space(text);
    assert forall|i: int| 0 <= i < f.len() implies (#[trigger] f[i] as u32) < 0x80 by {
        assert(f.contains(f[i]));
        text.lemma_filter_contains_rev(|c: char| !is_white_space(c), f[i]);
    }
    lemma_utf8_len_ascii(f);
    if f.len() % 2 == 0 {
        lemma_hex_pairs_ascii(f, 0);
    }
}

/// The hex text of `n` bytes has `3 * n - 1` characters (none for none).
proof fn lemma_hex_len(b: Seq<u8>)
    ensures
        spec_bytes_to_hex(b).len() == if b.len() == 0 { 0 } else { 3 * b.len() - 1 },
    decreases b.len(),
{
    if b.len() > 1 {
        lemma_hex_len(b.drop_last());
    }
}

/// Reading back the hex text of bytes gives the bytes: the text splits no
/// character, has an even number of hex digits once white space is
/// dropped, and is `3 * n - 1` characters long for `n` bytes, so that
/// `hex_string_to_bytes` may read it whenever `n` is at most
/// `usize::MAX / 12`.
pub proof fn lemma_hex_roundtrip(b: Seq<u8>)
    ensures
        spec_hex_to_bytes(spec_bytes_to_hex(b)) == Some(b),
        !hex_splits_char(spec_bytes_to_hex(b)),
        utf8_len(strip_white_space(spec_bytes_to_hex(b))) == 2 * b.len(),
        spec_bytes_to_hex(b).len() == if b.len() == 0 { 0 } else { 3 * b.len() - 1 },
{
    lemma_hex_len(b);
    lemma_strip_hex(b);
    let s = hex_digits_of(b);
    assert forall|i: int| 0 <= i < s.len() implies (#[trigger] s[i] as u32) < 0x80 by {
        lemma_hex_upper((b[i / 2] / 16) as int);
        lemma_hex_upper((b[i / 2] % 16) as int);
    }
    lemma_utf8_len_ascii(s);
    lemma_hex_pairs_digits(b, 0);
    assert(b.skip(0) =~= b);
}

} // verus!
