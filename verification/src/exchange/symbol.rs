//! Recognising the market of a security symbol such as `"sh600000"`,
//! `"600000.SH"` or a bare `"600000"`.
use vstd::prelude::*;
use crate::exchange::constants::{
    MarketType, MARKET_ID_SHANGHAI, MARKET_ID_SHENZHEN, MARKET_ID_BEIJING, MARKET_ID_HONG_KONG,
    MARKET_ID_USA, flag_chars, flag_vec, get_market_flag,
};
use crate::internal::text::{
    starts_with, ends_with, has_prefix, has_suffix, ascii_lowercase, ascii_lowercase_exec, trim,
    trim_exec, from_chars, push_chars,
};

verus! {

pub open spec fn sw1(l: Seq<char>, a: char) -> bool {
    starts_with(l, seq![a])
}

pub open spec fn sw2(l: Seq<char>, a: char, b: char) -> bool {
    starts_with(l, seq![a, b])
}

pub open spec fn sw3(l: Seq<char>, a: char, b: char, c: char) -> bool {
    starts_with(l, seq![a, b, c])
}

pub open spec fn sw4(l: Seq<char>, a: char, b: char, c: char, d: char) -> bool {
    starts_with(l, seq![a, b, c, d])
}

pub open spec fn ew2(l: Seq<char>, a: char, b: char) -> bool {
    ends_with(l, seq![a, b])
}

/// The market whose flag the (lower-case) text begins with.
pub open spec fn flag_prefix(l: Seq<char>) -> Option<MarketType> {
    if sw2(l, 's', 'h') {
        Some(MARKET_ID_SHANGHAI)
    } else if sw2(l, 's', 'z') {
        Some(MARKET_ID_SHENZHEN)
    } else if sw2(l, 'b', 'j') {
        Some(MARKET_ID_BEIJING)
    } else if sw2(l, 'h', 'k') {
        Some(MARKET_ID_HONG_KONG)
    } else if sw2(l, 'u', 's') {
        Some(MARKET_ID_USA)
    } else {
        None
    }
}

/// The market whose flag the (lower-case) text ends with.
pub open spec fn flag_suffix(l: Seq<char>) -> Option<MarketType> {
    if ew2(l, 's', 'h') {
        Some(MARKET_ID_SHANGHAI)
    } else if ew2(l, 's', 'z') {
        Some(MARKET_ID_SHENZHEN)
    } else if ew2(l, 'b', 'j') {
        Some(MARKET_ID_BEIJING)
    } else if ew2(l, 'h', 'k') {
        Some(MARKET_ID_HONG_KONG)
    } else if ew2(l, 'u', 's') {
        Some(MARKET_ID_USA)
    } else {
        None
    }
}

/// Code prefixes of the Shanghai exchange.
pub open spec fn sh_code(l: Seq<char>) -> bool {
    sw2(l, '5', '0') || sw2(l, '5', '1') || sw2(l, '6', '0') || sw2(l, '6', '8') || sw2(l, '9', '0')
        || sw3(l, '1', '1', '0') || sw3(l, '1', '1', '3') || sw3(l, '1', '3', '2')
        || sw3(l, '2', '0', '4') || sw1(l, '5') || sw1(l, '6') || sw1(l, '7') || sw1(l, '9')
        || sw2(l, '8', '8')
}

/// Code prefixes of the Shenzhen exchange.
pub open spec fn sz_code(l: Seq<char>) -> bool {
    sw2(l, '0', '0') || sw2(l, '1', '2') || sw2(l, '1', '3') || sw2(l, '1', '5') || sw2(l, '1', '6')
        || sw2(l, '1', '8') || sw2(l, '2', '0') || sw2(l, '3', '0') || sw2(l, '3', '9')
        || sw3(l, '1', '1', '5') || sw4(l, '1', '3', '1', '8')
}

/// Code prefixes of the Beijing exchange.
pub open spec fn bj_code(l: Seq<char>) -> bool {
    sw1(l, '4') || sw1(l, '8')
}

/// The market of a trimmed symbol: an explicit flag at the start, else at
/// the end, else the exchange that the code's prefix belongs to, else
/// Shanghai.
pub open spec fn market_of(t: Seq<char>) -> MarketType {
    let l = ascii_lowercase(t);
    if flag_prefix(l) is Some {
        flag_prefix(l).unwrap()
    } else if flag_suffix(l) is Some {
        flag_suffix(l).unwrap()
    } else if sh_code(l) {
        MARKET_ID_SHANGHAI
    } else if sz_code(l) {
        MARKET_ID_SHENZHEN
    } else if bj_code(l) {
        MARKET_ID_BEIJING
    } else {
        MARKET_ID_SHANGHAI
    }
}

/// The market of any symbol.
pub open spec fn spec_market(symbol: Seq<char>) -> MarketType {
    market_of(trim(symbol))
}

/// The code part of a trimmed symbol whose market is `m`: the flag and a
/// `'.'` next to it removed.
pub open spec fn code_of(t: Seq<char>, m: MarketType) -> Seq<char> {
    let l = ascii_lowercase(t);
    let f = flag_chars(m);
    let n = t.len();
    if starts_with(l, f) {
        let rest = t.skip(2);
        if rest.len() > 0 && rest[0] == '.' { rest.skip(1) } else { rest }
    } else if ends_with(l, f) {
        if n > 2 && t[n - 3] == '.' { t.take(n - 3) } else { t.take(n - 2) }
    } else {
        t
    }
}

/// `detect_market`: market id, flag and code of a symbol.
pub open spec fn spec_detect(symbol: Seq<char>) -> (MarketType, Seq<char>, Seq<char>) {
    let t = trim(symbol);
    if t.len() == 0 {
        (MARKET_ID_SHANGHAI, seq!['s', 'h'], Seq::empty())
    } else {
        let m = market_of(t);
        (m, flag_chars(m), code_of(t, m))
    }
}

fn sw1_exec(l: &[char], a: char) -> (r: bool)
    ensures
        r == sw1(l@, a),
{
    let p = [a];
    assert(p@ =~= seq![a]);
    has_prefix(l, &p)
}

fn sw2_exec(l: &[char], a: char, b: char) -> (r: bool)
    ensures
        r == sw2(l@, a, b),
{
    let p = [a, b];
    assert(p@ =~= seq![a, b]);
    has_prefix(l, &p)
}

fn sw3_exec(l: &[char], a: char, b: char, c: char) -> (r: bool)
    ensures
        r == sw3(l@, a, b, c),
{
    let p = [a, b, c];
    assert(p@ =~= seq![a, b, c]);
    has_prefix(l, &p)
}

fn sw4_exec(l: &[char], a: char, b: char, c: char, d: char) -> (r: bool)
    ensures
        r == sw4(l@, a, b, c, d),
{
    let p = [a, b, c, d];
    assert(p@ =~= seq![a, b, c, d]);
    has_prefix(l, &p)
}

fn ew2_exec(l: &[char], a: char, b: char) -> (r: bool)
    ensures
        r == ew2(l@, a, b),
{
    let p = [a, b];
    assert(p@ =~= seq![a, b]);
    has_suffix(l, &p)
}

fn flag_prefix_exec(l: &[char]) -> (r: Option<MarketType>)
    ensures
        r == flag_prefix(l@),
{
    if sw2_exec(l, 's', 'h') {
        Some(MARKET_ID_SHANGHAI)
    } else if sw2_exec(l, 's', 'z') {
        Some(MARKET_ID_SHENZHEN)
    } else if sw2_exec(l, 'b', 'j') {
        Some(MARKET_ID_BEIJING)
    } else if sw2_exec(l, 'h', 'k') {
        Some(MARKET_ID_HONG_KONG)
    } else if sw2_exec(l, 'u', 's') {
        Some(MARKET_ID_USA)
    } else {
        None
    }
}

fn flag_suffix_exec(l: &[char]) -> (r: Option<MarketType>)
    ensures
        r == flag_suffix(l@),
{
    if ew2_exec(l, 's', 'h') {
        Some(MARKET_ID_SHANGHAI)
    } else if ew2_exec(l, 's', 'z') {
        Some(MARKET_ID_SHENZHEN)
    } else if ew2_exec(l, 'b', 'j') {
        Some(MARKET_ID_BEIJING)
    } else if ew2_exec(l, 'h', 'k') {
        Some(MARKET_ID_HONG_KONG)
    } else if ew2_exec(l, 'u', 's') {
        Some(MARKET_ID_USA)
    } else {
        None
    }
}

fn market_of_exec(t: &[char]) -> (r: MarketType)
    ensures
        r == market_of(t@),
{
    let lv = ascii_lowercase_exec(t);
    let l = lv.as_slice();
    if let Some(m) = flag_prefix_exec(l) {
        m
    } else if let Some(m) = flag_suffix_exec(l) {
        m
    } else if sw2_exec(l, '5', '0') || sw2_exec(l, '5', '1') || sw2_exec(l, '6', '0')
        || sw2_exec(l, '6', '8') || sw2_exec(l, '9', '0') || sw3_exec(l, '1', '1', '0')
        || sw3_exec(l, '1', '1', '3') || sw3_exec(l, '1', '3', '2') || sw3_exec(l, '2', '0', '4')
        || sw1_exec(l, '5') || sw1_exec(l, '6') || sw1_exec(l, '7') || sw1_exec(l, '9')
        || sw2_exec(l, '8', '8') {
        MARKET_ID_SHANGHAI
    } else if sw2_exec(l, '0', '0') || sw2_exec(l, '1', '2') || sw2_exec(l, '1', '3')
        || sw2_exec(l, '1', '5') || sw2_exec(l, '1', '6') || sw2_exec(l, '1', '8')
        || sw2_exec(l, '2', '0') || sw2_exec(l, '3', '0') || sw2_exec(l, '3', '9')
        || sw3_exec(l, '1', '1', '5') || sw4_exec(l, '1', '3', '1', '8') {
        MARKET_ID_SHENZHEN
    } else if sw1_exec(l, '4') || sw1_exec(l, '8') {
        MARKET_ID_BEIJING
    } else {
        MARKET_ID_SHANGHAI
    }
}

fn code_of_exec(t: &[char], m: MarketType) -> (r: Vec<char>)
    ensures
        r@ == code_of(t@, m),
{
    let lv = ascii_lowercase_exec(t);
    let f = flag_vec(m);
    let n = t.len();
    if has_prefix(lv.as_slice(), f.as_slice()) {
        if n > 2 && t[2] == '.' {
            let r = copy_chars(t, 3, n);
            assert(t@.skip(2).skip(1) =~= t@.subrange(3, n as int));
            r
        } else {
            let r = copy_chars(t, 2, n);
            assert(t@.skip(2) =~= t@.subrange(2, n as int));
            r
        }
    } else if has_suffix(lv.as_slice(), f.as_slice()) {
        if n > 2 && t[n - 3] == '.' {
            let r = copy_chars(t, 0, n - 3);
            assert(t@.take(n - 3) =~= t@.subrange(0, n - 3));
            r
        } else {
            let r = copy_chars(t, 0, n - 2);
            assert(t@.take(n - 2) =~= t@.subrange(0, n - 2));
            r
        }
    } else {
        let r = copy_chars(t, 0, n);
        assert(t@ =~= t@.subrange(0, n as int));
        r
    }
}

/// A copy of `s[lo..hi]`.
pub fn copy_chars(s: &[char], lo: usize, hi: usize) -> (r: Vec<char>)
    requires
        lo <= hi <= s@.len(),
    ensures
        r@ == s@.subrange(lo as int, hi as int),
{
    let mut r: Vec<char> = Vec::new();
    let mut i = lo;
    while i < hi
        invariant
            lo <= i <= hi <= s@.len(),
            r@ == s@.subrange(lo as int, i as int),
        decreases hi - i,
    {
        r.push(s[i]);
        assert(s@.subrange(lo as int, i + 1) == s@.subrange(lo as int, i as int).push(s@[i as int]));
        i = i + 1;
    }
    r
}

/// Market id, flag and code of a symbol, as characters.
pub fn detect_chars(symbol: &str) -> (r: (MarketType, Vec<char>, Vec<char>))
    ensures
        (r.0, r.1@, r.2@) == spec_detect(symbol@),
{
    let t = trim_exec(symbol);
    if t.len() == 0 {
        let f = vec!['s', 'h'];
        assert(f@ =~= seq!['s', 'h']);
        return (MARKET_ID_SHANGHAI, f, Vec::new());
    }
    let m = market_of_exec(t.as_slice());
    let f = flag_vec(m);
    let c = code_of_exec(t.as_slice(), m);
    (m, f, c)
}

/// Splits a symbol into market id, market flag and code, for example
/// `"600000.SH"` into `(1, "sh", "600000")`.
pub fn detect_market(symbol: &str) -> (r: (MarketType, String, String))
    ensures
        (r.0, r.1@, r.2@) == spec_detect(symbol@),
{
    let (m, f, c) = detect_chars(symbol);
    (m, from_chars(f.as_slice()), from_chars(c.as_slice()))
}

/// The market flag of a symbol (`"sh"`, `"sz"`, `"bj"`, `"hk"` or `"us"`).
pub fn get_market(symbol: &str) -> (r: &'static str)
    ensures
        r@ == flag_chars(spec_market(symbol@)),
{
    let t = trim_exec(symbol);
    get_market_flag(market_of_exec(t.as_slice()))
}

/// Same as [`get_market`].
pub fn get_market_flag_by_symbol(symbol: &str) -> (r: &'static str)
    ensures
        r@ == flag_chars(spec_market(symbol@)),
{
    get_market(symbol)
}

/// The market id of a symbol.
pub fn get_market_id(symbol: &str) -> (r: MarketType)
    ensures
        r == spec_market(symbol@),
{
    let t = trim_exec(symbol);
    market_of_exec(t.as_slice())
}

/// `get_security_code`: the flag of `market` followed by the trimmed symbol,
/// cut to five characters for Hong Kong, six for the Chinese exchanges and
/// kept whole for the USA; empty for a blank symbol.
pub open spec fn spec_security_code(market: MarketType, symbol: Seq<char>) -> Seq<char> {
    let t = trim(symbol);
    if t.len() == 0 {
        Seq::empty()
    } else if market == MARKET_ID_USA {
        flag_chars(market) + t
    } else if market == MARKET_ID_HONG_KONG {
        flag_chars(market) + t.take(if t.len() < 5 { t.len() as int } else { 5 })
    } else {
        flag_chars(market) + t.take(if t.len() < 6 { t.len() as int } else { 6 })
    }
}

/// Prefixes a symbol with the flag of its market.
pub fn get_security_code(market: MarketType, symbol: &str) -> (r: String)
    ensures
        r@ == spec_security_code(market, symbol@),
{
    let t = trim_exec(symbol);
    if t.len() == 0 {
        return String::new();
    }
    let keep = if market == MARKET_ID_USA {
        t.len()
    } else if market == MARKET_ID_HONG_KONG {
        if t.len() < 5 { t.len() } else { 5 }
    } else {
        if t.len() < 6 { t.len() } else { 6 }
    };
    let f = flag_vec(market);
    let mut s = from_chars(f.as_slice());
    let part = copy_chars(t.as_slice(), 0, keep);
    push_chars(&mut s, part.as_slice());
    assert(t@.subrange(0, keep as int) == t@.take(keep as int));
    assert(market == MARKET_ID_USA ==> t@.take(keep as int) == t@);
    s
}

} // verus!

verus! {

/// Text that starts and ends with a character other than white space is its
/// own trim.
proof fn lemma_trim_plain(s: Seq<char>)
    requires
        s.len() > 0,
        !crate::internal::text::is_white_space(s[0]),
        !crate::internal::text::is_white_space(s.last()),
    ensures
        trim(s) == s,
{
    assert(crate::internal::text::lead_ws(s) == 0);
    assert(s.skip(0) =~= s);
    assert(crate::internal::text::trail_ws(s) == 0);
    assert(s.take(s.len() as int) =~= s);
}

/// A code part that reads back unchanged after a flag: empty, or neither
/// starting with `'.'` nor ending with white space.
pub open spec fn plain_code(c: Seq<char>) -> bool {
    c.len() == 0 || (c[0] != '.' && !crate::internal::text::is_white_space(c.last()))
}

/// The markets that have a flag.
pub open spec fn flagged_market(m: MarketType) -> bool {
    m == MARKET_ID_SHANGHAI || m == MARKET_ID_SHENZHEN || m == MARKET_ID_BEIJING
        || m == MARKET_ID_HONG_KONG || m == MARKET_ID_USA
}

/// A flag followed by a plain code part splits back into the flag's market,
/// the flag and the code part.
pub proof fn lemma_detect_flagged(m: MarketType, c: Seq<char>)
    requires
        flagged_market(m),
        plain_code(c),
    ensures
        spec_detect(flag_chars(m) + c) == (m, flag_chars(m), c),
{
    let f = flag_chars(m);
    let s = f + c;
    assert(s[0] == f[0]);
    if c.len() == 0 {
        assert(s.last() == f[1]);
    } else {
        assert(s.last() == c.last());
    }
    lemma_trim_plain(s);
    let l = ascii_lowercase(s);
    assert(l[0] == f[0] && l[1] == f[1]);
    assert(l.take(2) =~= f);
    assert(l.take(2) =~= seq![l[0], l[1]]);
    assert(starts_with(l, f));
    assert(flag_prefix(l) == Some(m));
    assert(s.skip(2) =~= c);
}

/// A text of ASCII decimal digits.
pub open spec fn all_digits(code: Seq<char>) -> bool {
    forall|i: int| 0 <= i < code.len() ==> '0' <= #[trigger] code[i] <= '9'
}

/// A code of digits, not longer than its market keeps (five for Hong Kong,
/// six for the Chinese exchanges, any length for the USA), put after its
/// market's flag, splits back into that market, its flag and the code.
pub proof fn lemma_security_code_roundtrip(market: MarketType, code: Seq<char>)
    requires
        flagged_market(market),
        code.len() > 0,
        all_digits(code),
        market == MARKET_ID_HONG_KONG ==> code.len() <= 5,
        market != MARKET_ID_HONG_KONG && market != MARKET_ID_USA ==> code.len() <= 6,
    ensures
        spec_security_code(market, code) == flag_chars(market) + code,
        spec_detect(spec_security_code(market, code)) == (market, flag_chars(market), code),
{
    let n = code.len() - 1;
    assert('0' <= code[0] <= '9' && '0' <= code[n] <= '9');
    assert(code.last() == code[n]);
    lemma_trim_plain(code);
    assert(code.take(code.len() as int) =~= code);
    lemma_detect_flagged(market, code);
}

/// A blank symbol has no security code, and a market without a flag of its
/// own is written with Shanghai's.
pub proof fn lemma_security_code_edges(market: MarketType, symbol: Seq<char>)
    ensures
        trim(symbol).len() == 0 ==> spec_security_code(market, symbol) == Seq::<char>::empty(),
        !flagged_market(market) ==> flag_chars(market) == seq!['s', 'h'],
{
}

/// The code part without one `'.'` in front.
pub open spec fn drop_leading_dot(c: Seq<char>) -> Seq<char> {
    if c.len() > 0 && c[0] == '.' { c.skip(1) } else { c }
}

/// `t` begins with the characters of `p`, one by one.
pub open spec fn begins(t: Seq<char>, p: Seq<char>) -> bool {
    p.len() <= t.len() && forall|i: int| 0 <= i < p.len() ==> t[i] == p[i]
}

/// An ASCII decimal digit.
pub open spec fn is_digit(c: char) -> bool {
    '0' <= c <= '9'
}

/// Beginning with a text is beginning with its characters one by one.
pub proof fn lemma_starts_with_begins(t: Seq<char>, p: Seq<char>)
    ensures
        starts_with(t, p) == begins(t, p),
{
    if p.len() <= t.len() {
        if begins(t, p) {
            assert(t.take(p.len() as int) =~= p);
        }
        if starts_with(t, p) {
            assert forall|i: int| 0 <= i < p.len() implies t[i] == p[i] by {
                assert(t.take(p.len() as int)[i] == p[i]);
            }
        }
    }
}

/// Lower-casing keeps digits and makes none, so a text's lower-case form
/// begins with a run of digits exactly when the text does.
proof fn lemma_lower_digit_prefix(t: Seq<char>, p: Seq<char>)
    requires
        forall|i: int| 0 <= i < p.len() ==> is_digit(#[trigger] p[i]),
    ensures
        starts_with(ascii_lowercase(t), p) == begins(t, p),
{
    let l = ascii_lowercase(t);
    let n = p.len() as int;
    if n <= t.len() {
        if begins(t, p) {
            assert(l.take(n) =~= p);
        }
        if starts_with(l, p) {
            assert forall|i: int| 0 <= i < n implies t[i] == p[i] by {
                assert(l.take(n)[i] == p[i]);
                assert(is_digit(p[i]));
            }
        }
    }
}

/// A symbol without a market flag, that is whose trimmed text starts and
/// ends with a digit, is its own code, and its market is that of the
/// exchange its code's prefix belongs to. Shanghai: a first digit 5, 6, 7
/// or 9, or 110, 113, 132, 204, 88. Shenzhen, where no Shanghai prefix
/// applies: 00, 12, 13, 15, 16, 18, 20, 30, 39, 115, 1318. Beijing, where
/// neither applies: a first digit 4 or 8. Shanghai for anything else.
pub proof fn lemma_bare_code_market(symbol: Seq<char>)
    requires
        trim(symbol).len() > 0,
        is_digit(trim(symbol)[0]),
        is_digit(trim(symbol).last()),
    ensures
        spec_detect(symbol).2 == trim(symbol),
        spec_detect(symbol).1 == flag_chars(spec_detect(symbol).0),
        spec_detect(symbol).0 == spec_market(symbol),
        ({
            let t = trim(symbol);
            let sh = begins(t, seq!['5']) || begins(t, seq!['6']) || begins(t, seq!['7'])
                || begins(t, seq!['9']) || begins(t, seq!['1', '1', '0']) || begins(t, seq!['1', '1', '3'])
                || begins(t, seq!['1', '3', '2']) || begins(t, seq!['2', '0', '4']) || begins(t, seq!['8', '8']);
            let sz = begins(t, seq!['0', '0']) || begins(t, seq!['1', '2']) || begins(t, seq!['1', '3'])
                || begins(t, seq!['1', '5']) || begins(t, seq!['1', '6']) || begins(t, seq!['1', '8'])
                || begins(t, seq!['2', '0']) || begins(t, seq!['3', '0']) || begins(t, seq!['3', '9'])
                || begins(t, seq!['1', '1', '5']) || begins(t, seq!['1', '3', '1', '8']);
            let bj = begins(t, seq!['4']) || begins(t, seq!['8']);
            &&& sh ==> spec_detect(symbol).0 == MARKET_ID_SHANGHAI
            &&& !sh && sz ==> spec_detect(symbol).0 == MARKET_ID_SHENZHEN
            &&& !sh && !sz && bj ==> spec_detect(symbol).0 == MARKET_ID_BEIJING
            &&& !sh && !sz && !bj ==> spec_detect(symbol).0 == MARKET_ID_SHANGHAI
        }),
{
    let t = trim(symbol);
    let l = ascii_lowercase(t);
    let n = t.len();
    assert(is_digit(l[0]) && l[0] == t[0]);
    assert(is_digit(l[n - 1]) && l[n - 1] == t[n - 1]);
    assert(flag_prefix(l) is None) by {
        if n >= 2 {
            assert(l.take(2)[0] == l[0]);
        }
    }
    assert(flag_suffix(l) is None) by {
        if n >= 2 {
            assert(l.skip(n - 2)[1] == l[n - 1]);
        }
    }
    let m = market_of(t);
    let f = flag_chars(m);
    assert(!starts_with(l, f)) by {
        if starts_with(l, f) {
            assert(l.take(2)[0] == l[0]);
        }
    }
    assert(!ends_with(l, f)) by {
        if ends_with(l, f) {
            assert(l.skip(n - 2)[1] == l[n - 1]);
        }
    }
    lemma_lower_digit_prefix(t, seq!['5', '0']);
    lemma_lower_digit_prefix(t, seq!['5', '1']);
    lemma_lower_digit_prefix(t, seq!['6', '0']);
    lemma_lower_digit_prefix(t, seq!['6', '8']);
    lemma_lower_digit_prefix(t, seq!['9', '0']);
    lemma_lower_digit_prefix(t, seq!['1', '1', '0']);
    lemma_lower_digit_prefix(t, seq!['1', '1', '3']);
    lemma_lower_digit_prefix(t, seq!['1', '3', '2']);
    lemma_lower_digit_prefix(t, seq!['2', '0', '4']);
    lemma_lower_digit_prefix(t, seq!['5']);
    lemma_lower_digit_prefix(t, seq!['6']);
    lemma_lower_digit_prefix(t, seq!['7']);
    lemma_lower_digit_prefix(t, seq!['9']);
    lemma_lower_digit_prefix(t, seq!['8', '8']);
    lemma_lower_digit_prefix(t, seq!['0', '0']);
    lemma_lower_digit_prefix(t, seq!['1', '2']);
    lemma_lower_digit_prefix(t, seq!['1', '3']);
    lemma_lower_digit_prefix(t, seq!['1', '5']);
    lemma_lower_digit_prefix(t, seq!['1', '6']);
    lemma_lower_digit_prefix(t, seq!['1', '8']);
    lemma_lower_digit_prefix(t, seq!['2', '0']);
    lemma_lower_digit_prefix(t, seq!['3', '0']);
    lemma_lower_digit_prefix(t, seq!['3', '9']);
    lemma_lower_digit_prefix(t, seq!['1', '1', '5']);
    lemma_lower_digit_prefix(t, seq!['1', '3', '1', '8']);
    lemma_lower_digit_prefix(t, seq!['4']);
    lemma_lower_digit_prefix(t, seq!['8']);
    // Two-digit Shanghai prefixes lie within the one-digit ones.
    assert(begins(t, seq!['5', '0']) ==> begins(t, seq!['5']));
    assert(begins(t, seq!['5', '1']) ==> begins(t, seq!['5']));
    assert(begins(t, seq!['6', '0']) ==> begins(t, seq!['6']));
    assert(begins(t, seq!['6', '8']) ==> begins(t, seq!['6']));
    assert(begins(t, seq!['9', '0']) ==> begins(t, seq!['9']));
}

/// A code followed by a market's flag, in either case and with or without
/// a `'.'` between them (as in `"600000.SH"`), is that market's code: the
/// flag at the end names the market, whatever the code's digits are.
pub proof fn lemma_flag_after_code(market: MarketType, code: Seq<char>, dot: bool, flag: Seq<char>)
    requires
        flagged_market(market),
        code.len() > 0,
        is_digit(code[0]),
        !dot ==> code.last() != '.',
        flag.len() == 2,
        ascii_lowercase(flag) == flag_chars(market),
    ensures
        spec_detect(code + (if dot { seq!['.'] } else { Seq::<char>::empty() }) + flag)
            == (market, flag_chars(market), code),
{
    let mid: Seq<char> = if dot { seq!['.'] } else { Seq::<char>::empty() };
    let t = code + mid + flag;
    let n = t.len();
    let f = flag_chars(market);
    assert(t[0] == code[0]);
    assert(t.last() == flag[1]);
    assert(ascii_lowercase(flag)[1] == f[1]);
    assert(ascii_lowercase(flag)[0] == f[0]);
    assert(!crate::internal::text::is_white_space(flag[1]));
    lemma_trim_plain(t);
    let l = ascii_lowercase(t);
    assert(l[0] == t[0]);
    assert(l.skip(n - 2) =~= f) by {
        assert(t[n - 2] == flag[0] && t[n - 1] == flag[1]);
    }
    assert(flag_prefix(l) is None) by {
        assert(l.take(2)[0] == l[0]);
    }
    assert(!starts_with(l, f)) by {
        if starts_with(l, f) {
            assert(l.take(2)[0] == l[0]);
        }
    }
    assert(market_of(t) == market);
    if dot {
        assert(t[n - 3] == '.');
        assert(t.take(n - 3) =~= code);
    } else {
        assert(t[n - 3] == code.last());
        assert(t.take(n - 2) =~= code);
    }
}

/// What `detect_market` returns, as a whole: the market of the symbol (the
/// one `get_market_id` gives) and its flag (the one `get_market` gives); the
/// trimmed text after the flag less one `'.'` when the text starts with the
/// flag (in any case), else before the flag less the `'.'` ahead of it when
/// it ends with the flag, else the whole trimmed text. A blank symbol is
/// Shanghai with an empty code.
pub proof fn lemma_detect_market_parts(symbol: Seq<char>)
    ensures
        spec_detect(symbol).0 == spec_market(symbol),
        spec_detect(symbol).1 == flag_chars(spec_market(symbol)),
        flagged_market(spec_market(symbol)),
        starts_with(ascii_lowercase(trim(symbol)), flag_chars(spec_market(symbol)))
            ==> spec_detect(symbol).2 == drop_leading_dot(trim(symbol).skip(2)),
        !starts_with(ascii_lowercase(trim(symbol)), flag_chars(spec_market(symbol)))
            && ends_with(ascii_lowercase(trim(symbol)), flag_chars(spec_market(symbol)))
            ==> spec_detect(symbol).2 == (if trim(symbol).len() > 2 && trim(symbol)[trim(symbol).len() - 3] == '.' {
                trim(symbol).take(trim(symbol).len() - 3)
            } else {
                trim(symbol).take(trim(symbol).len() - 2)
            }),
        !starts_with(ascii_lowercase(trim(symbol)), flag_chars(spec_market(symbol)))
            && !ends_with(ascii_lowercase(trim(symbol)), flag_chars(spec_market(symbol)))
            ==> spec_detect(symbol).2 == trim(symbol),
        trim(symbol).len() == 0 ==> spec_detect(symbol) == (MARKET_ID_SHANGHAI, seq!['s', 'h'], Seq::<char>::empty()),
{
    let t = trim(symbol);
    if t.len() == 0 {
        let l = ascii_lowercase(t);
        assert(l.len() == 0);
        assert(!starts_with(l, flag_chars(spec_market(symbol))));
        assert(!ends_with(l, flag_chars(spec_market(symbol))));
    }
}

/// Every character of the code part of a symbol is a character of the
/// symbol, so a property of all of the symbol's characters holds of it.
pub proof fn lemma_code_chars(symbol: Seq<char>, p: spec_fn(char) -> bool)
    requires
        forall|i: int| 0 <= i < symbol.len() ==> p(#[trigger] symbol[i]),
    ensures
        forall|k: int| 0 <= k < spec_detect(symbol).2.len() ==> p(#[trigger] spec_detect(symbol).2[k]),
{
    crate::internal::text::lemma_lead_ws_bound(symbol);
    let a = symbol.skip(crate::internal::text::lead_ws(symbol));
    crate::internal::text::lemma_trail_ws_bound(a);
    let t = trim(symbol);
    assert forall|k: int| 0 <= k < t.len() implies p(#[trigger] t[k]) by {
        assert(t[k] == symbol[k + crate::internal::text::lead_ws(symbol)]);
    }
    if t.len() > 0 {
        let m = market_of(t);
        let c = code_of(t, m);
        assert forall|k: int| 0 <= k < c.len() implies p(#[trigger] c[k]) by {
            let l = ascii_lowercase(t);
            let f = flag_chars(m);
            if starts_with(l, f) {
                let rest = t.skip(2);
                assert(rest[k] == t[k + 2]);
                if rest.len() > 0 && rest[0] == '.' {
                    assert(c[k] == rest[k + 1]);
                    assert(rest[k + 1] == t[k + 3]);
                }
            } else if ends_with(l, f) {
                assert(c[k] == t[k]);
            }
        }
    }
}

/// A symbol of ASCII letters and digits.
pub open spec fn is_alnum(ch: char) -> bool {
    ('0' <= ch <= '9') || ('a' <= ch <= 'z') || ('A' <= ch <= 'Z')
}

/// The code part of a symbol of ASCII letters and digits reads back
/// unchanged after a flag.
pub proof fn lemma_alnum_code_plain(symbol: Seq<char>)
    requires
        forall|i: int| 0 <= i < symbol.len() ==> is_alnum(#[trigger] symbol[i]),
    ensures
        plain_code(spec_detect(symbol).2),
{
    lemma_code_chars(symbol, |ch: char| is_alnum(ch));
    let c = spec_detect(symbol).2;
    if c.len() > 0 {
        assert(is_alnum(c[0]));
        assert(is_alnum(c[c.len() - 1]));
        assert(c.last() == c[c.len() - 1]);
    }
}

} // verus!
