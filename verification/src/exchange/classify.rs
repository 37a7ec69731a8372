//! Classifying security codes into stocks, indexes, blocks and ETFs.
use vstd::prelude::*;
use crate::exchange::constants::{MarketType, MARKET_ID_SHANGHAI, MARKET_ID_SHENZHEN, flag_chars};
use crate::exchange::symbol::{sw2, sw3, begins, lemma_starts_with_begins, spec_detect, detect_chars, copy_chars, plain_code, lemma_detect_flagged, market_of, lemma_code_chars, lemma_alnum_code_plain, is_alnum};
use crate::internal::text::{to_chars, trim, trim_exec, from_chars, push_chars};

verus! {

/// Kind of a security.
#[derive(Debug, Clone, Copy, PartialEq, Eq, Structural)]
pub enum TargetKind {
    Stock,
    Index,
    Block,
    Etf,
}

/// Number of leading `'\0'` characters.
pub open spec fn lead_nul(s: Seq<char>) -> int
    decreases s.len(),
{
    if s.len() > 0 && s[0] == '\0' { 1 + lead_nul(s.drop_first()) } else { 0 }
}

/// `str::trim_start_matches('\0')`.
pub open spec fn trim_start_nul(s: Seq<char>) -> Seq<char> {
    s.skip(lead_nul(s))
}

proof fn lemma_lead_nul_bound(s: Seq<char>)
    ensures
        0 <= lead_nul(s) <= s.len(),
    decreases s.len(),
{
    if s.len() > 0 && s[0] == '\0' {
        lemma_lead_nul_bound(s.drop_first());
    }
}

pub(crate) fn trim_start_nul_exec(s: &[char]) -> (r: Vec<char>)
    ensures
        r@ == trim_start_nul(s@),
{
    let mut lo: usize = 0;
    proof { lemma_lead_nul_bound(s@); }
    assert(s@.skip(0) == s@);
    while lo < s.len() && s[lo] == '\0'
        invariant
            lo <= s@.len(),
            lo + lead_nul(s@.skip(lo as int)) == lead_nul(s@),
        decreases s.len() - lo,
    {
        assert(s@.skip(lo as int).drop_first() == s@.skip(lo + 1));
        lo = lo + 1;
    }
    assert(lead_nul(s@.skip(lo as int)) == 0);
    let r = copy_chars(s, lo, s.len());
    assert(s@.skip(lo as int) =~= s@.subrange(lo as int, s@.len() as int));
    r
}

/// Index codes: Shanghai `000`, `880`, `881`; Shenzhen `399`.
pub open spec fn is_index_code(market: MarketType, symbol: Seq<char>) -> bool {
    let t = trim_start_nul(symbol);
    if market == MARKET_ID_SHANGHAI {
        sw3(t, '0', '0', '0') || sw3(t, '8', '8', '0') || sw3(t, '8', '8', '1')
    } else if market == MARKET_ID_SHENZHEN {
        sw3(t, '3', '9', '9')
    } else {
        false
    }
}

/// ETF codes: Shanghai `51`; Shenzhen `159`.
pub open spec fn is_etf_code(market: MarketType, symbol: Seq<char>) -> bool {
    let t = trim_start_nul(symbol);
    if market == MARKET_ID_SHANGHAI {
        sw2(t, '5', '1')
    } else if market == MARKET_ID_SHENZHEN {
        sw3(t, '1', '5', '9')
    } else {
        false
    }
}

/// Stock codes: Shanghai `60`, `68`, `51`; Shenzhen `00`, `30`, `159`.
pub open spec fn is_stock_code(market: MarketType, symbol: Seq<char>) -> bool {
    let t = trim_start_nul(symbol);
    if market == MARKET_ID_SHANGHAI {
        sw2(t, '6', '0') || sw2(t, '6', '8') || sw2(t, '5', '1')
    } else if market == MARKET_ID_SHENZHEN {
        sw2(t, '0', '0') || sw2(t, '3', '0') || sw3(t, '1', '5', '9')
    } else {
        false
    }
}

pub(crate) fn pre2(t: &[char], a: char, b: char) -> (r: bool)
    ensures
        r == sw2(t@, a, b),
{
    let p = [a, b];
    assert(p@ =~= seq![a, b]);
    crate::internal::text::has_prefix(t, &p)
}

fn pre3(t: &[char], a: char, b: char, c: char) -> (r: bool)
    ensures
        r == sw3(t@, a, b, c),
{
    let p = [a, b, c];
    assert(p@ =~= seq![a, b, c]);
    crate::internal::text::has_prefix(t, &p)
}

fn index_chars(market: MarketType, symbol: &[char]) -> (r: bool)
    ensures
        r == is_index_code(market, symbol@),
{
    let tv = trim_start_nul_exec(symbol);
    let t = tv.as_slice();
    if market == MARKET_ID_SHANGHAI {
        pre3(t, '0', '0', '0') || pre3(t, '8', '8', '0') || pre3(t, '8', '8', '1')
    } else if market == MARKET_ID_SHENZHEN {
        pre3(t, '3', '9', '9')
    } else {
        false
    }
}

fn stock_chars(market: MarketType, symbol: &[char]) -> (r: bool)
    ensures
        r == is_stock_code(market, symbol@),
{
    let tv = trim_start_nul_exec(symbol);
    let t = tv.as_slice();
    if market == MARKET_ID_SHANGHAI {
        pre2(t, '6', '0') || pre2(t, '6', '8') || pre2(t, '5', '1')
    } else if market == MARKET_ID_SHENZHEN {
        pre2(t, '0', '0') || pre2(t, '3', '0') || pre3(t, '1', '5', '9')
    } else {
        false
    }
}

/// Whether the code is an index (or block) code of the market.
pub fn assert_index_by_market_and_code(market_id: MarketType, symbol: &str) -> (r: bool)
    ensures
        r == is_index_code(market_id, symbol@),
{
    let v = to_chars(symbol);
    index_chars(market_id, v.as_slice())
}

/// Whether a security code such as `"sh000001"` names an index.
pub fn assert_index_by_security_code(security_code: &str) -> (r: bool)
    ensures
        r == is_index_code(spec_detect(security_code@).0, spec_detect(security_code@).2),
{
    let (m, _, c) = detect_chars(security_code);
    index_chars(m, c.as_slice())
}

/// Block codes are Shanghai `880` and `881`; for one, the code is rewritten
/// to its canonical form (flag followed by code).
pub open spec fn is_block(security_code: Seq<char>) -> bool {
    let d = spec_detect(security_code);
    d.0 == MARKET_ID_SHANGHAI && (sw3(d.2, '8', '8', '0') || sw3(d.2, '8', '8', '1'))
}

/// Whether the code names a block; a block code is rewritten in place to
/// its flag-and-code form, any other code is left as it was.
pub fn assert_block_by_security_code(security_code: &mut String) -> (r: bool)
    ensures
        r == is_block(old(security_code)@),
        r ==> final(security_code)@ == spec_detect(old(security_code)@).1 + spec_detect(old(security_code)@).2,
        !r ==> final(security_code)@ == old(security_code)@,
{
    let (m, f, c) = detect_chars(security_code.as_str());
    if m != MARKET_ID_SHANGHAI {
        return false;
    }
    if !(pre3(c.as_slice(), '8', '8', '0') || pre3(c.as_slice(), '8', '8', '1')) {
        return false;
    }
    let mut s = from_chars(f.as_slice());
    push_chars(&mut s, c.as_slice());
    *security_code = s;
    true
}

/// Whether the code is an ETF code of the market.
pub fn assert_etf_by_market_and_code(market_id: MarketType, symbol: &str) -> (r: bool)
    ensures
        r == is_etf_code(market_id, symbol@),
{
    let v = to_chars(symbol);
    let tv = trim_start_nul_exec(v.as_slice());
    let t = tv.as_slice();
    if market_id == MARKET_ID_SHANGHAI {
        pre2(t, '5', '1')
    } else if market_id == MARKET_ID_SHENZHEN {
        pre3(t, '1', '5', '9')
    } else {
        false
    }
}

/// Whether the code is a stock code of the market.
pub fn assert_stock_by_market_and_code(market_id: MarketType, symbol: &str) -> (r: bool)
    ensures
        r == is_stock_code(market_id, symbol@),
{
    let v = to_chars(symbol);
    stock_chars(market_id, v.as_slice())
}

/// Whether a security code names a stock.
pub fn assert_stock_by_security_code(security_code: &str) -> (r: bool)
    ensures
        r == is_stock_code(spec_detect(security_code@).0, spec_detect(security_code@).2),
{
    let (m, _, c) = detect_chars(security_code);
    stock_chars(m, c.as_slice())
}

/// The canonical form of a security code: flag followed by code, empty for
/// a blank code.
pub open spec fn spec_correct_code(security_code: Seq<char>) -> Seq<char> {
    if trim(security_code).len() == 0 {
        Seq::empty()
    } else {
        spec_detect(security_code).1 + spec_detect(security_code).2
    }
}

/// Rewrites a security code to its flag-and-code form.
pub fn correct_security_code(security_code: &str) -> (r: String)
    ensures
        r@ == spec_correct_code(security_code@),
{
    let t = trim_exec(security_code);
    if t.len() == 0 {
        return String::new();
    }
    let (_, f, c) = detect_chars(security_code);
    let mut s = from_chars(f.as_slice());
    push_chars(&mut s, c.as_slice());
    s
}

/// Correcting a corrected security code changes nothing, whenever the code
/// part of the first correction reads back unchanged after its flag.
pub proof fn lemma_correct_code_idempotent(security_code: Seq<char>)
    requires
        plain_code(spec_detect(security_code).2),
    ensures
        spec_correct_code(spec_correct_code(security_code)) == spec_correct_code(security_code),
{
    let once = spec_correct_code(security_code);
    if trim(security_code).len() == 0 {
        assert(once.len() == 0);
        assert(trim(once) =~= once);
    } else {
        let t = trim(security_code);
        let m = market_of(t);
        lemma_detect_flagged(m, spec_detect(security_code).2);
        assert(once == flag_chars(m) + spec_detect(security_code).2);
        assert(spec_detect(once) == spec_detect(security_code));
        assert(trim(once).len() != 0) by {
            if trim(once).len() == 0 {
                assert(spec_detect(once).1 == seq!['s', 'h']);
            }
        }
    }
}

/// The kind of a security: Shanghai `880`/`881` blocks, Shanghai `000` and
/// Shenzhen `399` indexes, Shanghai `51` and Shenzhen `159` ETFs, and stocks
/// otherwise.
pub open spec fn spec_kind(security_code: Seq<char>) -> TargetKind {
    let d = spec_detect(security_code);
    let (m, c) = (d.0, d.2);
    if m == MARKET_ID_SHANGHAI && (sw3(c, '8', '8', '0') || sw3(c, '8', '8', '1')) {
        TargetKind::Block
    } else if m == MARKET_ID_SHANGHAI && sw3(c, '0', '0', '0') {
        TargetKind::Index
    } else if m == MARKET_ID_SHENZHEN && sw3(c, '3', '9', '9') {
        TargetKind::Index
    } else if m == MARKET_ID_SHANGHAI && sw2(c, '5', '1') {
        TargetKind::Etf
    } else if m == MARKET_ID_SHENZHEN && sw3(c, '1', '5', '9') {
        TargetKind::Etf
    } else {
        TargetKind::Stock
    }
}

/// Classifies a security code.
pub fn assert_code(security_code: &str) -> (r: TargetKind)
    ensures
        r == spec_kind(security_code@),
{
    let (m, _, cv) = detect_chars(security_code);
    let c = cv.as_slice();
    if m == MARKET_ID_SHANGHAI && (pre3(c, '8', '8', '0') || pre3(c, '8', '8', '1')) {
        TargetKind::Block
    } else if m == MARKET_ID_SHANGHAI && pre3(c, '0', '0', '0') {
        TargetKind::Index
    } else if m == MARKET_ID_SHENZHEN && pre3(c, '3', '9', '9') {
        TargetKind::Index
    } else if m == MARKET_ID_SHANGHAI && pre2(c, '5', '1') {
        TargetKind::Etf
    } else if m == MARKET_ID_SHENZHEN && pre3(c, '1', '5', '9') {
        TargetKind::Etf
    } else {
        TargetKind::Stock
    }
}

/// Correcting a corrected security code made of ASCII letters and digits
/// changes nothing; a blank one corrects to nothing, any other to its flag
/// and code part.
pub proof fn lemma_correct_alnum_code(security_code: Seq<char>)
    requires
        forall|i: int| 0 <= i < security_code.len() ==> is_alnum(#[trigger] security_code[i]),
    ensures
        spec_correct_code(spec_correct_code(security_code)) == spec_correct_code(security_code),
        trim(security_code).len() == 0 ==> spec_correct_code(security_code) == Seq::<char>::empty(),
        trim(security_code).len() != 0 ==> spec_correct_code(security_code)
            == spec_detect(security_code).1 + spec_detect(security_code).2,
{
    lemma_alnum_code_plain(security_code);
    lemma_correct_code_idempotent(security_code);
}

/// For a symbol without `'\0'`, naming an index (or block) is exactly being
/// classified as an index or a block.
pub proof fn lemma_index_iff_kind(security_code: Seq<char>)
    requires
        forall|i: int| 0 <= i < security_code.len() ==> #[trigger] security_code[i] != '\0',
    ensures
        is_index_code(spec_detect(security_code).0, spec_detect(security_code).2)
            <==> (spec_kind(security_code) == TargetKind::Index || spec_kind(security_code) == TargetKind::Block),
{
    lemma_code_chars(security_code, |ch: char| ch != '\0');
    let c = spec_detect(security_code).2;
    if c.len() > 0 {
        assert(c[0] != '\0');
    }
    assert(lead_nul(c) == 0);
    assert(trim_start_nul(c) =~= c);
}

/// With `k` the number of leading `'\0'` characters, the text after them is
/// what the classification reads.
proof fn lemma_after_nuls(symbol: Seq<char>, k: int)
    requires
        0 <= k <= symbol.len(),
        forall|i: int| 0 <= i < k ==> symbol[i] == '\0',
        k == symbol.len() || symbol[k] != '\0',
    ensures
        lead_nul(symbol) == k,
        trim_start_nul(symbol) == symbol.skip(k),
    decreases k,
{
    if k > 0 {
        let d = symbol.drop_first();
        assert forall|i: int| 0 <= i < k - 1 implies d[i] == '\0' by {
            assert(d[i] == symbol[i + 1]);
        }
        if k < symbol.len() {
            assert(d[k - 1] == symbol[k]);
        }
        lemma_after_nuls(d, k - 1);
    }
}

/// The codes of each kind, read after the `k` leading `'\0'` characters of
/// a symbol. Shanghai: stocks begin with 60, 68 or 51, ETFs with 51,
/// indexes and blocks with 000, 880 or 881. Shenzhen: stocks begin with 00,
/// 30 or 159, ETFs with 159, indexes with 399. No code of another market is
/// a stock, an ETF or an index.
pub proof fn lemma_code_kind_prefixes(market: MarketType, symbol: Seq<char>, k: int)
    requires
        0 <= k <= symbol.len(),
        forall|i: int| 0 <= i < k ==> symbol[i] == '\0',
        k == symbol.len() || symbol[k] != '\0',
    ensures
        ({
            let t = symbol.skip(k);
            &&& market == MARKET_ID_SHANGHAI ==> (is_stock_code(market, symbol) <==>
                begins(t, seq!['6', '0']) || begins(t, seq!['6', '8']) || begins(t, seq!['5', '1']))
            &&& market == MARKET_ID_SHENZHEN ==> (is_stock_code(market, symbol) <==>
                begins(t, seq!['0', '0']) || begins(t, seq!['3', '0']) || begins(t, seq!['1', '5', '9']))
            &&& market == MARKET_ID_SHANGHAI ==> (is_etf_code(market, symbol) <==> begins(t, seq!['5', '1']))
            &&& market == MARKET_ID_SHENZHEN ==> (is_etf_code(market, symbol) <==> begins(t, seq!['1', '5', '9']))
            &&& market == MARKET_ID_SHANGHAI ==> (is_index_code(market, symbol) <==>
                begins(t, seq!['0', '0', '0']) || begins(t, seq!['8', '8', '0']) || begins(t, seq!['8', '8', '1']))
            &&& market == MARKET_ID_SHENZHEN ==> (is_index_code(market, symbol) <==> begins(t, seq!['3', '9', '9']))
            &&& market != MARKET_ID_SHANGHAI && market != MARKET_ID_SHENZHEN ==>
                !is_stock_code(market, symbol) && !is_etf_code(market, symbol) && !is_index_code(market, symbol)
        }),
{
    lemma_after_nuls(symbol, k);
    let t = symbol.skip(k);
    lemma_starts_with_begins(t, seq!['6', '0']);
    lemma_starts_with_begins(t, seq!['6', '8']);
    lemma_starts_with_begins(t, seq!['5', '1']);
    lemma_starts_with_begins(t, seq!['0', '0']);
    lemma_starts_with_begins(t, seq!['3', '0']);
    lemma_starts_with_begins(t, seq!['1', '5', '9']);
    lemma_starts_with_begins(t, seq!['0', '0', '0']);
    lemma_starts_with_begins(t, seq!['8', '8', '0']);
    lemma_starts_with_begins(t, seq!['8', '8', '1']);
    lemma_starts_with_begins(t, seq!['3', '9', '9']);
}

/// For a symbol without `'\0'`, `assert_code` agrees with the single
/// tests: a block exactly when `assert_block_by_security_code` says so, an
/// index exactly when the detected code is an index code of its market and
/// no block, an ETF exactly when it is an ETF code of its market, and a
/// stock otherwise.
pub proof fn lemma_kind_agrees_with_tests(security_code: Seq<char>)
    requires
        forall|i: int| 0 <= i < security_code.len() ==> #[trigger] security_code[i] != '\0',
    ensures
        ({
            let d = spec_detect(security_code);
            let k = spec_kind(security_code);
            &&& k == TargetKind::Block <==> is_block(security_code)
            &&& k == TargetKind::Index <==> is_index_code(d.0, d.2) && !is_block(security_code)
            &&& k == TargetKind::Etf <==> is_etf_code(d.0, d.2)
            &&& k == TargetKind::Stock <==> !is_index_code(d.0, d.2) && !is_etf_code(d.0, d.2)
        }),
{
    lemma_code_chars(security_code, |ch: char| ch != '\0');
    let c = spec_detect(security_code).2;
    if c.len() > 0 {
        assert(c[0] != '\0');
    }
    assert(lead_nul(c) == 0);
    assert(trim_start_nul(c) =~= c);
    lemma_starts_with_begins(c, seq!['5', '1']);
    lemma_starts_with_begins(c, seq!['1', '5', '9']);
    lemma_starts_with_begins(c, seq!['0', '0', '0']);
    lemma_starts_with_begins(c, seq!['8', '8', '0']);
    lemma_starts_with_begins(c, seq!['8', '8', '1']);
    lemma_starts_with_begins(c, seq!['3', '9', '9']);
}

} // verus!
