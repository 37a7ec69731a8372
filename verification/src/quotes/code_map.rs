//! The requested stocks of a quotes request, keyed by market flag and code,
//! and the repair of codes that the server sends back garbled.
use vstd::prelude::*;
use crate::exchange::constants::{flag_chars, flag_vec};
use crate::internal::text::{from_chars, to_chars};

verus! {

#[derive(Debug, Clone)]
pub struct Stock {
    pub market: u8,
    pub code: String,
}

/// A requested stock under its key (market flag followed by code).
#[derive(Debug)]
pub struct CodeEntry {
    pub key: Vec<char>,
    pub stock: Stock,
}

pub struct EntryView {
    pub key: Seq<char>,
    pub market: u8,
    pub code: Seq<char>,
}

impl View for CodeEntry {
    type V = EntryView;

    open spec fn view(&self) -> EntryView {
        EntryView { key: self.key@, market: self.stock.market, code: self.stock.code@ }
    }
}

/// A quote as the repair sees it.
pub struct QuoteKey {
    pub market: u8,
    pub code: Seq<char>,
    pub delisting: bool,
}

/// The key of a stock: its market's flag followed by its code.
pub open spec fn quote_key(market: u8, code: Seq<char>) -> Seq<char> {
    flag_chars(market as u16) + code
}

/// The entry a stock is stored as.
pub open spec fn entry_of(market: u8, code: Seq<char>) -> EntryView {
    EntryView { key: quote_key(market, code), market, code }
}

pub open spec fn entries(m: Seq<CodeEntry>) -> Seq<EntryView> {
    m.map_values(|e: CodeEntry| e@)
}

/// Some entry has the key.
pub open spec fn has_key(m: Seq<EntryView>, key: Seq<char>) -> bool {
    exists|i: int| 0 <= i < m.len() && #[trigger] m[i].key == key
}

/// The entries without the key.
pub open spec fn drop_key(m: Seq<EntryView>, key: Seq<char>) -> Seq<EntryView> {
    m.filter(|e: EntryView| e.key != key)
}

/// Stores an entry: it replaces the entries with its key, or comes last.
pub open spec fn put_entry(m: Seq<EntryView>, e: EntryView) -> Seq<EntryView> {
    if has_key(m, e.key) {
        m.map_values(|x: EntryView| if x.key == e.key { e } else { x })
    } else {
        m.push(e)
    }
}

/// The entries of a list of stocks, stored in order.
pub open spec fn stock_entries(stocks: Seq<(u8, Seq<char>)>) -> Seq<EntryView>
    decreases stocks.len(),
{
    if stocks.len() == 0 {
        Seq::empty()
    } else {
        put_entry(stock_entries(stocks.drop_last()), entry_of(stocks.last().0, stocks.last().1))
    }
}

/// The first entry of the market, or the length when there is none.
pub open spec fn first_of_market(m: Seq<EntryView>, market: u8) -> int {
    if exists|i: int| 0 <= i < m.len() && #[trigger] m[i].market == market {
        choose|i: int| 0 <= i < m.len() && m[i].market == market
            && forall|j: int| 0 <= j < i ==> #[trigger] m[j].market != market
    } else {
        m.len() as int
    }
}

/// The entries left once every quote that is not delisted has taken its
/// own entry out.
pub open spec fn drop_live(m: Seq<EntryView>, qs: Seq<QuoteKey>) -> Seq<EntryView>
    decreases qs.len(),
{
    if qs.len() == 0 {
        m
    } else {
        let m1 = drop_live(m, qs.drop_last());
        if qs.last().delisting {
            m1
        } else {
            drop_key(m1, quote_key(qs.last().market, qs.last().code))
        }
    }
}

/// Repair of one quote: with entries left and the quote delisted, an entry
/// under the quote's own key is taken out and the code kept; otherwise the
/// first entry of the same market gives the code and is taken out (with
/// every entry of its key).
pub open spec fn fix_one(q: QuoteKey, m: Seq<EntryView>) -> (Seq<char>, Seq<EntryView>) {
    if m.len() == 0 || !q.delisting {
        (q.code, m)
    } else if has_key(m, quote_key(q.market, q.code)) {
        (q.code, drop_key(m, quote_key(q.market, q.code)))
    } else {
        let i = first_of_market(m, q.market);
        if i < m.len() {
            (m[i].code, drop_key(m, m[i].key))
        } else {
            (q.code, m)
        }
    }
}

/// The codes of the quotes after the repair, in order.
pub open spec fn fix_codes(qs: Seq<QuoteKey>, m: Seq<EntryView>) -> Seq<Seq<char>>
    decreases qs.len(),
{
    if qs.len() == 0 {
        Seq::empty()
    } else {
        let r = fix_one(qs[0], m);
        seq![r.0] + fix_codes(qs.drop_first(), r.1)
    }
}

/// The entries left after the repair.
pub open spec fn fix_rest(qs: Seq<QuoteKey>, m: Seq<EntryView>) -> Seq<EntryView>
    decreases qs.len(),
{
    if qs.len() == 0 {
        m
    } else {
        fix_rest(qs.drop_first(), fix_one(qs[0], m).1)
    }
}

/// A copy of a string.
pub fn copy_string(s: &String) -> (r: String)
    ensures
        r@ == s@,
{
    let v = to_chars(s.as_str());
    from_chars(v.as_slice())
}

fn copy_chars(v: &Vec<char>) -> (r: Vec<char>)
    ensures
        r@ == v@,
{
    let mut r: Vec<char> = Vec::new();
    let mut i: usize = 0;
    while i < v.len()
        invariant
            i <= v@.len(),
            r@ == v@.take(i as int),
        decreases v.len() - i,
    {
        r.push(v[i]);
        assert(v@.take(i + 1) == v@.take(i as int).push(v@[i as int]));
        i = i + 1;
    }
    assert(v@.take(v@.len() as int) == v@);
    r
}

fn same_chars(a: &Vec<char>, b: &Vec<char>) -> (r: bool)
    ensures
        r == (a@ == b@),
{
    if a.len() != b.len() {
        return false;
    }
    let mut i: usize = 0;
    while i < a.len()
        invariant
            i <= a@.len(),
            a@.len() == b@.len(),
            forall|j: int| 0 <= j < i ==> a@[j] == b@[j],
        decreases a.len() - i,
    {
        if a[i] != b[i] {
            return false;
        }
        i = i + 1;
    }
    assert(a@ =~= b@);
    true
}

fn copy_entry(e: &CodeEntry) -> (r: CodeEntry)
    ensures
        r@ == e@,
{
    CodeEntry { key: copy_chars(&e.key), stock: Stock { market: e.stock.market, code: copy_string(&e.stock.code) } }
}

/// The key of a stock.
pub fn key_of(market: u8, code: &String) -> (r: Vec<char>)
    ensures
        r@ == quote_key(market, code@),
{
    let mut k = flag_vec(market as u16);
    let c = to_chars(code.as_str());
    let ghost base = k@;
    let mut i: usize = 0;
    while i < c.len()
        invariant
            i <= c@.len(),
            k@ == base + c@.take(i as int),
        decreases c.len() - i,
    {
        k.push(c[i]);
        assert(c@.take(i + 1) == c@.take(i as int).push(c@[i as int]));
        i = i + 1;
    }
    assert(c@.take(c@.len() as int) == c@);
    k
}

fn has_key_exec(m: &Vec<CodeEntry>, key: &Vec<char>) -> (r: bool)
    ensures
        r == has_key(entries(m@), key@),
{
    let mut i: usize = 0;
    while i < m.len()
        invariant
            i <= m@.len(),
            forall|j: int| 0 <= j < i ==> m@[j].key@ != key@,
        decreases m.len() - i,
    {
        if same_chars(&m[i].key, key) {
            assert(entries(m@)[i as int].key == key@);
            return true;
        }
        i = i + 1;
    }
    assert forall|j: int| 0 <= j < entries(m@).len() implies #[trigger] entries(m@)[j].key != key@ by {
        assert(entries(m@)[j] == m@[j]@);
    }
    false
}

fn first_of_market_exec(m: &Vec<CodeEntry>, market: u8) -> (r: usize)
    ensures
        r == first_of_market(entries(m@), market),
{
    let ghost es = entries(m@);
    let mut i: usize = 0;
    while i < m.len()
        invariant
            i <= m@.len(),
            es == entries(m@),
            forall|j: int| 0 <= j < i ==> #[trigger] es[j].market != market,
        decreases m.len() - i,
    {
        if m[i].stock.market == market {
            assert(es[i as int].market == market);
            let ghost c = choose|k: int| 0 <= k < es.len() && es[k].market == market
                && forall|j: int| 0 <= j < k ==> #[trigger] es[j].market != market;
            assert(0 <= c < es.len() && es[c].market == market
                && forall|j: int| 0 <= j < c ==> #[trigger] es[j].market != market);
            assert(c == i as int) by {
                if c < i {
                    assert(es[c].market != market);
                }
                if c > i {
                    assert(es[i as int].market != market);
                }
            }
            return i;
        }
        i = i + 1;
    }
    i
}

/// Takes the entries with the key out.
pub fn drop_key_exec(m: &mut Vec<CodeEntry>, key: &Vec<char>)
    ensures
        entries(final(m)@) == drop_key(entries(old(m)@), key@),
{
    let ghost es = entries(m@);
    let mut out: Vec<CodeEntry> = Vec::new();
    let mut i: usize = 0;
    assert(es.take(0).filter(|e: EntryView| e.key != key@) =~= Seq::<EntryView>::empty()) by {
        reveal_with_fuel(Seq::filter, 1);
    }
    while i < m.len()
        invariant
            i <= m@.len(),
            es == entries(m@),
            entries(out@) == es.take(i as int).filter(|e: EntryView| e.key != key@),
        decreases m.len() - i,
    {
        let ghost x = es[i as int];
        assert(es.take(i + 1).drop_last() == es.take(i as int));
        assert(es.take(i + 1).last() == x);
        assert(es.take(i + 1).filter(|e: EntryView| e.key != key@) == if x.key != key@ {
            es.take(i as int).filter(|e: EntryView| e.key != key@).push(x)
        } else {
            es.take(i as int).filter(|e: EntryView| e.key != key@)
        }) by {
            reveal_with_fuel(Seq::filter, 1);
        }
        if !same_chars(&m[i].key, key) {
            let c = copy_entry(&m[i]);
            let ghost before = entries(out@);
            out.push(c);
            assert(entries(out@) =~= before.push(x));
        }
        i = i + 1;
    }
    assert(es.take(es.len() as int) == es);
    *m = out;
}

/// Stores an entry under its key.
fn put_entry_exec(m: &mut Vec<CodeEntry>, e: CodeEntry)
    ensures
        entries(final(m)@) == put_entry(entries(old(m)@), e@),
{
    let ghost es = entries(m@);
    let ghost ev = e@;
    if has_key_exec(m, &e.key) {
        let mut out: Vec<CodeEntry> = Vec::new();
        let mut i: usize = 0;
        while i < m.len()
            invariant
                i <= m@.len(),
                es == entries(m@),
                ev == e@,
                entries(out@) =~= es.take(i as int).map_values(|x: EntryView| if x.key == ev.key { ev } else { x }),
            decreases m.len() - i,
        {
            let ghost before = entries(out@);
            let ghost x = es[i as int];
            assert(x == m@[i as int]@);
            if same_chars(&m[i].key, &e.key) {
                let c = copy_entry(&e);
                out.push(c);
                assert(entries(out@) =~= before.push(ev));
            } else {
                let c = copy_entry(&m[i]);
                out.push(c);
                assert(entries(out@) =~= before.push(x));
            }
            assert(es.take(i + 1).map_values(|y: EntryView| if y.key == ev.key { ev } else { y })
                =~= es.take(i as int).map_values(|y: EntryView| if y.key == ev.key { ev } else { y }).push(
                if x.key == ev.key { ev } else { x }));
            i = i + 1;
        }
        assert(es.take(es.len() as int) == es);
        *m = out;
    } else {
        m.push(e);
        assert(entries(m@) =~= es.push(ev));
    }
}

/// The entries of a list of stocks.
pub fn build_entries(stocks: &Vec<Stock>) -> (r: Vec<CodeEntry>)
    ensures
        entries(r@) == stock_entries(stocks@.map_values(|s: Stock| (s.market, s.code@))),
{
    let ghost ss = stocks@.map_values(|s: Stock| (s.market, s.code@));
    let mut m: Vec<CodeEntry> = Vec::new();
    let mut i: usize = 0;
    assert(entries(m@) =~= stock_entries(ss.take(0)));
    while i < stocks.len()
        invariant
            i <= stocks@.len(),
            ss == stocks@.map_values(|s: Stock| (s.market, s.code@)),
            entries(m@) == stock_entries(ss.take(i as int)),
        decreases stocks.len() - i,
    {
        let s = &stocks[i];
        let e = CodeEntry { key: key_of(s.market, &s.code), stock: Stock { market: s.market, code: copy_string(&s.code) } };
        put_entry_exec(&mut m, e);
        assert(ss.take(i + 1).drop_last() == ss.take(i as int));
        assert(ss.take(i + 1).last() == (s.market, s.code@));
        i = i + 1;
    }
    assert(ss.take(ss.len() as int) == ss);
    m
}

/// Repairs one quote against the entries, and gives its code.
pub fn fix_one_exec(m: &mut Vec<CodeEntry>, market: u8, code: &String, delisting: bool) -> (r: String)
    ensures
        (r@, entries(final(m)@)) == fix_one(QuoteKey { market, code: code@, delisting }, entries(old(m)@)),
{
    if m.len() == 0 || !delisting {
        return copy_string(code);
    }
    let key = key_of(market, code);
    if has_key_exec(m, &key) {
        drop_key_exec(m, &key);
        return copy_string(code);
    }
    let i = first_of_market_exec(m, market);
    if i < m.len() {
        let ghost es = entries(m@);
        assert(es[i as int] == m@[i as int]@);
        let c = copy_string(&m[i].stock.code);
        let k = copy_chars(&m[i].key);
        drop_key_exec(m, &k);
        c
    } else {
        copy_string(code)
    }
}

} // verus!

verus! {

/// No key is stored twice.
pub open spec fn keys_unique(m: Seq<EntryView>) -> bool {
    forall|i: int, j: int| 0 <= i < m.len() && 0 <= j < m.len() && i != j ==> #[trigger] m[i].key != #[trigger] m[j].key
}

proof fn lemma_put_entry(m: Seq<EntryView>, e: EntryView)
    requires
        keys_unique(m),
    ensures
        keys_unique(put_entry(m, e)),
        has_key(put_entry(m, e), e.key),
        forall|k: Seq<char>| has_key(m, k) ==> has_key(put_entry(m, e), k),
{
    let r = put_entry(m, e);
    if has_key(m, e.key) {
        let i0 = choose|i: int| 0 <= i < m.len() && #[trigger] m[i].key == e.key;
        assert(r[i0].key == e.key);
        assert forall|k: Seq<char>| has_key(m, k) implies has_key(r, k) by {
            let i = choose|i: int| 0 <= i < m.len() && #[trigger] m[i].key == k;
            assert(r[i].key == k);
        }
        assert forall|i: int, j: int| 0 <= i < r.len() && 0 <= j < r.len() && i != j
            implies #[trigger] r[i].key != #[trigger] r[j].key by {
            assert(r[i].key == m[i].key);
            assert(r[j].key == m[j].key);
        }
    } else {
        assert(r[m.len() as int].key == e.key);
        assert forall|k: Seq<char>| has_key(m, k) implies has_key(r, k) by {
            let i = choose|i: int| 0 <= i < m.len() && #[trigger] m[i].key == k;
            assert(r[i].key == k);
        }
        assert forall|i: int, j: int| 0 <= i < r.len() && 0 <= j < r.len() && i != j
            implies #[trigger] r[i].key != #[trigger] r[j].key by {
            if i < m.len() && j < m.len() {
            } else if i < m.len() {
                assert(m[i].key != e.key);
            } else if j < m.len() {
                assert(m[j].key != e.key);
            }
        }
    }
}

/// Once the requested stocks are stored, each of them is found under its
/// key, and no key is stored twice.
pub proof fn lemma_stock_entries_keys(stocks: Seq<(u8, Seq<char>)>)
    ensures
        keys_unique(stock_entries(stocks)),
        forall|i: int| 0 <= i < stocks.len()
            ==> has_key(stock_entries(stocks), #[trigger] quote_key(stocks[i].0, stocks[i].1)),
    decreases stocks.len(),
{
    if stocks.len() > 0 {
        let p = stocks.drop_last();
        lemma_stock_entries_keys(p);
        lemma_put_entry(stock_entries(p), entry_of(stocks.last().0, stocks.last().1));
        assert forall|i: int| 0 <= i < stocks.len()
            implies has_key(stock_entries(stocks), #[trigger] quote_key(stocks[i].0, stocks[i].1)) by {
            if i < p.len() {
                assert(stocks[i] == p[i]);
                assert(has_key(stock_entries(p), quote_key(p[i].0, p[i].1)));
            }
        }
    }
}

/// A repaired code is the quote's own code, or the code of a requested
/// stock of the quote's market.
pub open spec fn code_origin(q: QuoteKey, m: Seq<EntryView>, c: Seq<char>) -> bool {
    c == q.code || exists|e: EntryView| #[trigger] m.contains(e) && e.market == q.market && e.code == c
}

proof fn lemma_fix_one(q: QuoteKey, m: Seq<EntryView>)
    ensures
        code_origin(q, m, fix_one(q, m).0),
        forall|e: EntryView| #[trigger] fix_one(q, m).1.contains(e) ==> m.contains(e),
{
    if m.len() == 0 || !q.delisting {
    } else if has_key(m, quote_key(q.market, q.code)) {
        let k = quote_key(q.market, q.code);
        assert forall|e: EntryView| #[trigger] fix_one(q, m).1.contains(e) implies m.contains(e) by {
            m.lemma_filter_contains_rev(|x: EntryView| x.key != k, e);
        }
    } else {
        let i = first_of_market(m, q.market);
        lemma_first_of_market(m, q.market);
        if i < m.len() {
            assert(m[i].market == q.market);
            assert(m.contains(m[i]));
            let k = m[i].key;
            assert forall|e: EntryView| #[trigger] fix_one(q, m).1.contains(e) implies m.contains(e) by {
                m.lemma_filter_contains_rev(|x: EntryView| x.key != k, e);
            }
        }
    }
}

proof fn lemma_first_minimal(m: Seq<EntryView>, market: u8, k: int)
    requires
        0 <= k <= m.len(),
        forall|j: int| 0 <= j < k ==> #[trigger] m[j].market != market,
        exists|i: int| 0 <= i < m.len() && #[trigger] m[i].market == market,
    ensures
        exists|i: int| 0 <= i < m.len() && m[i].market == market
            && forall|j: int| 0 <= j < i ==> #[trigger] m[j].market != market,
    decreases m.len() - k,
{
    if k < m.len() {
        if m[k].market == market {
            assert(0 <= k < m.len() && m[k].market == market
                && forall|j: int| 0 <= j < k ==> #[trigger] m[j].market != market);
        } else {
            lemma_first_minimal(m, market, k + 1);
        }
    } else {
        let i = choose|i: int| 0 <= i < m.len() && #[trigger] m[i].market == market;
        assert(m[i].market != market);
    }
}

/// The first entry of a market, when there is one, is of that market.
proof fn lemma_first_of_market(m: Seq<EntryView>, market: u8)
    ensures
        first_of_market(m, market) < m.len() ==> m[first_of_market(m, market)].market == market
            && 0 <= first_of_market(m, market),
{
    if exists|i: int| 0 <= i < m.len() && #[trigger] m[i].market == market {
        lemma_first_minimal(m, market, 0);
    }
}

/// Every repaired code is the quote's own code or the code of a requested
/// stock of the quote's market.
pub proof fn lemma_fix_codes_origin(qs: Seq<QuoteKey>, m: Seq<EntryView>)
    ensures
        fix_codes(qs, m).len() == qs.len(),
        forall|i: int| 0 <= i < qs.len() ==> code_origin(qs[i], m, #[trigger] fix_codes(qs, m)[i]),
    decreases qs.len(),
{
    if qs.len() > 0 {
        let r = fix_one(qs[0], m);
        let rest = qs.drop_first();
        lemma_fix_one(qs[0], m);
        lemma_fix_codes_origin(rest, r.1);
        assert forall|i: int| 0 <= i < qs.len() implies code_origin(qs[i], m, #[trigger] fix_codes(qs, m)[i]) by {
            if i > 0 {
                assert(qs[i] == rest[i - 1]);
                assert(fix_codes(qs, m)[i] == fix_codes(rest, r.1)[i - 1]);
                if fix_codes(qs, m)[i] != qs[i].code {
                    let e = choose|e: EntryView| #[trigger] r.1.contains(e) && e.market == rest[i - 1].market
                        && e.code == fix_codes(rest, r.1)[i - 1];
                    assert(m.contains(e));
                }
            }
        }
    }
}

} // verus!
