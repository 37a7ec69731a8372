//! What the library keeps of a security once the list has been read.
use vstd::prelude::*;
use crate::quotes::cmd_security_list::Security;
use crate::quotes::code_map::copy_string;
use crate::internal::text::{push_char, push_str, to_chars};

verus! {

/// Code, volume unit, number of decimals and name of a security.
#[derive(Debug, Clone)]
pub struct SecurityTarget {
    pub code: String,
    pub vol_unit: u16,
    pub decimal_point: i8,
    pub name: String,
}

impl SecurityTarget {
    /// The target of a security of the list.
    pub fn from_security(security: &Security) -> (r: Self)
        ensures
            r.code@ == security.code@,
            r.vol_unit == security.vol_unit,
            r.decimal_point == security.decimal_point,
            r.name@ == security.name@,
    {
        SecurityTarget {
            code: copy_string(&security.code),
            vol_unit: security.vol_unit,
            decimal_point: security.decimal_point,
            name: copy_string(&security.name),
        }
    }
}

/// The key a security is cached under: `sh` before the code for market 1,
/// `sz` for market 0, the code alone for any other market.
pub open spec fn spec_target_code(market_id: u32, code: Seq<char>) -> Seq<char> {
    if market_id == 1 {
        seq!['s', 'h'] + code
    } else if market_id == 0 {
        seq!['s', 'z'] + code
    } else {
        code
    }
}

/// The cache key of a code of the given market.
pub fn get_security_code(market_id: u32, code: &str) -> (r: String)
    ensures
        r@ == spec_target_code(market_id, code@),
{
    let mut s = String::new();
    if market_id == 1 {
        push_char(&mut s, 's');
        push_char(&mut s, 'h');
    } else if market_id == 0 {
        push_char(&mut s, 's');
        push_char(&mut s, 'z');
    }
    push_str(&mut s, code);
    assert(s@ =~= spec_target_code(market_id, code@));
    s
}

/// Lexicographic order of texts by their characters' code points, the
/// order of their UTF-8 bytes.
pub open spec fn chars_lt(a: Seq<char>, b: Seq<char>) -> bool
    decreases a.len(),
{
    if b.len() == 0 {
        false
    } else if a.len() == 0 {
        true
    } else if a[0] != b[0] {
        (a[0] as u32) < (b[0] as u32)
    } else {
        chars_lt(a.drop_first(), b.drop_first())
    }
}

proof fn lemma_chars_lt_transitive(a: Seq<char>, b: Seq<char>, c: Seq<char>)
    requires
        chars_lt(a, b),
        chars_lt(b, c),
    ensures
        chars_lt(a, c),
    decreases a.len(),
{
    if a.len() > 0 && b.len() > 0 && c.len() > 0 && a[0] == b[0] && b[0] == c[0] {
        lemma_chars_lt_transitive(a.drop_first(), b.drop_first(), c.drop_first());
    }
}

proof fn lemma_chars_lt_asymmetric(a: Seq<char>, b: Seq<char>)
    requires
        chars_lt(a, b),
    ensures
        !chars_lt(b, a),
    decreases a.len(),
{
    if a.len() > 0 && b.len() > 0 && a[0] == b[0] {
        lemma_chars_lt_asymmetric(a.drop_first(), b.drop_first());
    }
}

/// Whether the first code sorts before the second.
fn code_lt(a: &String, b: &String) -> (r: bool)
    ensures
        r == chars_lt(a@, b@),
{
    let av = to_chars(a.as_str());
    let bv = to_chars(b.as_str());
    let mut i: usize = 0;
    assert(av@.skip(0) =~= av@);
    assert(bv@.skip(0) =~= bv@);
    while i < av.len() && i < bv.len() && av[i] == bv[i]
        invariant
            i <= av@.len(),
            i <= bv@.len(),
            chars_lt(av@, bv@) == chars_lt(av@.skip(i as int), bv@.skip(i as int)),
        decreases av.len() - i,
    {
        assert(av@.skip(i as int).drop_first() =~= av@.skip(i + 1));
        assert(bv@.skip(i as int).drop_first() =~= bv@.skip(i + 1));
        i = i + 1;
    }
    if i == bv.len() {
        false
    } else if i == av.len() {
        true
    } else {
        assert(av@.skip(i as int)[0] == av@[i as int]);
        assert(bv@.skip(i as int)[0] == bv@[i as int]);
        (av[i] as u32) < (bv[i] as u32)
    }
}

/// Targets in order of their codes.
pub open spec fn sorted_by_code(s: Seq<SecurityTarget>) -> bool {
    forall|i: int, j: int| 0 <= i < j < s.len() ==> !chars_lt(#[trigger] s[j].code@, #[trigger] s[i].code@)
}

/// `r` takes its targets from `list` at the places `idx`, each place at most
/// once, and targets with equal codes come in the order they had in `list`.
pub open spec fn drawn_in_order(r: Seq<SecurityTarget>, list: Seq<SecurityTarget>, idx: Seq<int>) -> bool {
    &&& idx.len() == r.len()
    &&& forall|i: int| 0 <= i < r.len() ==> 0 <= #[trigger] idx[i] < list.len() && r[i] == list[idx[i]]
    &&& forall|i: int, j: int| 0 <= i < j < r.len() ==> #[trigger] idx[i] != #[trigger] idx[j]
    &&& forall|i: int, j: int|
        0 <= i < j < r.len() && (#[trigger] r[i]).code@ == (#[trigger] r[j]).code@ ==> idx[i] < idx[j]
}

/// The targets sorted by code, as the cache file lists them: the same
/// targets, each code not before the one ahead of it, and targets with equal
/// codes in the order they came in.
pub fn sort_targets_by_code(list: Vec<SecurityTarget>) -> (r: Vec<SecurityTarget>)
    ensures
        r@.to_multiset() == list@.to_multiset(),
        r@.len() == list@.len(),
        sorted_by_code(r@),
        exists|idx: Seq<int>| drawn_in_order(r@, list@, idx),
{
    broadcast use vstd::seq_lib::group_to_multiset_ensures;
    let ghost orig = list@;
    let mut rest = list;
    let mut out: Vec<SecurityTarget> = Vec::new();
    let ghost mut idx: Seq<int> = Seq::empty();
    assert(out@.to_multiset().add(rest@.to_multiset()) =~= orig.to_multiset());
    while rest.len() > 0
        invariant
            out@.to_multiset().add(rest@.to_multiset()) == orig.to_multiset(),
            out@.len() + rest@.len() == orig.len(),
            sorted_by_code(out@),
            drawn_in_order(out@, orig, idx),
            forall|i: int| 0 <= i < out@.len() ==> #[trigger] idx[i] < out@.len(),
            forall|m: int| 0 <= m < rest@.len() ==> #[trigger] rest@[m] == orig[out@.len() + m],
        decreases rest@.len(),
    {
        let ghost r0 = rest@;
        let ghost idx0 = idx;
        let ghost t: int = out@.len() as int;
        let x = rest.remove(0);
        let mut k: usize = 0;
        while k < out.len() && !code_lt(&x.code, &out[k].code)
            invariant
                k <= out@.len(),
                forall|m: int| 0 <= m < k ==> !chars_lt(x.code@, #[trigger] out@[m].code@),
            decreases out.len() - k,
        {
            k = k + 1;
        }
        let ghost o0 = out@;
        proof {
            if k < o0.len() {
                assert(chars_lt(x.code@, o0[k as int].code@));
            }
        }
        out.insert(k, x);
        proof {
            let o1 = out@;
            assert forall|i: int, j: int| 0 <= i < j < o1.len() implies !chars_lt(#[trigger] o1[j].code@, #[trigger] o1[i].code@) by {
                if i < k && j < k {
                    assert(o1[i] == o0[i] && o1[j] == o0[j]);
                } else if i < k && j == k {
                    assert(o1[i] == o0[i]);
                } else if i < k {
                    assert(o1[i] == o0[i] && o1[j] == o0[j - 1]);
                    assert(!chars_lt(o0[j - 1].code@, o0[i].code@));
                } else if i == k {
                    assert(o1[j] == o0[j - 1]);
                    assert(chars_lt(x.code@, o0[k as int].code@));
                    if j - 1 > k {
                        assert(!chars_lt(o0[j - 1].code@, o0[k as int].code@));
                    }
                    if chars_lt(o0[j - 1].code@, x.code@) {
                        lemma_chars_lt_transitive(o0[j - 1].code@, x.code@, o0[k as int].code@);
                        if j - 1 == k {
                            lemma_chars_lt_asymmetric(o0[j - 1].code@, x.code@);
                        }
                    }
                } else {
                    assert(o1[i] == o0[i - 1] && o1[j] == o0[j - 1]);
                }
            }
            assert(r0.remove(0) == rest@);
            assert(r0[0] == x);
            vstd::seq_lib::to_multiset_insert(o0, k as int, x);
            vstd::seq_lib::to_multiset_remove(r0, 0);
            assert(out@.to_multiset() == o0.to_multiset().insert(x));
            assert(rest@.to_multiset() == r0.to_multiset().remove(x));
            vstd::seq_lib::to_multiset_contains(r0, x);
            assert(r0.contains(x)) by { assert(r0[0] == x); }
            assert(r0.to_multiset().contains(x));
            assert(out@.to_multiset().add(rest@.to_multiset()) =~= o0.to_multiset().add(r0.to_multiset()));
            idx = idx0.insert(k as int, t);
            assert(x == orig[t]) by { assert(r0[0] == orig[t + 0]); }
            assert forall|i: int| 0 <= i < o1.len() implies 0 <= #[trigger] idx[i] < orig.len()
                && o1[i] == orig[idx[i]] && idx[i] < o1.len() by {
                if i < k {
                    assert(o1[i] == o0[i] && idx[i] == idx0[i]);
                } else if i > k {
                    assert(o1[i] == o0[i - 1] && idx[i] == idx0[i - 1]);
                }
            }
            assert forall|i: int, j: int| 0 <= i < j < o1.len() implies #[trigger] idx[i] != #[trigger] idx[j] by {
                if i < k && j > k {
                    assert(idx[i] == idx0[i] && idx[j] == idx0[j - 1]);
                } else if j > k && i > k {
                    assert(idx[i] == idx0[i - 1] && idx[j] == idx0[j - 1]);
                }
            }
            assert forall|i: int, j: int|
                0 <= i < j < o1.len() && (#[trigger] o1[i]).code@ == (#[trigger] o1[j]).code@
                implies idx[i] < idx[j] by {
                if i < k && j < k {
                    assert(o1[i] == o0[i] && o1[j] == o0[j]);
                } else if i < k && j > k {
                    assert(o1[i] == o0[i] && o1[j] == o0[j - 1]);
                } else if i == k {
                    assert(o1[j] == o0[j - 1]);
                    if j - 1 > k {
                        assert(!chars_lt(o0[j - 1].code@, o0[k as int].code@));
                    } else {
                        lemma_chars_lt_asymmetric(x.code@, o0[k as int].code@);
                    }
                } else if i > k {
                    assert(o1[i] == o0[i - 1] && o1[j] == o0[j - 1]);
                }
            }
            assert forall|m: int| 0 <= m < rest@.len() implies #[trigger] rest@[m] == orig[o1.len() + m] by {
                assert(rest@[m] == r0[m + 1]);
            }
        }
    }
    out
}

} // verus!
