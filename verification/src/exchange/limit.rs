//! How far a price may move in a day.
use vstd::prelude::*;
use crate::exchange::classify::{pre2, trim_start_nul, trim_start_nul_exec};
use crate::exchange::constants::flag_chars;
use crate::exchange::symbol::{detect_chars, spec_detect, sw2};

verus! {

/// The daily limit of a security, in percent: 30 on the Beijing exchange,
/// 20 for codes starting `30` or `68` (ignoring leading `'\0'`), 10 otherwise.
pub open spec fn spec_limit_percent(security_code: Seq<char>) -> u32 {
    let d = spec_detect(security_code);
    let c = trim_start_nul(d.2);
    if d.1 == seq!['b', 'j'] {
        30
    } else if sw2(c, '3', '0') || sw2(c, '6', '8') {
        20
    } else {
        10
    }
}

/// The daily price limit of a security, in percent.
pub fn market_limit_percent(security_code: &str) -> (r: u32)
    ensures
        r == spec_limit_percent(security_code@),
{
    let (_, f, c) = detect_chars(security_code);
    if f.len() == 2 && f[0] == 'b' && f[1] == 'j' {
        assert(f@ =~= seq!['b', 'j']);
        return 30;
    }
    assert(!(f@ == seq!['b', 'j'])) by {
        if f@ == seq!['b', 'j'] {
            assert(f@.len() == 2 && f@[0] == 'b' && f@[1] == 'j');
        }
    }
    let t = trim_start_nul_exec(c.as_slice());
    if pre2(t.as_slice(), '3', '0') || pre2(t.as_slice(), '6', '8') {
        20
    } else {
        10
    }
}

} // verus!
