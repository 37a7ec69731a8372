//! Wire-format decoding helpers: variable-length integers, packed dates and
//! times, decimal text and GB18030 text.
use vstd::prelude::*;
use std::io::{Read, Write};
use crate::exchange::constants::{MarketType, MARKET_ID_SHANGHAI, MARKET_ID_SHENZHEN};
use crate::internal::bytes::{le_u16, le_u32, read_u16_le, read_u32_le};
use crate::internal::text::{decode_bytes, decode_text, push_char, from_chars};
use crate::quotes::base_consts::QuotesError;

verus! {

/// Outcome of decoding a value that the protocol reader may reject or on
/// which its integer arithmetic would overflow.
pub enum Decoded<T> {
    /// The value and the position after it.
    Value(T, int),
    /// The reader reports an error.
    Error(QuotesError),
    /// The reader's `i32` arithmetic would overflow; readers report it as the
    /// `Overflow` error.
    Overflow,
}

impl<T> Decoded<T> {
    /// The error a reading that did not end with a value reports: its own
    /// error, or `Overflow`.
    pub open spec fn error_of(self) -> QuotesError {
        match self {
            Decoded::Error(e) => e,
            _ => QuotesError::Overflow,
        }
    }
}

/// Finishes a variable-length integer of magnitude `v` ending at `last`.
pub open spec fn varint_finish(v: int, negative: bool, last: int) -> Decoded<i32> {
    if negative {
        if v == -0x8000_0000 { Decoded::Overflow } else { Decoded::Value((-v) as i32, last + 1) }
    } else {
        Decoded::Value(v as i32, last + 1)
    }
}

/// The term that the fifth byte of a variable-length integer adds: its low
/// seven bits shifted left by 27 inside an `i32`, where the two top bits fall
/// off and bit 31 is the sign.
pub open spec fn varint_top_term(b: u8) -> int {
    let x = (b % 128) % 32;
    if x >= 16 { x * 0x0800_0000 - 0x1_0000_0000 } else { x * 0x0800_0000 }
}

/// The protocol's variable-length integer at `pos`: six value bits, a sign
/// bit and a continuation bit in the first byte, then seven value bits and a
/// continuation bit in each further byte, least significant group first.
/// A sixth byte would shift past the width of `i32`.
pub open spec fn spec_varint(data: Seq<u8>, pos: int) -> Decoded<i32> {
    let n = data.len();
    if pos < 0 || pos >= n {
        Decoded::Error(QuotesError::BufferUnderflow)
    } else {
        let b0 = data[pos];
        let neg = (b0 / 64) % 2 == 1;
        let v0 = (b0 % 64) as int;
        if b0 < 128 {
            varint_finish(v0, neg, pos)
        } else if pos + 1 >= n {
            Decoded::Error(QuotesError::BufferUnderflow)
        } else {
            let b1 = data[pos + 1];
            let v1 = v0 + (b1 % 128) * 64;
            if b1 < 128 {
                varint_finish(v1, neg, pos + 1)
            } else if pos + 2 >= n {
                Decoded::Error(QuotesError::BufferUnderflow)
            } else {
                let b2 = data[pos + 2];
                let v2 = v1 + (b2 % 128) * 8192;
                if b2 < 128 {
                    varint_finish(v2, neg, pos + 2)
                } else if pos + 3 >= n {
                    Decoded::Error(QuotesError::BufferUnderflow)
                } else {
                    let b3 = data[pos + 3];
                    let v3 = v2 + (b3 % 128) * 0x10_0000;
                    if b3 < 128 {
                        varint_finish(v3, neg, pos + 3)
                    } else if pos + 4 >= n {
                        Decoded::Error(QuotesError::BufferUnderflow)
                    } else {
                        let b4 = data[pos + 4];
                        let v4 = v3 + varint_top_term(b4);
                        if b4 < 128 {
                            varint_finish(v4, neg, pos + 4)
                        } else if pos + 5 >= n {
                            Decoded::Error(QuotesError::BufferUnderflow)
                        } else {
                            Decoded::Overflow
                        }
                    }
                }
            }
        }
    }
}

/// Decodes the variable-length integer at `*pos` and moves `*pos` past it.
/// On an error `*pos` ends at the larger of its old value and the data's
/// length, as the reader leaves it; an integer whose arithmetic would leave
/// `i32` is the `Overflow` error.
pub fn decode_varint(data: &[u8], pos: &mut usize) -> (r: Result<i32, QuotesError>)
    ensures
        match spec_varint(data@, *old(pos) as int) {
            Decoded::Value(v, p) => r == Ok::<i32, QuotesError>(v) && *final(pos) == p,
            Decoded::Error(e) => r == Err::<i32, QuotesError>(e)
                && *final(pos) == if *old(pos) >= data@.len() { *old(pos) as int } else { data@.len() as int },
            Decoded::Overflow => r == Err::<i32, QuotesError>(QuotesError::Overflow),
        },
{
    let n = data.len();
    let p = *pos;
    if p >= n {
        return Err(QuotesError::BufferUnderflow);
    }
    let b0 = data[p];
    let neg = (b0 / 64) % 2 == 1;
    let mut v: i64 = (b0 % 64) as i64;
    let mut last = p;
    if b0 >= 128 {
        if p + 1 >= n {
            *pos = n;
            return Err(QuotesError::BufferUnderflow);
        }
        let b1 = data[p + 1];
        v = v + (b1 % 128) as i64 * 64;
        last = p + 1;
        if b1 >= 128 {
            if p + 2 >= n {
                *pos = n;
                return Err(QuotesError::BufferUnderflow);
            }
            let b2 = data[p + 2];
            v = v + (b2 % 128) as i64 * 8192;
            last = p + 2;
            if b2 >= 128 {
                if p + 3 >= n {
                    *pos = n;
                    return Err(QuotesError::BufferUnderflow);
                }
                let b3 = data[p + 3];
                v = v + (b3 % 128) as i64 * 0x10_0000;
                last = p + 3;
                if b3 >= 128 {
                    if p + 4 >= n {
                        *pos = n;
                        return Err(QuotesError::BufferUnderflow);
                    }
                    let b4 = data[p + 4];
                    let x: i64 = ((b4 % 128) % 32) as i64;
                    let term: i64 = if x >= 16 { x * 0x0800_0000 - 0x1_0000_0000 } else { x * 0x0800_0000 };
                    v = v + term;
                    last = p + 4;
                    if b4 >= 128 {
                        if p + 5 >= n {
                            *pos = n;
                            return Err(QuotesError::BufferUnderflow);
                        }
                        return Err(QuotesError::Overflow);
                    }
                }
            }
        }
    }
    if neg && v == -0x8000_0000 {
        return Err(QuotesError::Overflow);
    }
    *pos = last + 1;
    if neg {
        Ok((-v) as i32)
    } else {
        Ok(v as i32)
    }
}

} // verus!

verus! {

/// `get_datetime_from_u32`: year, month, day, hour and minute of a packed
/// date. Minute-level categories (below 4, and 7, 8) pack the year above bit
/// 11 (from 2004) with `month * 100 + day` below it and carry the time as
/// minutes of the day; the other categories pack `yyyymmdd` and read as
/// 15:00.
pub open spec fn spec_datetime_from_u32(category: i32, zipday: u32, tminutes: u16) -> (i32, i32, i32, i32, i32) {
    if category < 4 || category == 7 || category == 8 {
        (
            (zipday / 2048 + 2004) as i32,
            ((zipday % 2048) / 100) as i32,
            ((zipday % 2048) % 100) as i32,
            (tminutes / 60) as i32,
            (tminutes % 60) as i32,
        )
    } else {
        ((zipday / 10000) as i32, ((zipday % 10000) / 100) as i32, (zipday % 100) as i32, 15, 0)
    }
}

/// Unpacks a date (and time) as the bar replies carry them.
pub fn get_datetime_from_u32(category: i32, zipday: u32, tminutes: u16) -> (r: (i32, i32, i32, i32, i32))
    ensures
        r == spec_datetime_from_u32(category, zipday, tminutes),
{
    if category < 4 || category == 7 || category == 8 {
        (
            (zipday / 2048 + 2004) as i32,
            ((zipday % 2048) / 100) as i32,
            ((zipday % 2048) % 100) as i32,
            (tminutes / 60) as i32,
            (tminutes % 60) as i32,
        )
    } else {
        ((zipday / 10000) as i32, ((zipday % 10000) / 100) as i32, (zipday % 100) as i32, 15, 0)
    }
}

/// `get_datetime` at `pos`: minute-level categories read two little-endian
/// `u16` (date and minutes), the others one `u32` date.
pub open spec fn spec_get_datetime(category: i32, data: Seq<u8>, pos: int) -> Decoded<(i32, i32, i32, i32, i32)> {
    if pos + 4 > data.len() {
        Decoded::Error(QuotesError::BufferUnderflow)
    } else if category < 4 || category == 7 || category == 8 {
        Decoded::Value(
            spec_datetime_from_u32(category, le_u16(data, pos) as u32, le_u16(data, pos + 2) as u16),
            pos + 4,
        )
    } else {
        Decoded::Value(spec_datetime_from_u32(category, le_u32(data, pos) as u32, 0), pos + 4)
    }
}

/// Reads a packed date at `*pos` and moves past it; on an error `*pos` is
/// left as it was.
pub fn get_datetime(category: i32, data: &[u8], pos: &mut usize) -> (r: Result<(i32, i32, i32, i32, i32), QuotesError>)
    requires
        *old(pos) + 4 <= usize::MAX,
    ensures
        match spec_get_datetime(category, data@, *old(pos) as int) {
            Decoded::Value(v, p) => r == Ok::<(i32, i32, i32, i32, i32), QuotesError>(v) && *final(pos) == p,
            Decoded::Error(e) => r == Err::<(i32, i32, i32, i32, i32), QuotesError>(e) && *final(pos) == *old(pos),
            Decoded::Overflow => false,
        },
{
    let p = *pos;
    if p + 4 > data.len() {
        return Err(QuotesError::BufferUnderflow);
    }
    if category < 4 || category == 7 || category == 8 {
        let zipday = read_u16_le(data, p);
        let tminutes = read_u16_le(data, p + 2);
        *pos = p + 4;
        Ok(get_datetime_from_u32(category, zipday as u32, tminutes))
    } else {
        let zipday = read_u32_le(data, p);
        *pos = p + 4;
        Ok(get_datetime_from_u32(category, zipday, 0))
    }
}

/// `get_time` at `pos`: a little-endian `u16` count of minutes, split into
/// hours and minutes.
pub open spec fn spec_get_time(data: Seq<u8>, pos: int) -> Decoded<(u16, u16)> {
    if pos + 2 > data.len() {
        Decoded::Error(QuotesError::BufferUnderflow)
    } else {
        Decoded::Value(((le_u16(data, pos) / 60) as u16, (le_u16(data, pos) % 60) as u16), pos + 2)
    }
}

/// Reads a packed time of day at `*pos` and moves past it; on an error
/// `*pos` is left as it was.
pub fn get_time(data: &[u8], pos: &mut usize) -> (r: Result<(u16, u16), QuotesError>)
    requires
        *old(pos) + 2 <= usize::MAX,
    ensures
        match spec_get_time(data@, *old(pos) as int) {
            Decoded::Value(v, p) => r == Ok::<(u16, u16), QuotesError>(v) && *final(pos) == p,
            Decoded::Error(e) => r == Err::<(u16, u16), QuotesError>(e) && *final(pos) == *old(pos),
            Decoded::Overflow => false,
        },
{
    let p = *pos;
    if p + 2 > data.len() {
        return Err(QuotesError::BufferUnderflow);
    }
    let sec = read_u16_le(data, p);
    *pos = p + 2;
    Ok((sec / 60, sec % 60))
}

/// The decimal digit character of `d`.
pub open spec fn digit_char(d: int) -> char {
    ('0' as u32 + d) as char
}

/// Decimal digits of `n`, without leading zeros.
pub open spec fn dec_digits(n: nat) -> Seq<char>
    decreases n,
{
    if n < 10 { seq![digit_char(n as int)] } else { dec_digits(n / 10) + seq![digit_char((n % 10) as int)] }
}

/// `s` preceded by zeros up to width `w`.
pub open spec fn zero_pad(s: Seq<char>, w: int) -> Seq<char> {
    if s.len() >= w { s } else { Seq::new((w - s.len()) as nat, |i: int| '0') + s }
}

/// `format!("{:0w$}", n)` of an integer: the sign, then the digits padded
/// with zeros so that sign and digits fill `w` characters.
pub open spec fn fmt_int(n: int, w: int) -> Seq<char> {
    if n < 0 { seq!['-'] + zero_pad(dec_digits((-n) as nat), w - 1) } else { zero_pad(dec_digits(n as nat), w) }
}

fn push_digits(v: &mut Vec<char>, n: u64)
    ensures
        final(v)@ == old(v)@ + dec_digits(n as nat),
    decreases n,
{
    if n >= 10 {
        push_digits(v, n / 10);
    }
    v.push(((n % 10) as u8 + 48) as char);
    assert(n >= 10 ==> dec_digits(n as nat) == dec_digits((n / 10) as nat) + seq![digit_char((n % 10) as int)]);
}

fn pad_into(s: &mut String, digits: &Vec<char>, w: usize)
    ensures
        final(s)@ == old(s)@ + zero_pad(digits@, w as int),
{
    let mut k: usize = digits.len();
    let ghost base = s@;
    let ghost pad_len: int = if digits@.len() >= w { 0 } else { w - digits@.len() };
    while k < w
        invariant
            digits@.len() <= k <= (if w > digits@.len() { w as int } else { digits@.len() as int }),
            s@ == base + Seq::new((k - digits@.len()) as nat, |i: int| '0'),
        decreases w - k,
    {
        push_char(s, '0');
        assert(Seq::new((k + 1 - digits@.len()) as nat, |i: int| '0')
            =~= Seq::new((k - digits@.len()) as nat, |i: int| '0').push('0'));
        k = k + 1;
    }
    crate::internal::text::push_chars(s, digits.as_slice());
    assert(s@ =~= base + zero_pad(digits@, w as int));
}

/// Appends `format!("{:0w$}", n)`.
pub fn push_int(s: &mut String, n: i64, w: usize)
    requires
        n > i64::MIN,
        w >= 1,
    ensures
        final(s)@ == old(s)@ + fmt_int(n as int, w as int),
{
    let mut d: Vec<char> = Vec::new();
    if n < 0 {
        push_digits(&mut d, (-n) as u64);
        assert(d@ == dec_digits((-n) as nat));
        push_char(s, '-');
        let ghost mid = s@;
        pad_into(s, &d, w - 1);
        assert(s@ == old(s)@ + (seq!['-'] + zero_pad(d@, w - 1)));
    } else {
        push_digits(&mut d, n as u64);
        assert(d@ == dec_digits(n as nat));
        pad_into(s, &d, w);
    }
}

/// `format!("{:0w$.3}", k / 1000)` of a number of thousandths.
pub open spec fn fmt_milli(k: int, w: int) -> Seq<char> {
    let a = if k < 0 { -k } else { k };
    let body = dec_digits((a / 1000) as nat) + seq!['.'] + zero_pad(dec_digits((a % 1000) as nat), 3);
    if k < 0 { seq!['-'] + zero_pad(body, w - 1) } else { zero_pad(body, w) }
}

fn push_milli(s: &mut String, k: i64, w: usize)
    requires
        k > i64::MIN,
        w >= 1,
    ensures
        final(s)@ == old(s)@ + fmt_milli(k as int, w as int),
{
    let a: u64 = if k < 0 { (-k) as u64 } else { k as u64 };
    let mut body: Vec<char> = Vec::new();
    push_digits(&mut body, a / 1000);
    body.push('.');
    let mut frac: Vec<char> = Vec::new();
    push_digits(&mut frac, a % 1000);
    let mut fs = String::new();
    pad_into(&mut fs, &frac, 3);
    let fv = crate::internal::text::to_chars(fs.as_str());
    let mut i: usize = 0;
    let ghost b0 = body@;
    while i < fv.len()
        invariant
            i <= fv@.len(),
            body@ == b0 + fv@.take(i as int),
        decreases fv.len() - i,
    {
        body.push(fv[i]);
        assert(fv@.take(i + 1) == fv@.take(i as int).push(fv@[i as int]));
        i = i + 1;
    }
    assert(fv@.take(fv@.len() as int) == fv@);
    assert(body@ == dec_digits((a / 1000) as nat) + seq!['.'] + zero_pad(dec_digits((a % 1000) as nat), 3));
    if k < 0 {
        push_char(s, '-');
        pad_into(s, &body, w - 1);
        assert(s@ == old(s)@ + (seq!['-'] + zero_pad(body@, w - 1)));
    } else {
        pad_into(s, &body, w);
    }
}

/// Truncating division, as Rust's `/` on signed integers.
pub open spec fn tdiv(a: int, b: int) -> int {
    if a >= 0 { a / b } else { -((-a) / b) }
}

/// Remainder of truncating division, as Rust's `%` on signed integers.
pub open spec fn trem(a: int, b: int) -> int {
    a - b * tdiv(a, b)
}

/// Bound below which a quotient's numerator is doubled: `2^52 * 10^6`, so
/// that a numerator scaled into `[2^52 * 10^6, 2^53 * 10^6)` and divided by
/// `10^6` gives the 53 significant bits of an `f64`.
pub open spec fn mantissa_floor() -> int {
    0x10_0000_0000_0000int * 1_000_000int
}

/// `v` doubled until it reaches `mantissa_floor()`, at most `fuel` times.
pub open spec fn scale_up(v: int, fuel: nat) -> int
    decreases fuel,
{
    if fuel == 0 || v >= mantissa_floor() { v } else { scale_up(v * 2, (fuel - 1) as nat) }
}

/// For `t` between 1 and 6 * 10^7 whose quotient `t / 10^6` lies exactly
/// half-way between two thousandths: whether printing that quotient as an
/// `f64` with three decimals rounds it up. The division gives the `f64`
/// nearest the quotient: above it when the dropped part of the scaled
/// numerator is more than a half, below when less. When nothing is dropped
/// the quotient is exact and the printed tie goes to the even digit.
pub open spec fn tie_rounds_up(t: int) -> bool {
    let v = scale_up(t, 64);
    let f = v % 1_000_000;
    if f == 0 { (t / 1000) % 2 == 1 } else { 2 * f > 1_000_000 }
}

/// Thousandths of a second printed for a remainder `tmp1` (0 to 999 999)
/// read as a fraction of a minute: `tmp1 * 60 / 10^6` seconds, printed as
/// an `f64` with three decimals.
pub open spec fn late_millis(tmp1: int) -> int {
    let q = (tmp1 * 6) / 100;
    let r = (tmp1 * 6) % 100;
    if r > 50 || (r == 50 && tie_rounds_up(tmp1 * 60)) { q + 1 } else { q }
}

/// `time_from_int`: a packed time `hhmmssss` (hours times 1 000 000, minutes
/// times 10 000, then seconds in units of 1/10 000 minute) as
/// `"hh:mm:ss.sss"`. When the minute field reads 60 or more, the hour is
/// raised by one and the whole remainder is read as a fraction of a minute,
/// its seconds rounded to thousandths as an `f64` prints them.
pub open spec fn spec_time_from_int(stamp: i32) -> Seq<char> {
    let h = tdiv(stamp as int, 1_000_000);
    let tmp1 = trem(stamp as int, 1_000_000);
    let m1 = tdiv(tmp1, 10_000);
    let tmp2 = trem(tmp1, 10_000);
    if m1 < 60 {
        fmt_int(h, 2) + seq![':'] + fmt_int(m1, 2) + seq![':'] + fmt_milli(tmp2 * 6, 6)
    } else {
        fmt_int(h + 1, 2) + seq![':'] + fmt_int(0, 2) + seq![':'] + fmt_milli(late_millis(tmp1), 6)
    }
}

fn tie_rounds_up_exec(t: u64) -> (r: bool)
    requires
        1 <= t <= 60_000_000,
    ensures
        r == tie_rounds_up(t as int),
{
    let floor: u128 = 0x10_0000_0000_0000u128 * 1_000_000u128;
    let mut v: u128 = t as u128;
    let mut fuel: u64 = 64;
    while fuel > 0 && v < floor
        invariant
            1 <= v,
            v < 2 * floor,
            floor == mantissa_floor(),
            fuel <= 64,
            scale_up(v as int, fuel as nat) == scale_up(t as int, 64),
        decreases fuel,
    {
        v = v * 2;
        fuel = fuel - 1;
    }
    let f = v % 1_000_000;
    if f == 0 {
        (t / 1000) % 2 == 1
    } else {
        2 * f > 1_000_000
    }
}

fn late_millis_exec(tmp1: i64) -> (r: i64)
    requires
        0 <= tmp1 < 1_000_000,
    ensures
        r == late_millis(tmp1 as int),
{
    let q = (tmp1 * 6) / 100;
    let rem = (tmp1 * 6) % 100;
    if rem > 50 {
        q + 1
    } else if rem == 50 {
        assert(tmp1 * 60 >= 1) by (nonlinear_arith) requires tmp1 * 6 >= 50;
        if tie_rounds_up_exec((tmp1 * 60) as u64) { q + 1 } else { q }
    } else {
        q
    }
}

/// Formats a packed time of day.
pub fn time_from_int(stamp: i32) -> (r: String)
    ensures
        r@ == spec_time_from_int(stamp),
{
    let s = stamp as i64;
    let a: i64 = if s < 0 { -s } else { s };
    let ha = a / 1_000_000;
    let ra = a % 1_000_000;
    let ma = ra / 10_000;
    let qa = ra % 10_000;
    let (h, tmp1, m1, tmp2) = if s < 0 { (-ha, -ra, -ma, -qa) } else { (ha, ra, ma, qa) };
    assert(h == tdiv(stamp as int, 1_000_000));
    assert(tmp1 == trem(stamp as int, 1_000_000));
    assert(m1 == tdiv(tmp1 as int, 10_000));
    assert(tmp2 == trem(tmp1 as int, 10_000));
    let mut out = String::new();
    if m1 < 60 {
        push_int(&mut out, h, 2);
        push_char(&mut out, ':');
        push_int(&mut out, m1, 2);
        push_char(&mut out, ':');
        push_milli(&mut out, tmp2 * 6, 6);
    } else {
        push_int(&mut out, h + 1, 2);
        push_char(&mut out, ':');
        push_int(&mut out, 0, 2);
        push_char(&mut out, ':');
        let ms = late_millis_exec(tmp1);
        push_milli(&mut out, ms, 6);
    }
    out
}

/// Default price unit of a security: 1000 for Shanghai `51` and Shenzhen
/// `159` funds, 100 otherwise.
pub open spec fn spec_default_base_unit(market_id: u16, code: Seq<char>) -> u32 {
    if market_id == MARKET_ID_SHANGHAI && crate::exchange::symbol::sw2(code, '5', '1') {
        1000
    } else if market_id == MARKET_ID_SHENZHEN && crate::exchange::symbol::sw3(code, '1', '5', '9') {
        1000
    } else {
        100
    }
}

/// The number that raw prices of a security are divided by.
pub fn default_base_unit(market_id: u16, code: &[char]) -> (r: u32)
    ensures
        r == spec_default_base_unit(market_id, code@),
{
    let p2 = ['5', '1'];
    let p3 = ['1', '5', '9'];
    assert(p2@ =~= seq!['5', '1']);
    assert(p3@ =~= seq!['1', '5', '9']);
    if market_id == MARKET_ID_SHANGHAI && crate::internal::text::has_prefix(code, &p2) {
        1000
    } else if market_id == MARKET_ID_SHENZHEN && crate::internal::text::has_prefix(code, &p3) {
        1000
    } else {
        100
    }
}

} // verus!

verus! {

/// Index of the first zero byte, or the length when there is none.
pub open spec fn nul_end(b: Seq<u8>) -> int
    decreases b.len(),
{
    if b.len() == 0 || b[0] == 0 { 0 } else { 1 + nul_end(b.drop_first()) }
}

/// The characters other than `'\0'`.
pub open spec fn drop_nul_chars(s: Seq<char>) -> Seq<char> {
    s.filter(|c: char| c != '\0')
}

/// `utf8_to_gbk`: the GB18030 text of the bytes before the first zero byte,
/// without `'\0'` characters.
pub open spec fn spec_utf8_to_gbk(b: Seq<u8>) -> Seq<char> {
    drop_nul_chars(decode_text(false, b.take(nul_end(b))).0)
}

/// `v1_utf8_to_gbk`: the GB18030 text of all the bytes, without `'\0'`
/// characters.
pub open spec fn spec_v1_utf8_to_gbk(b: Seq<u8>) -> Seq<char> {
    drop_nul_chars(decode_text(false, b).0)
}

proof fn lemma_nul_end(b: Seq<u8>, i: int)
    requires
        0 <= i <= b.len(),
        forall|j: int| 0 <= j < i ==> b[j] != 0,
    ensures
        i + nul_end(b.skip(i)) == nul_end(b),
    decreases i,
{
    if i > 0 {
        lemma_nul_end(b, i - 1);
        assert(b.skip(i - 1).drop_first() == b.skip(i));
    } else {
        assert(b.skip(0) == b);
    }
}

proof fn lemma_nul_end_bound(b: Seq<u8>)
    ensures
        0 <= nul_end(b) <= b.len(),
    decreases b.len(),
{
    if b.len() > 0 && b[0] != 0 {
        lemma_nul_end_bound(b.drop_first());
    }
}

fn drop_nul_exec(s: &String) -> (r: String)
    ensures
        r@ == drop_nul_chars(s@),
{
    let v = crate::internal::text::to_chars(s.as_str());
    let mut out = String::new();
    let mut i: usize = 0;
    while i < v.len()
        invariant
            i <= v@.len(),
            out@ == drop_nul_chars(v@.take(i as int)),
        decreases v.len() - i,
    {
        let c = v[i];
        assert(v@.take(i + 1).drop_last() == v@.take(i as int));
        assert(v@.take(i + 1).last() == c);
        assert(drop_nul_chars(v@.take(i + 1)) == if c != '\0' {
            drop_nul_chars(v@.take(i as int)).push(c)
        } else {
            drop_nul_chars(v@.take(i as int))
        }) by {
            reveal_with_fuel(Seq::filter, 1);
        }
        if c != '\0' {
            push_char(&mut out, c);
        }
        i = i + 1;
    }
    assert(v@.take(v@.len() as int) == v@);
    out
}

/// Decodes GB18030 text up to the first zero byte and drops `'\0'`.
pub fn utf8_to_gbk(text: &[u8]) -> (r: String)
    requires
        text@.len() * 3 + 8 <= usize::MAX,
    ensures
        r@ == spec_utf8_to_gbk(text@),
{
    let mut end: usize = 0;
    proof { lemma_nul_end_bound(text@); }
    while end < text.len() && text[end] != 0
        invariant
            end <= text@.len(),
            forall|j: int| 0 <= j < end ==> text@[j] != 0,
        decreases text.len() - end,
    {
        end = end + 1;
    }
    proof {
        lemma_nul_end(text@, end as int);
        if end < text@.len() {
            assert(text@.skip(end as int)[0] == 0);
        }
    }
    let prefix = crate::internal::bytes::copy_range(text, 0, end);
    assert(prefix@ == text@.take(end as int));
    let (decoded, _) = decode_bytes(false, prefix.as_slice());
    drop_nul_exec(&decoded)
}

/// Decodes GB18030 text and drops `'\0'`.
pub fn v1_utf8_to_gbk(text: &[u8]) -> (r: String)
    requires
        text@.len() * 3 + 8 <= usize::MAX,
    ensures
        r@ == spec_v1_utf8_to_gbk(text@),
{
    let (decoded, _) = decode_bytes(false, text);
    drop_nul_exec(&decoded)
}

/// What inflating zlib data gives: `None` for data that is not a complete
/// zlib stream.
pub uninterp spec fn zlib_inflate(data: Seq<u8>) -> Option<Seq<u8>>;

/// What compressing with zlib at the default level gives.
pub uninterp spec fn zlib_deflate(data: Seq<u8>) -> Seq<u8>;

/// A first two bytes that no zlib stream can start with: their 16-bit value
/// is not a multiple of 31, a preset dictionary is asked for, or the method
/// is not deflate.
pub open spec fn zlib_header_rejected(cmf: u8, flg: u8) -> bool {
    ||| (cmf as int * 256 + flg as int) % 31 != 0
    ||| (flg as int / 32) % 2 == 1
    ||| cmf as int % 16 != 8
}

/// Calls `flate2::read::ZlibDecoder::read_to_end` on the data. The result is
/// named: the decoding is a function of the input. One fact is claimed
/// beside it: miniz_oxide, flate2's default backend, checks the two header
/// bytes first and fails on a header it rejects, and flate2 turns that
/// failure into an error of the read.
#[verifier::external_body]
fn inflate(compressed: &[u8]) -> (r: Option<Vec<u8>>)
    ensures
        match r {
            Some(v) => zlib_inflate(compressed@) == Some(v@),
            None => zlib_inflate(compressed@) is None,
        },
        compressed@.len() >= 2 && zlib_header_rejected(compressed@[0], compressed@[1]) ==> r is None,
{
    let mut out = Vec::new();
    flate2::read::ZlibDecoder::new(compressed).read_to_end(&mut out).ok().map(|_| out)
}

/// Calls `flate2::write::ZlibEncoder` (default level) on the data and
/// finishes the stream. The result is named; beside the name two facts are
/// claimed. It comes back: writing into a `Vec` cannot fail, and the
/// miniz_oxide compressor behind flate2 reports a parameter error only when
/// driven after it finished with another flush (flate2 never does) and a
/// stream error only from an output callback, which its own documentation
/// says may not be possible. And flate2's own round-trip test of this
/// encoder with `read::ZlibDecoder` checks that inflating the stream gives
/// the data back.
#[verifier::external_body]
fn deflate(src: &[u8]) -> (r: Option<Vec<u8>>)
    ensures
        r is Some,
        zlib_deflate(src@) == r.unwrap()@,
        zlib_inflate(r.unwrap()@) == Some(src@),
{
    let mut encoder = flate2::write::ZlibEncoder::new(Vec::new(), flate2::Compression::default());
    encoder.write_all(src).ok()?;
    encoder.finish().ok()
}

/// Decompresses zlib data.
pub fn zlib_decompress(compressed: &[u8]) -> (r: Result<Vec<u8>, QuotesError>)
    ensures
        match zlib_inflate(compressed@) {
            Some(v) => r is Ok && r.unwrap()@ == v,
            None => r == Err::<Vec<u8>, QuotesError>(QuotesError::Decompress),
        },
        compressed@.len() >= 2 && zlib_header_rejected(compressed@[0], compressed@[1])
            ==> r == Err::<Vec<u8>, QuotesError>(QuotesError::Decompress),
{
    match inflate(compressed) {
        Some(v) => Ok(v),
        None => Err(QuotesError::Decompress),
    }
}

/// Compresses data with zlib at the default level; it always succeeds, and
/// what it gives, `zlib_decompress` turns back into the data.
pub fn zlib_compress(src: &[u8]) -> (r: Result<Vec<u8>, QuotesError>)
    ensures
        r matches Ok(v) && v@ == zlib_deflate(src@) && zlib_inflate(v@) == Some(src@),
{
    Ok(deflate(src).unwrap())
}

} // verus!

verus! {

/// Reads `n` records with `step` from `pos`, threading a state through:
/// the records read and how reading ended (the state and position after the
/// last record, or the first error or overflow). Records read before an
/// error are kept.
pub open spec fn parse_list<R, S>(step: spec_fn(int, S) -> Decoded<(R, S)>, pos: int, n: nat, st: S) -> (Seq<R>, Decoded<S>)
    decreases n,
{
    if n == 0 {
        (Seq::empty(), Decoded::Value(st, pos))
    } else {
        match step(pos, st) {
            Decoded::Value(rs, p) => {
                let rest = parse_list(step, p, (n - 1) as nat, rs.1);
                (seq![rs.0] + rest.0, rest.1)
            },
            Decoded::Error(e) => (Seq::empty(), Decoded::Error(e)),
            Decoded::Overflow => (Seq::empty(), Decoded::Overflow),
        }
    }
}

/// What a list reader has done so far: `acc` read, `n` records left from
/// `pos` in state `st`, and the whole reading `full`.
pub open spec fn list_progress<R, S>(
    step: spec_fn(int, S) -> Decoded<(R, S)>,
    full: (Seq<R>, Decoded<S>),
    acc: Seq<R>,
    pos: int,
    n: nat,
    st: S,
) -> bool {
    let rest = parse_list(step, pos, n, st);
    full.0 == acc + rest.0 && full.1 == rest.1
}

/// One record further along.
pub proof fn lemma_list_step<R, S>(
    step: spec_fn(int, S) -> Decoded<(R, S)>,
    full: (Seq<R>, Decoded<S>),
    acc: Seq<R>,
    pos: int,
    n: nat,
    st: S,
    r: R,
    st2: S,
    p: int,
)
    requires
        list_progress(step, full, acc, pos, n, st),
        n > 0,
        step(pos, st) == Decoded::Value((r, st2), p),
    ensures
        list_progress(step, full, acc.push(r), p, (n - 1) as nat, st2),
{
    let rest = parse_list(step, p, (n - 1) as nat, st2);
    assert(acc + (seq![r] + rest.0) == acc.push(r) + rest.0);
}

/// An error at the next record ends the whole reading with it.
pub proof fn lemma_list_error<R, S>(
    step: spec_fn(int, S) -> Decoded<(R, S)>,
    full: (Seq<R>, Decoded<S>),
    acc: Seq<R>,
    pos: int,
    n: nat,
    st: S,
)
    requires
        list_progress(step, full, acc, pos, n, st),
        n > 0,
        !(step(pos, st) is Value),
    ensures
        full.0 == acc,
        full.1 == match step(pos, st) {
            Decoded::Error(e) => Decoded::<S>::Error(e),
            _ => Decoded::<S>::Overflow,
        },
{
    assert(acc + Seq::<R>::empty() == acc);
}

/// At the end the reading is done.
pub proof fn lemma_list_done<R, S>(
    step: spec_fn(int, S) -> Decoded<(R, S)>,
    full: (Seq<R>, Decoded<S>),
    acc: Seq<R>,
    pos: int,
    st: S,
)
    requires
        list_progress(step, full, acc, pos, 0, st),
    ensures
        full.0 == acc,
        full.1 == Decoded::Value(st, pos),
{
    assert(acc + Seq::<R>::empty() == acc);
}

} // verus!

verus! {

/// One variable-length integer as a list step.
pub open spec fn varint_step(data: Seq<u8>) -> spec_fn(int, ()) -> Decoded<(i32, ())> {
    |p: int, s: ()| match spec_varint(data, p) {
        Decoded::Value(v, q) => Decoded::Value((v, ()), q),
        Decoded::Error(e) => Decoded::Error(e),
        Decoded::Overflow => Decoded::Overflow,
    }
}

/// `k` variable-length integers in a row from `pos`.
pub open spec fn varint_run(data: Seq<u8>, pos: int, k: nat) -> (Seq<i32>, Decoded<()>) {
    parse_list(varint_step(data), pos, k, ())
}

/// Decodes `k` variable-length integers in a row and moves `*pos` past them.
pub fn decode_varints(data: &[u8], pos: &mut usize, k: usize) -> (r: Result<Vec<i32>, QuotesError>)
    ensures
        match varint_run(data@, *old(pos) as int, k as nat).1 {
            Decoded::Value(_, q) => r is Ok && r.unwrap()@ == varint_run(data@, *old(pos) as int, k as nat).0
                && *final(pos) == q,
            Decoded::Error(e) => r == Err::<Vec<i32>, QuotesError>(e),
            Decoded::Overflow => r == Err::<Vec<i32>, QuotesError>(QuotesError::Overflow),
        },
{
    let ghost step = varint_step(data@);
    let ghost full = varint_run(data@, *pos as int, k as nat);
    assert(full == varint_run(data@, *old(pos) as int, k as nat));
    let mut out: Vec<i32> = Vec::new();
    let mut i: usize = 0;
    while i < k
        invariant
            i <= k,
            step == varint_step(data@),
            full == varint_run(data@, *old(pos) as int, k as nat),
            list_progress(step, full, out@, *pos as int, (k - i) as nat, ()),
        decreases k - i,
    {
        let ghost p0 = *pos as int;
        proof {
            if !(spec_varint(data@, p0) is Value) {
                lemma_list_error(step, full, out@, p0, (k - i) as nat, ());
            }
        }
        match decode_varint(data, pos) {
            Ok(v) => {
                proof { lemma_list_step(step, full, out@, p0, (k - i) as nat, (), v, (), *pos as int); }
                out.push(v);
            },
            Err(e) => {
                return Err(e);
            },
        }
        i = i + 1;
    }
    proof { lemma_list_done(step, full, out@, *pos as int, ()); }
    Ok(out)
}

} // verus!

verus! {

/// A reading that ended without error read all `n` records.
pub proof fn lemma_list_len<R, S>(step: spec_fn(int, S) -> Decoded<(R, S)>, pos: int, n: nat, st: S)
    ensures
        parse_list(step, pos, n, st).1 is Value ==> parse_list(step, pos, n, st).0.len() == n,
        parse_list(step, pos, n, st).0.len() <= n,
    decreases n,
{
    if n > 0 {
        match step(pos, st) {
            Decoded::Value(rs, p) => lemma_list_len(step, p, (n - 1) as nat, rs.1),
            _ => {},
        }
    }
}

} // verus!

verus! {

/// A decoded integer ends inside the data.
pub proof fn lemma_varint_pos(data: Seq<u8>, pos: int)
    ensures
        spec_varint(data, pos) matches Decoded::Value(_, p) ==> pos < p <= data.len(),
{
}

/// A run of decoded integers ends inside the data (or where it began).
pub proof fn lemma_varint_run_pos(data: Seq<u8>, pos: int, k: nat)
    requires
        0 <= pos <= data.len(),
    ensures
        varint_run(data, pos, k).1 matches Decoded::Value(_, q) ==> pos <= q <= data.len(),
        varint_run(data, pos, k).1 is Value ==> varint_run(data, pos, k).0.len() == k,
    decreases k,
{
    lemma_list_len(varint_step(data), pos, k, ());
    if k > 0 {
        lemma_varint_pos(data, pos);
        match spec_varint(data, pos) {
            Decoded::Value(_, p) => lemma_varint_run_pos(data, p, (k - 1) as nat),
            _ => {},
        }
    }
}

} // verus!

verus! {

/// Converts a hex text such as `"01 0A"` into bytes, white space ignored:
/// an odd number of bytes is `OddHexLength`, a pair that is not hex
/// `InvalidHexDigit`.
pub fn hex_string_to_bytes(hex_str: &str) -> (r: Result<Vec<u8>, QuotesError>)
    requires
        !crate::internal::hex::hex_splits_char(hex_str@),
        hex_str@.len() <= usize::MAX / 4,
    ensures
        crate::internal::hex::utf8_len(crate::internal::hex::strip_white_space(hex_str@)) % 2 != 0
            ==> r == Err::<Vec<u8>, QuotesError>(QuotesError::OddHexLength),
        crate::internal::hex::utf8_len(crate::internal::hex::strip_white_space(hex_str@)) % 2 == 0 ==> match crate::internal::hex::spec_hex_to_bytes(hex_str@) {
            Some(b) => r is Ok && r.unwrap()@ == b,
            None => r == Err::<Vec<u8>, QuotesError>(QuotesError::InvalidHexDigit),
        },
{
    let (f, bytes) = crate::internal::hex::strip_exec(hex_str);
    if bytes % 2 != 0 {
        return Err(QuotesError::OddHexLength);
    }
    match crate::internal::hex::pairs_exec(&f) {
        Some(v) => Ok(v),
        None => Err(QuotesError::InvalidHexDigit),
    }
}

} // verus!

verus! {

/// The bytes of a string.
fn string_bytes(s: &String) -> (r: Vec<u8>)
    ensures
        r@ == vstd::utf8::encode_utf8(s@),
{
    let b = s.as_str().as_bytes();
    let mut out: Vec<u8> = Vec::new();
    let mut i: usize = 0;
    while i < b.len()
        invariant
            i <= b@.len(),
            out@ == b@.take(i as int),
        decreases b.len() - i,
    {
        out.push(b[i]);
        assert(b@.take(i + 1) == b@.take(i as int).push(b@[i as int]));
        i = i + 1;
    }
    assert(b@.take(b@.len() as int) == b@);
    out
}

/// Decodes GB18030 (or Big5) bytes into UTF-8 bytes; a malformed sequence
/// is an `Encoding` error.
fn decode_to_utf8(big5: bool, bytes: &[u8]) -> (r: Result<Vec<u8>, QuotesError>)
    requires
        bytes@.len() * 3 + 8 <= usize::MAX,
    ensures
        decode_text(big5, bytes@).1 ==> r == Err::<Vec<u8>, QuotesError>(QuotesError::Encoding),
        !decode_text(big5, bytes@).1 ==> r is Ok && r.unwrap()@ == vstd::utf8::encode_utf8(decode_text(big5, bytes@).0),
{
    let (text, had_errors) = decode_bytes(big5, bytes);
    if had_errors {
        return Err(QuotesError::Encoding);
    }
    Ok(string_bytes(&text))
}

/// Encodes UTF-8 bytes as GB18030 (or Big5); bytes that are not UTF-8, or
/// a character the encoding lacks, are an `Encoding` error.
fn encode_from_utf8(big5: bool, bytes: &[u8]) -> (r: Result<Vec<u8>, QuotesError>)
    requires
        bytes@.len() <= usize::MAX / 64,
    ensures
        !vstd::utf8::valid_utf8(bytes@) ==> r == Err::<Vec<u8>, QuotesError>(QuotesError::Encoding),
        vstd::utf8::valid_utf8(bytes@) ==> {
            let e = crate::internal::text::encode_text(big5, vstd::utf8::decode_utf8(bytes@));
            &&& e.1 ==> r == Err::<Vec<u8>, QuotesError>(QuotesError::Encoding)
            &&& !e.1 ==> r is Ok && r.unwrap()@ == e.0
        },
{
    match crate::internal::text::str_from_utf8(bytes) {
        None => Err(QuotesError::Encoding),
        Some(text) => {
            proof { vstd::utf8::decode_utf8_encode_utf8(bytes@); }
            let (out, had_errors) = crate::internal::text::encode_str(big5, text);
            if had_errors {
                Err(QuotesError::Encoding)
            } else {
                Ok(out)
            }
        },
    }
}

/// GB18030 bytes as UTF-8 bytes.
pub fn decode_gbk(bytes: &[u8]) -> (r: Result<Vec<u8>, QuotesError>)
    requires
        bytes@.len() * 3 + 8 <= usize::MAX,
    ensures
        decode_text(false, bytes@).1 ==> r == Err::<Vec<u8>, QuotesError>(QuotesError::Encoding),
        !decode_text(false, bytes@).1 ==> r is Ok && r.unwrap()@ == vstd::utf8::encode_utf8(decode_text(false, bytes@).0),
{
    decode_to_utf8(false, bytes)
}

/// UTF-8 bytes as GB18030 bytes.
pub fn encode_gbk(bytes: &[u8]) -> (r: Result<Vec<u8>, QuotesError>)
    requires
        bytes@.len() <= usize::MAX / 64,
    ensures
        !vstd::utf8::valid_utf8(bytes@) ==> r == Err::<Vec<u8>, QuotesError>(QuotesError::Encoding),
        vstd::utf8::valid_utf8(bytes@) ==> {
            let e = crate::internal::text::encode_text(false, vstd::utf8::decode_utf8(bytes@));
            &&& e.1 ==> r == Err::<Vec<u8>, QuotesError>(QuotesError::Encoding)
            &&& !e.1 ==> r is Ok && r.unwrap()@ == e.0
        },
{
    encode_from_utf8(false, bytes)
}

/// Big5 bytes as UTF-8 bytes.
pub fn decode_big5(bytes: &[u8]) -> (r: Result<Vec<u8>, QuotesError>)
    requires
        bytes@.len() * 3 + 8 <= usize::MAX,
    ensures
        decode_text(true, bytes@).1 ==> r == Err::<Vec<u8>, QuotesError>(QuotesError::Encoding),
        !decode_text(true, bytes@).1 ==> r is Ok && r.unwrap()@ == vstd::utf8::encode_utf8(decode_text(true, bytes@).0),
{
    decode_to_utf8(true, bytes)
}

/// UTF-8 bytes as Big5 bytes.
pub fn encode_big5(bytes: &[u8]) -> (r: Result<Vec<u8>, QuotesError>)
    requires
        bytes@.len() <= usize::MAX / 64,
    ensures
        !vstd::utf8::valid_utf8(bytes@) ==> r == Err::<Vec<u8>, QuotesError>(QuotesError::Encoding),
        vstd::utf8::valid_utf8(bytes@) ==> {
            let e = crate::internal::text::encode_text(true, vstd::utf8::decode_utf8(bytes@));
            &&& e.1 ==> r == Err::<Vec<u8>, QuotesError>(QuotesError::Encoding)
            &&& !e.1 ==> r is Ok && r.unwrap()@ == e.0
        },
{
    encode_from_utf8(true, bytes)
}

/// A packed bar date unpacks to the date it packs. Every minute-level
/// category (below 4, 7 and 8) reads one packing: the years since 2004
/// times 2048 plus `month * 100 + day`, with the time as minutes of the day;
/// every other category reads `yyyymmdd`, at 15:00.
pub proof fn lemma_bar_date_roundtrip(category: i32, year: int, month: int, day: int, hour: int, minute: int)
    requires
        1 <= month <= 12,
        1 <= day <= 31,
        0 <= hour < 24,
        0 <= minute < 60,
    ensures
        (category < 4 || category == 7 || category == 8) && 2004 <= year < 2004 + 0x10_0000 ==>
            spec_datetime_from_u32(category, ((year - 2004) * 2048 + month * 100 + day) as u32, (hour * 60 + minute) as u16)
                == (year as i32, month as i32, day as i32, hour as i32, minute as i32),
        !(category < 4 || category == 7 || category == 8) && 0 <= year <= 9999 ==>
            spec_datetime_from_u32(category, (year * 10000 + month * 100 + day) as u32, (hour * 60 + minute) as u16)
                == (year as i32, month as i32, day as i32, 15i32, 0i32),
{
    let md = month * 100 + day;
    if 2004 <= year < 2004 + 0x10_0000 {
        let z = (year - 2004) * 2048 + md;
        vstd::arithmetic::div_mod::lemma_fundamental_div_mod_converse(z, 2048, year - 2004, md);
        vstd::arithmetic::div_mod::lemma_fundamental_div_mod_converse(md, 100, month, day);
        vstd::arithmetic::div_mod::lemma_fundamental_div_mod_converse(hour * 60 + minute, 60, hour, minute);
    }
    if 0 <= year <= 9999 {
        let z = year * 10000 + md;
        vstd::arithmetic::div_mod::lemma_fundamental_div_mod_converse(z, 10000, year, md);
        vstd::arithmetic::div_mod::lemma_fundamental_div_mod_converse(md, 100, month, day);
        vstd::arithmetic::div_mod::lemma_fundamental_div_mod_converse(z, 100, year * 100 + month, day);
    }
}

/// The date of a bar reply is read the same way for every minute-level
/// category (two little-endian `u16`, date then minutes), and the same way
/// for every day-and-longer category (one little-endian `u32`).
pub proof fn lemma_bar_date_same_reading(category: i32, data: Seq<u8>, pos: int)
    ensures
        (category < 4 || category == 7 || category == 8) ==> spec_get_datetime(category, data, pos) == spec_get_datetime(0, data, pos),
        !(category < 4 || category == 7 || category == 8) ==> spec_get_datetime(category, data, pos) == spec_get_datetime(9, data, pos),
        (category < 4 || category == 7 || category == 8) ==> spec_datetime_from_u32(category, le_u16(data, pos) as u32, le_u16(data, pos + 2) as u16)
            == spec_datetime_from_u32(0, le_u16(data, pos) as u32, le_u16(data, pos + 2) as u16),
        pos + 4 <= data.len() && !(category < 4 || category == 7 || category == 8) ==> spec_get_datetime(category, data, pos)
            == Decoded::Value(spec_datetime_from_u32(9, le_u32(data, pos) as u32, 0), pos + 4),
{
}

} // verus!
