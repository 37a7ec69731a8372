//! Records made of a fixed run of fields, read one after another.
use vstd::prelude::*;
use crate::internal::bytes::{le_i16, le_u16, le_u32, read_i16_le, read_u16_le, read_u32_le};
use crate::internal::helpers::{
    Decoded, parse_list, list_progress, lemma_list_step, lemma_list_error, lemma_list_done, spec_varint,
    decode_varint,
};
use crate::quotes::base_consts::QuotesError;

verus! {

/// One field of a record.
#[derive(Debug, Clone, Copy, PartialEq, Eq, Structural)]
pub enum Field {
    /// One byte; the first field of a record, so a missing one means the
    /// record is cut off.
    Byte,
    /// Six bytes of code text, read elsewhere from their position.
    Code,
    /// A little-endian `u16`.
    U16,
    /// A little-endian `i16`.
    I16,
    /// A little-endian `u32`.
    U32,
    /// A variable-length integer.
    Varint,
    /// Two bytes passed over without looking at them.
    Skip2,
    /// Forty-eight bytes that must be present and are passed over.
    Block48,
}

/// Bytes a fixed-size field takes.
pub open spec fn field_width(f: Field) -> int {
    match f {
        Field::Byte => 1,
        Field::Code => 6,
        Field::U16 => 2,
        Field::I16 => 2,
        Field::U32 => 4,
        Field::Varint => 0,
        Field::Skip2 => 2,
        Field::Block48 => 48,
    }
}

/// The field `f` at `p`: its value (zero for text and passed-over bytes)
/// and the position after it.
pub open spec fn field_at(body: Seq<u8>, f: Field, p: int) -> Decoded<int> {
    match f {
        Field::Varint => match spec_varint(body, p) {
            Decoded::Value(v, q) => Decoded::Value(v as int, q),
            Decoded::Error(e) => Decoded::Error(e),
            Decoded::Overflow => Decoded::Overflow,
        },
        Field::Skip2 => Decoded::Value(0, p + 2),
        _ => if p + field_width(f) > body.len() {
            Decoded::Error(if f == Field::Byte { QuotesError::EntryTruncated } else { QuotesError::UnexpectedEof })
        } else {
            Decoded::Value(
                match f {
                    Field::Byte => body[p] as int,
                    Field::U16 => le_u16(body, p),
                    Field::I16 => le_i16(body, p),
                    Field::U32 => le_u32(body, p),
                    _ => 0,
                },
                p + field_width(f),
            )
        },
    }
}

/// Reading the next field of `layout`, the values so far being the state.
pub open spec fn field_step(body: Seq<u8>, layout: Seq<Field>) -> spec_fn(int, Seq<int>) -> Decoded<(int, Seq<int>)> {
    |p: int, vals: Seq<int>| match field_at(body, layout[vals.len() as int], p) {
        Decoded::Value(v, q) => Decoded::Value((v, vals.push(v)), q),
        Decoded::Error(e) => Decoded::Error(e),
        Decoded::Overflow => Decoded::Overflow,
    }
}

/// The fields of `layout` read from `p`: the values read, and how reading
/// ended.
pub open spec fn fields_run(body: Seq<u8>, p: int, layout: Seq<Field>) -> (Seq<int>, Decoded<Seq<int>>) {
    parse_list(field_step(body, layout), p, layout.len(), Seq::empty())
}

/// Reads one field at `*pos`.
fn read_field(body: &[u8], pos: &mut usize, f: Field) -> (r: Result<i64, QuotesError>)
    requires
        *old(pos) <= body@.len() + 128,
        body@.len() + 256 <= usize::MAX,
    ensures
        match field_at(body@, f, *old(pos) as int) {
            Decoded::Value(v, q) => r == Ok::<i64, QuotesError>(v as i64) && *final(pos) == q
                && field_value_ok(f, v)
                && (if f == Field::Skip2 { q == *old(pos) + 2 } else { q <= body@.len() }),
            Decoded::Error(e) => r == Err::<i64, QuotesError>(e),
            Decoded::Overflow => r == Err::<i64, QuotesError>(QuotesError::Overflow),
        },
{
    let p = *pos;
    match f {
        Field::Varint => {
            proof { crate::internal::helpers::lemma_varint_pos(body@, p as int); }
            match decode_varint(body, pos) {
                Ok(v) => Ok(v as i64),
                Err(e) => Err(e),
            }
        },
        Field::Skip2 => {
            *pos = p + 2;
            Ok(0)
        },
        _ => {
            let w: usize = match f {
                Field::Byte => 1,
                Field::Code => 6,
                Field::U16 => 2,
                Field::I16 => 2,
                Field::U32 => 4,
                _ => 48,
            };
            if p > body.len() || body.len() - p < w {
                return Err(if f == Field::Byte { QuotesError::EntryTruncated } else { QuotesError::UnexpectedEof });
            }
            let v: i64 = match f {
                Field::Byte => body[p] as i64,
                Field::U16 => read_u16_le(body, p) as i64,
                Field::I16 => read_i16_le(body, p) as i64,
                Field::U32 => read_u32_le(body, p) as i64,
                _ => 0,
            };
            *pos = p + w;
            Ok(v)
        },
    }
}

/// The range of a field's value.
pub open spec fn field_value_ok(f: Field, v: int) -> bool {
    match f {
        Field::Byte => 0 <= v <= 255,
        Field::U16 => 0 <= v <= 0xffff,
        Field::I16 => -0x8000 <= v <= 0x7fff,
        Field::U32 => 0 <= v <= 0xffff_ffff,
        Field::Varint => i32::MIN <= v <= i32::MAX,
        _ => v == 0,
    }
}

/// Reads the fields of `layout` from `*pos` into the empty `out`; the
/// values read before an error are left in `out`.
pub fn read_fields(body: &[u8], pos: &mut usize, layout: &Vec<Field>, out: &mut Vec<i64>) -> (r: Result<(), QuotesError>)
    requires
        *old(pos) <= body@.len(),
        layout@.len() <= 60,
        body@.len() + 256 <= usize::MAX,
        old(out)@.len() == 0,
    ensures
        final(out)@.len() == fields_run(body@, *old(pos) as int, layout@).0.len(),
        final(out)@.len() <= layout@.len(),
        forall|k: int| 0 <= k < final(out)@.len() ==> final(out)@[k] == fields_run(body@, *old(pos) as int, layout@).0[k],
        forall|k: int| 0 <= k < final(out)@.len() ==> field_value_ok(#[trigger] layout@[k], final(out)@[k] as int),
        match fields_run(body@, *old(pos) as int, layout@).1 {
            Decoded::Value(vals, q) => r is Ok && vals.len() == layout@.len() && final(out)@.len() == layout@.len()
                && (forall|k: int| 0 <= k < vals.len() ==> final(out)@[k] == vals[k])
                && *final(pos) == q
                && (q > body@.len() ==> layout@.len() > 0 && layout@.last() == Field::Skip2),
            Decoded::Error(e) => r == Err::<(), QuotesError>(e),
            Decoded::Overflow => r == Err::<(), QuotesError>(QuotesError::Overflow),
        },
{
    let ghost step = field_step(body@, layout@);
    let ghost full = fields_run(body@, *old(pos) as int, layout@);
    let ghost mut vals: Seq<int> = Seq::empty();
    let mut i: usize = 0;
    while i < layout.len()
        invariant
            i <= layout@.len(),
            layout@.len() <= 60,
            *pos <= body@.len() + 2 * i,
            *pos > body@.len() ==> i > 0 && layout@[i - 1] == Field::Skip2,
            body@.len() + 256 <= usize::MAX,
            forall|k: int| 0 <= k < i ==> field_value_ok(#[trigger] layout@[k], vals[k]),
            step == field_step(body@, layout@),
            full == fields_run(body@, *old(pos) as int, layout@),
            full == parse_list(step, *old(pos) as int, layout@.len(), Seq::<int>::empty()),
            vals.len() == i,
            out@.len() == i,
            forall|k: int| 0 <= k < i ==> out@[k] == vals[k],
            list_progress(step, full, vals, *pos as int, (layout@.len() - i) as nat, vals),
        decreases layout@.len() - i,
    {
        let ghost p0 = *pos as int;
        proof {
            if !(step(p0, vals) is Value) {
                lemma_list_error(step, full, vals, p0, (layout@.len() - i) as nat, vals);
            }
        }
        match read_field(body, pos, layout[i]) {
            Ok(v) => {
                proof {
                    lemma_list_step(step, full, vals, p0, (layout@.len() - i) as nat, vals, v as int,
                        vals.push(v as int), *pos as int);
                    vals = vals.push(v as int);
                }
                out.push(v);
            },
            Err(e) => {
                return Err(e);
            },
        }
        i = i + 1;
    }
    proof { lemma_list_done(step, full, vals, *pos as int, vals); }
    Ok(())
}

} // verus!
