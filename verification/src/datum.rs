//! The encoded form of a single datum, and the decode semantics of a whole
//! raw column.
//!
//! A non-empty datum is one flag byte followed by a payload:
//! the NULL sentinel (flag alone), a 64-bit integer (8 bytes, little
//! endian), a real number's IEEE 754 bit pattern (8 bytes, little endian),
//! or a byte string (the rest of the buffer). An *empty* byte string is not
//! a datum at all: it marks an absent cell, which decoding resolves through
//! the column's schema.

use vstd::prelude::*;

use crate::schema::{Datum, EvalType, SchemaView};
use crate::Error;

verus! {

/// Flag byte of the NULL sentinel datum, which has no payload.
pub const NIL_FLAG: u8 = 0;

/// Flag byte of an integer datum.
pub const INT_FLAG: u8 = 1;

/// Flag byte of a real datum (an IEEE 754 bit pattern).
pub const REAL_FLAG: u8 = 2;

/// Flag byte of a byte-string datum.
pub const BYTES_FLAG: u8 = 3;

/// The little-endian bytes of `v`, least significant first.
pub open spec fn le_bytes_of_u64(v: u64) -> Seq<u8> {
    seq![
        v as u8,
        (v >> 8) as u8,
        (v >> 16) as u8,
        (v >> 24) as u8,
        (v >> 32) as u8,
        (v >> 40) as u8,
        (v >> 48) as u8,
        (v >> 56) as u8,
    ]
}

/// The value whose little-endian bytes are `b`; meaningful when `b` has
/// exactly 8 bytes.
pub open spec fn u64_of_le_bytes(b: Seq<u8>) -> u64 {
    (b[0] as u64) | ((b[1] as u64) << 8) | ((b[2] as u64) << 16) | ((b[3] as u64) << 24)
        | ((b[4] as u64) << 32) | ((b[5] as u64) << 40) | ((b[6] as u64) << 48) | ((b[7]
        as u64) << 56)
}

/// Reading back the little-endian bytes of `v` gives `v`.
pub proof fn lemma_u64_le_round_trip(v: u64)
    ensures
        u64_of_le_bytes(le_bytes_of_u64(v)) == v,
{
    assert((v as u8 as u64) | (((v >> 8) as u8 as u64) << 8) | (((v >> 16) as u8 as u64) << 16) | ((
    (v >> 24) as u8 as u64) << 24) | (((v >> 32) as u8 as u64) << 32) | (((v >> 40) as u8 as u64)
        << 40) | (((v >> 48) as u8 as u64) << 48) | (((v >> 56) as u8 as u64) << 56) == v)
        by (bit_vector);
}

/// An integer survives the trip through its unsigned bit pattern.
pub proof fn lemma_i64_bits_round_trip(v: i64)
    ensures
        ((v as u64) as i64) == v,
{
    assert(((v as u64) as i64) == v) by (bit_vector);
}

/// What a non-empty datum byte string decodes to in a column of evaluation
/// type `et`: `None` if the bytes are not a valid datum for `et`,
/// `Some(None)` for the NULL sentinel, and `Some(Some(value))` otherwise.
pub open spec fn decoded_datum(b: Seq<u8>, et: EvalType) -> Option<Option<Datum>> {
    if b.len() == 1 && b[0] == NIL_FLAG {
        Option::Some(Option::None)
    } else {
        match et {
            EvalType::Int => if b.len() == 9 && b[0] == INT_FLAG {
                Option::Some(
                    Option::Some(Datum::Int(u64_of_le_bytes(b.subrange(1, 9)) as i64)),
                )
            } else {
                Option::None
            },
            EvalType::Real => if b.len() == 9 && b[0] == REAL_FLAG {
                Option::Some(Option::Some(Datum::Real(u64_of_le_bytes(b.subrange(1, 9)))))
            } else {
                Option::None
            },
            EvalType::Bytes => if b.len() >= 1 && b[0] == BYTES_FLAG {
                Option::Some(Option::Some(Datum::Bytes(b.subrange(1, b.len() as int))))
            } else {
                Option::None
            },
        }
    }
}

/// What one cell of a raw column decodes to under schema `s`: a non-empty
/// cell decodes as a datum; an absent cell falls back to the schema's
/// default value if there is one, then to NULL if the column is nullable,
/// and otherwise fails.
pub open spec fn cell_decode(cell: Seq<u8>, s: SchemaView) -> Option<Option<Datum>> {
    if cell.len() == 0 {
        match s.default_value {
            Option::Some(d) => decoded_datum(d, s.eval_type),
            Option::None => if s.nullable {
                Option::Some(Option::None)
            } else {
                Option::None
            },
        }
    } else {
        decoded_datum(cell, s.eval_type)
    }
}

/// The error reported for a cell on which `cell_decode` fails: a NOT NULL
/// violation names the column; every other failure is an invalid datum
/// (including a default value that does not decode).
pub open spec fn cell_decode_error(cell: Seq<u8>, s: SchemaView) -> Error {
    if cell.len() == 0 && s.default_value is None && !s.nullable {
        Error::NotNullViolation(s.column_id)
    } else {
        Error::InvalidDatum
    }
}

/// What decoding a whole raw column yields under schema `s`: the decoded
/// values in row order, or the error of the first cell that fails.
pub open spec fn decode_result(cells: Seq<Seq<u8>>, s: SchemaView) -> Result<
    Seq<Option<Datum>>,
    Error,
>
    decreases cells.len(),
{
    if cells.len() == 0 {
        Result::Ok(Seq::empty())
    } else {
        match cell_decode(cells[0], s) {
            Option::None => Result::Err(cell_decode_error(cells[0], s)),
            Option::Some(d) => match decode_result(cells.drop_first(), s) {
                Result::Ok(rest) => Result::Ok(seq![d] + rest),
                Result::Err(e) => Result::Err(e),
            },
        }
    }
}

/// The decoded values of the first `n` cells, in row order; meaningful when
/// each of them decodes.
pub open spec fn decoded_prefix(cells: Seq<Seq<u8>>, s: SchemaView, n: int) -> Seq<Option<Datum>> {
    Seq::new(n as nat, |k: int| cell_decode(cells[k], s)->Some_0)
}

/// When every cell decodes, the whole column decodes to the cells' values
/// in row order.
pub proof fn lemma_decode_result_ok(cells: Seq<Seq<u8>>, s: SchemaView)
    requires
        forall|i: int| 0 <= i < cells.len() ==> (#[trigger] cell_decode(cells[i], s)) is Some,
    ensures
        decode_result(cells, s) == Result::<Seq<Option<Datum>>, Error>::Ok(
            decoded_prefix(cells, s, cells.len() as int),
        ),
    decreases cells.len(),
{
    if cells.len() == 0 {
        assert(decoded_prefix(cells, s, 0) =~= Seq::<Option<Datum>>::empty());
    } else {
        let rest = cells.drop_first();
        assert(forall|i: int|
            0 <= i < rest.len() ==> (#[trigger] cell_decode(rest[i], s)) == cell_decode(
                cells[i + 1],
                s,
            ));
        lemma_decode_result_ok(rest, s);
        assert(decoded_prefix(cells, s, cells.len() as int) =~= seq![
            cell_decode(cells[0], s)->Some_0,
        ] + decoded_prefix(rest, s, rest.len() as int));
    }
}

/// A column that decodes keeps its row count.
pub proof fn lemma_decode_result_len(cells: Seq<Seq<u8>>, s: SchemaView)
    requires
        decode_result(cells, s) is Ok,
    ensures
        decode_result(cells, s)->Ok_0.len() == cells.len(),
    decreases cells.len(),
{
    if cells.len() > 0 {
        lemma_decode_result_len(cells.drop_first(), s);
    }
}

/// Appends the little-endian bytes of `v` to `out`.
fn push_le_bytes(out: &mut Vec<u8>, v: u64)
    ensures
        final(out)@ == old(out)@ + le_bytes_of_u64(v),
{
    out.push(v as u8);
    out.push((v >> 8) as u8);
    out.push((v >> 16) as u8);
    out.push((v >> 24) as u8);
    out.push((v >> 32) as u8);
    out.push((v >> 40) as u8);
    out.push((v >> 48) as u8);
    out.push((v >> 56) as u8);
    assert(out@ =~= old(out)@ + le_bytes_of_u64(v));
}

/// The NULL sentinel datum: in any column it decodes to NULL.
pub fn encode_null_datum() -> (r: Vec<u8>)
    ensures
        r@ == seq![NIL_FLAG],
        forall|et: EvalType| #[trigger] decoded_datum(r@, et) == Option::Some(
            Option::<Datum>::None,
        ),
{
    let mut out: Vec<u8> = Vec::new();
    out.push(NIL_FLAG);
    assert(out@ =~= seq![NIL_FLAG]);
    out
}

/// Encodes `value` as an integer datum.
pub fn encode_int_datum(value: i64) -> (r: Vec<u8>)
    ensures
        r@ == seq![INT_FLAG] + le_bytes_of_u64(value as u64),
        decoded_datum(r@, EvalType::Int) == Option::Some(Option::Some(Datum::Int(value))),
{
    let mut out: Vec<u8> = Vec::new();
    out.push(INT_FLAG);
    push_le_bytes(&mut out, value as u64);
    proof {
        assert(out@ =~= seq![INT_FLAG] + le_bytes_of_u64(value as u64));
        assert(out@.subrange(1, 9) =~= le_bytes_of_u64(value as u64));
        lemma_u64_le_round_trip(value as u64);
        lemma_i64_bits_round_trip(value);
    }
    out
}

/// Encodes the IEEE 754 bit pattern `bits` as a real datum.
pub fn encode_real_datum(bits: u64) -> (r: Vec<u8>)
    ensures
        r@ == seq![REAL_FLAG] + le_bytes_of_u64(bits),
        decoded_datum(r@, EvalType::Real) == Option::Some(Option::Some(Datum::Real(bits))),
{
    let mut out: Vec<u8> = Vec::new();
    out.push(REAL_FLAG);
    push_le_bytes(&mut out, bits);
    proof {
        assert(out@ =~= seq![REAL_FLAG] + le_bytes_of_u64(bits));
        assert(out@.subrange(1, 9) =~= le_bytes_of_u64(bits));
        lemma_u64_le_round_trip(bits);
    }
    out
}

/// Encodes `payload` as a byte-string datum.
pub fn encode_bytes_datum(payload: &[u8]) -> (r: Vec<u8>)
    ensures
        r@ == seq![BYTES_FLAG] + payload@,
        decoded_datum(r@, EvalType::Bytes) == Option::Some(Option::Some(Datum::Bytes(payload@))),
{
    let mut out: Vec<u8> = Vec::new();
    out.push(BYTES_FLAG);
    let n = payload.len();
    assert(out@ =~= seq![BYTES_FLAG] + payload@.subrange(0, 0));
    let mut i: usize = 0;
    while i < n
        invariant
            i <= n,
            n == payload@.len(),
            out@ == seq![BYTES_FLAG] + payload@.subrange(0, i as int),
        decreases n - i,
    {
        out.push(payload[i]);
        assert(out@ =~= seq![BYTES_FLAG] + payload@.subrange(0, i + 1));
        i = i + 1;
    }
    proof {
        assert(payload@.subrange(0, n as int) =~= payload@);
        assert(out@.subrange(1, out@.len() as int) =~= payload@);
    }
    out
}

/// When a cell fails and every cell before it decodes, the whole column
/// fails with that cell's error.
pub proof fn lemma_decode_result_err(cells: Seq<Seq<u8>>, s: SchemaView, j: int)
    requires
        0 <= j < cells.len(),
        cell_decode(cells[j], s) is None,
        forall|i: int| 0 <= i < j ==> (#[trigger] cell_decode(cells[i], s)) is Some,
    ensures
        decode_result(cells, s) == Result::<Seq<Option<Datum>>, Error>::Err(
            cell_decode_error(cells[j], s),
        ),
    decreases cells.len(),
{
    if j > 0 {
        let rest = cells.drop_first();
        lemma_decode_result_err(rest, s, j - 1);
    }
}

/// Round trip: a raw column of non-empty cells that each decode under the
/// schema's type decodes as a whole, keeps the cell count, and yields the
/// cell-by-cell decode of each byte string, in the original order.
pub proof fn lemma_raw_round_trip(cells: Seq<Seq<u8>>, s: SchemaView)
    requires
        forall|i: int|
            0 <= i < cells.len() ==> cells[i].len() > 0 && (#[trigger] decoded_datum(
                cells[i],
                s.eval_type,
            )) is Some,
    ensures
        decode_result(cells, s) is Ok,
        decode_result(cells, s)->Ok_0.len() == cells.len(),
        forall|i: int|
            0 <= i < cells.len() ==> decode_result(cells, s)->Ok_0[i] == (#[trigger] decoded_datum(
                cells[i],
                s.eval_type,
            ))->Some_0,
{
    assert(forall|i: int|
        0 <= i < cells.len() ==> (#[trigger] cell_decode(cells[i], s)) == decoded_datum(
            cells[i],
            s.eval_type,
        ));
    lemma_decode_result_ok(cells, s);
}

/// Default substitution: an absent cell decodes to the schema's default
/// value whenever one is present, whatever the nullability flag says.
pub proof fn lemma_default_substitution(s: SchemaView)
    requires
        s.default_value is Some,
    ensures
        cell_decode(Seq::empty(), s) == decoded_datum(s.default_value->Some_0, s.eval_type),
{
}

/// NULL substitution: an absent cell with no default value in a nullable
/// column decodes to NULL.
pub proof fn lemma_null_substitution(s: SchemaView)
    requires
        s.default_value is None,
        s.nullable,
    ensures
        cell_decode(Seq::empty(), s) == Option::Some(Option::<Datum>::None),
{
}

/// NOT NULL violation: a column holding an absent cell fails to decode
/// whenever the schema has no default value and forbids NULL. (That the
/// failed column itself stays raw and unchanged is part of the decode
/// operation's own contract.)
pub proof fn lemma_not_null_violation(cells: Seq<Seq<u8>>, s: SchemaView, j: int)
    requires
        0 <= j < cells.len(),
        cells[j].len() == 0,
        s.default_value is None,
        !s.nullable,
    ensures
        decode_result(cells, s) is Err,
    decreases cells.len(),
{
    if cell_decode(cells[0], s) is Some {
        lemma_not_null_violation(cells.drop_first(), s, j - 1);
    }
}

} // verus!
