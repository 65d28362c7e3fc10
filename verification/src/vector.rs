//! The decoded form of a column: one typed vector of optional values, in
//! row order, with a tracked row capacity.

use vstd::prelude::*;
use vstd::pervasive::unreached;

use crate::datum::{decoded_datum, u64_of_le_bytes, BYTES_FLAG, INT_FLAG, NIL_FLAG, REAL_FLAG};
use crate::mask::{lemma_mask_filter_map, mask_filter, retain_mask};
use crate::schema::{ColumnSchema, Datum, EvalType, Tz};
use crate::Error;

verus! {

/// The typed storage of a decoded column. `Real` values are IEEE 754 bit
/// patterns; the container stores them without interpreting the bits.
#[derive(Debug)]
pub enum VectorData {
    Int(Vec<Option<i64>>),
    Real(Vec<Option<u64>>),
    Bytes(Vec<Option<Vec<u8>>>),
}

/// A decoded column: typed values in row order. `None` entries are NULLs.
#[derive(Debug)]
pub struct VectorValue {
    /// The decoded values.
    pub data: VectorData,
    /// How many rows the vector is sized for: the construction-time hint,
    /// grown whenever the length passes it.
    pub cap: usize,
}

/// One integer storage entry as a decoded value.
pub open spec fn datum_of_int(x: Option<i64>) -> Option<Datum> {
    match x {
        Option::None => Option::<Datum>::None,
        Option::Some(n) => Option::Some(Datum::Int(n)),
    }
}

/// One real storage entry as a decoded value.
pub open spec fn datum_of_real(x: Option<u64>) -> Option<Datum> {
    match x {
        Option::None => Option::<Datum>::None,
        Option::Some(bits) => Option::Some(Datum::Real(bits)),
    }
}

/// One byte-string storage entry as a decoded value.
pub open spec fn datum_of_bytes(x: Option<Vec<u8>>) -> Option<Datum> {
    match x {
        Option::None => Option::<Datum>::None,
        Option::Some(b) => Option::Some(Datum::Bytes(b@)),
    }
}

/// Integer storage as a sequence of decoded values.
pub open spec fn int_values(s: Seq<Option<i64>>) -> Seq<Option<Datum>> {
    s.map_values(|x: Option<i64>| datum_of_int(x))
}

/// Real storage as a sequence of decoded values.
pub open spec fn real_values(s: Seq<Option<u64>>) -> Seq<Option<Datum>> {
    s.map_values(|x: Option<u64>| datum_of_real(x))
}

/// Byte-string storage as a sequence of decoded values.
pub open spec fn bytes_values(s: Seq<Option<Vec<u8>>>) -> Seq<Option<Datum>> {
    s.map_values(|x: Option<Vec<u8>>| datum_of_bytes(x))
}

/// The mathematical model of a [`VectorValue`]: its evaluation type and its
/// values in row order.
pub struct VectorView {
    pub eval_type: EvalType,
    pub values: Seq<Option<Datum>>,
}

impl View for VectorValue {
    type V = VectorView;

    open spec fn view(&self) -> VectorView {
        match self.data {
            VectorData::Int(v) => VectorView { eval_type: EvalType::Int, values: int_values(v@) },
            VectorData::Real(v) => VectorView {
                eval_type: EvalType::Real,
                values: real_values(v@),
            },
            VectorData::Bytes(v) => VectorView {
                eval_type: EvalType::Bytes,
                values: bytes_values(v@),
            },
        }
    }
}

/// The tracked capacity after the length reaches `len`: unchanged while the
/// hint still covers the rows, the length itself once it does not.
pub open spec fn cap_after(cap: usize, len: int) -> int {
    if cap >= len {
        cap as int
    } else {
        len
    }
}

impl VectorValue {
    /// An empty vector of evaluation type `eval_type`, sized for `capacity`
    /// rows.
    pub fn with_capacity(capacity: usize, eval_type: EvalType) -> (r: VectorValue)
        ensures
            r@.eval_type == eval_type,
            r@.values == Seq::<Option<Datum>>::empty(),
            r.cap == capacity,
    {
        let data = match eval_type {
            EvalType::Int => VectorData::Int(Vec::with_capacity(capacity)),
            EvalType::Real => VectorData::Real(Vec::with_capacity(capacity)),
            EvalType::Bytes => VectorData::Bytes(Vec::with_capacity(capacity)),
        };
        let r = VectorValue { data, cap: capacity };
        proof {
            assert(r@.values =~= Seq::<Option<Datum>>::empty());
        }
        r
    }

    /// The number of rows.
    pub fn len(&self) -> (r: usize)
        ensures
            r == self@.values.len(),
    {
        match &self.data {
            VectorData::Int(v) => v.len(),
            VectorData::Real(v) => v.len(),
            VectorData::Bytes(v) => v.len(),
        }
    }

    /// Whether the vector holds no rows.
    pub fn is_empty(&self) -> (r: bool)
        ensures
            r == (self@.values.len() == 0),
    {
        self.len() == 0
    }

    /// The evaluation type the vector was built for.
    pub fn eval_type(&self) -> (r: EvalType)
        ensures
            r == self@.eval_type,
    {
        match &self.data {
            VectorData::Int(_) => EvalType::Int,
            VectorData::Real(_) => EvalType::Real,
            VectorData::Bytes(_) => EvalType::Bytes,
        }
    }

    /// How many rows the vector is sized for.
    pub fn capacity(&self) -> (r: usize)
        ensures
            r == self.cap,
    {
        self.cap
    }

    /// Drops every row past the first `len`; never grows.
    pub fn truncate(&mut self, len: usize)
        ensures
            final(self)@.eval_type == old(self)@.eval_type,
            final(self)@.values == if len <= old(self)@.values.len() {
                old(self)@.values.subrange(0, len as int)
            } else {
                old(self)@.values
            },
            final(self).cap == old(self).cap,
    {
        match &mut self.data {
            VectorData::Int(v) => v.truncate(len),
            VectorData::Real(v) => v.truncate(len),
            VectorData::Bytes(v) => v.truncate(len),
        }
        proof {
            if len <= old(self)@.values.len() {
                assert(self@.values =~= old(self)@.values.subrange(0, len as int));
            }
        }
    }

    /// Raises the tracked capacity to the current length when the length
    /// has passed it.
    fn note_len(&mut self)
        ensures
            final(self)@ == old(self)@,
            final(self).data == old(self).data,
            final(self).cap == cap_after(old(self).cap, old(self)@.values.len() as int),
    {
        let n = self.len();
        if self.cap < n {
            self.cap = n;
        }
    }

    /// Appends one NULL row.
    pub fn push_null(&mut self)
        ensures
            final(self)@.eval_type == old(self)@.eval_type,
            final(self)@.values == old(self)@.values.push(Option::<Datum>::None),
            final(self).cap == cap_after(old(self).cap, old(self)@.values.len() + 1int),
    {
        match &mut self.data {
            VectorData::Int(v) => v.push(Option::None),
            VectorData::Real(v) => v.push(Option::None),
            VectorData::Bytes(v) => v.push(Option::None),
        }
        proof {
            assert(self@.values =~= old(self)@.values.push(Option::<Datum>::None));
        }
        self.note_len();
    }

    /// Decodes one datum byte string and appends the result: the value for
    /// a well-formed datum of this vector's type, NULL for the sentinel,
    /// and an error — with the vector unchanged — for anything else.
    ///
    /// `time_zone` and `schema` belong to the decode interface; the value
    /// kinds this vector stores do not depend on them.
    pub fn push_datum(
        &mut self,
        bytes: &[u8],
        _time_zone: Tz,
        _schema: &ColumnSchema,
    ) -> (r: Result<(), Error>)
        ensures
            match decoded_datum(bytes@, old(self)@.eval_type) {
                Option::Some(d) => r is Ok && final(self)@.eval_type == old(self)@.eval_type
                    && final(self)@.values == old(self)@.values.push(d) && final(self).cap
                    == cap_after(old(self).cap, old(self)@.values.len() + 1int),
                Option::None => r == Result::<(), Error>::Err(Error::InvalidDatum) && *final(self)
                    == *old(self),
            },
    {
        if bytes.len() == 1 && bytes[0] == NIL_FLAG {
            self.push_null();
            return Result::Ok(());
        }
        match &mut self.data {
            VectorData::Int(v) => {
                if bytes.len() == 9 && bytes[0] == INT_FLAG {
                    let bits = u64_from_le_slice(&bytes[1..9]);
                    v.push(Option::Some(bits as i64));
                    proof {
                        assert(int_values(v@) =~= int_values(old(self).data->Int_0@).push(
                            Option::Some(Datum::Int(bits as i64)),
                        ));
                    }
                } else {
                    return Result::Err(Error::InvalidDatum);
                }
            },
            VectorData::Real(v) => {
                if bytes.len() == 9 && bytes[0] == REAL_FLAG {
                    let bits = u64_from_le_slice(&bytes[1..9]);
                    v.push(Option::Some(bits));
                    proof {
                        assert(real_values(v@) =~= real_values(old(self).data->Real_0@).push(
                            Option::Some(Datum::Real(bits)),
                        ));
                    }
                } else {
                    return Result::Err(Error::InvalidDatum);
                }
            },
            VectorData::Bytes(v) => {
                if bytes.len() >= 1 && bytes[0] == BYTES_FLAG {
                    let payload = copy_tail(bytes, 1);
                    v.push(Option::Some(payload));
                    proof {
                        assert(bytes_values(v@) =~= bytes_values(old(self).data->Bytes_0@).push(
                            Option::Some(Datum::Bytes(bytes@.subrange(1, bytes@.len() as int))),
                        ));
                    }
                } else {
                    return Result::Err(Error::InvalidDatum);
                }
            },
        }
        self.note_len();
        Result::Ok(())
    }
}

impl VectorValue {
    /// Clears all rows; the evaluation type and the capacity stay.
    pub fn clear(&mut self)
        ensures
            final(self)@.eval_type == old(self)@.eval_type,
            final(self)@.values == Seq::<Option<Datum>>::empty(),
            final(self).cap == old(self).cap,
    {
        self.truncate(0);
        proof {
            assert(old(self)@.values.subrange(0, 0) =~= Seq::<Option<Datum>>::empty());
        }
    }

    /// Keeps exactly the rows whose mask entry is `true`, in order.
    pub fn retain_by_index(&mut self, keep: &[bool])
        requires
            keep@.len() == old(self)@.values.len(),
        ensures
            final(self)@.eval_type == old(self)@.eval_type,
            final(self)@.values == mask_filter(old(self)@.values, keep@),
            final(self).cap == old(self).cap,
    {
        match &mut self.data {
            VectorData::Int(v) => {
                retain_mask(v, keep);
                proof {
                    lemma_mask_filter_map(
                        old(self).data->Int_0@,
                        keep@,
                        |x: Option<i64>| datum_of_int(x),
                    );
                }
            },
            VectorData::Real(v) => {
                retain_mask(v, keep);
                proof {
                    lemma_mask_filter_map(
                        old(self).data->Real_0@,
                        keep@,
                        |x: Option<u64>| datum_of_real(x),
                    );
                }
            },
            VectorData::Bytes(v) => {
                retain_mask(v, keep);
                proof {
                    lemma_mask_filter_map(
                        old(self).data->Bytes_0@,
                        keep@,
                        |x: Option<Vec<u8>>| datum_of_bytes(x),
                    );
                }
            },
        }
    }

    /// The rows of an integer vector.
    pub fn as_int_slice(&self) -> (r: &[Option<i64>])
        requires
            self@.eval_type == EvalType::Int,
        ensures
            int_values(r@) == self@.values,
            r@.len() == self@.values.len(),
    {
        match &self.data {
            VectorData::Int(v) => v.as_slice(),
            _ => unreached(),
        }
    }

    /// The rows of a real vector, as IEEE 754 bit patterns.
    pub fn as_real_slice(&self) -> (r: &[Option<u64>])
        requires
            self@.eval_type == EvalType::Real,
        ensures
            real_values(r@) == self@.values,
            r@.len() == self@.values.len(),
    {
        match &self.data {
            VectorData::Real(v) => v.as_slice(),
            _ => unreached(),
        }
    }

    /// The rows of a byte-string vector.
    pub fn as_bytes_slice(&self) -> (r: &[Option<Vec<u8>>])
        requires
            self@.eval_type == EvalType::Bytes,
        ensures
            bytes_values(r@) == self@.values,
            r@.len() == self@.values.len(),
    {
        match &self.data {
            VectorData::Bytes(v) => v.as_slice(),
            _ => unreached(),
        }
    }
}

impl Clone for VectorValue {
    /// A deep, independent copy: same evaluation type, same rows, same
    /// capacity.
    fn clone(&self) -> (r: Self)
        ensures
            r@ == self@,
            r.cap == self.cap,
    {
        let data = match &self.data {
            VectorData::Int(v) => VectorData::Int(clone_copy_vec(v)),
            VectorData::Real(v) => VectorData::Real(clone_copy_vec(v)),
            VectorData::Bytes(v) => {
                let c = clone_bytes_vec(v);
                proof {
                    assert(bytes_values(c@) =~= bytes_values(v@));
                }
                VectorData::Bytes(c)
            },
        };
        VectorValue { data, cap: self.cap }
    }
}

/// Copies a vector of plain values element by element.
fn clone_copy_vec<T: Copy>(v: &Vec<T>) -> (r: Vec<T>)
    ensures
        r@ == v@,
{
    let mut out: Vec<T> = Vec::new();
    let n = v.len();
    let mut i: usize = 0;
    while i < n
        invariant
            i <= n,
            n == v@.len(),
            out@ == v@.subrange(0, i as int),
        decreases n - i,
    {
        out.push(v[i]);
        assert(out@ =~= v@.subrange(0, i + 1));
        i = i + 1;
    }
    proof {
        assert(v@.subrange(0, n as int) =~= v@);
    }
    out
}

/// Copies a vector of optional byte strings, byte for byte.
fn clone_bytes_vec(v: &Vec<Option<Vec<u8>>>) -> (r: Vec<Option<Vec<u8>>>)
    ensures
        r@.len() == v@.len(),
        forall|i: int|
            0 <= i < v@.len() ==> datum_of_bytes(#[trigger] r@[i]) == datum_of_bytes(v@[i]),
{
    let mut out: Vec<Option<Vec<u8>>> = Vec::new();
    let n = v.len();
    let mut i: usize = 0;
    while i < n
        invariant
            i <= n,
            n == v@.len(),
            out@.len() == i,
            forall|k: int|
                0 <= k < i ==> datum_of_bytes(#[trigger] out@[k]) == datum_of_bytes(v@[k]),
        decreases n - i,
    {
        match &v[i] {
            Option::None => out.push(Option::None),
            Option::Some(b) => out.push(Option::Some(clone_copy_vec(b))),
        }
        i = i + 1;
    }
    out
}

/// Reads a 64-bit little-endian value from an 8-byte slice.
pub fn u64_from_le_slice(b: &[u8]) -> (r: u64)
    requires
        b@.len() == 8,
    ensures
        r == u64_of_le_bytes(b@),
{
    (b[0] as u64) | ((b[1] as u64) << 8) | ((b[2] as u64) << 16) | ((b[3] as u64) << 24) | ((
    b[4] as u64) << 32) | ((b[5] as u64) << 40) | ((b[6] as u64) << 48) | ((b[7] as u64) << 56)
}

/// Copies the bytes of `b` from `from` onward into a fresh vector.
fn copy_tail(b: &[u8], from: usize) -> (r: Vec<u8>)
    requires
        from <= b@.len(),
    ensures
        r@ == b@.subrange(from as int, b@.len() as int),
{
    let mut out: Vec<u8> = Vec::new();
    let n = b.len();
    let mut i: usize = from;
    while i < n
        invariant
            from <= i <= n,
            n == b@.len(),
            out@ == b@.subrange(from as int, i as int),
        decreases n - i,
    {
        out.push(b[i]);
        assert(out@ =~= b@.subrange(from as int, i + 1));
        i = i + 1;
    }
    out
}

} // verus!
