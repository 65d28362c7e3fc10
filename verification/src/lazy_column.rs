//! A single lazily decoded column: either the raw cells as they arrived
//! from storage, or the typed vector they decode into. The transition is
//! one-way and happens for the whole column at once.

use vstd::prelude::*;
use vstd::pervasive::unreached;

use crate::cell::RawCell;
use crate::datum::{cell_decode, decode_result, decoded_prefix, lemma_decode_result_err,
    lemma_decode_result_ok};
use crate::mask::{lemma_mask_filter_map, mask_filter, retain_mask};
use crate::schema::{ColumnSchema, Datum, Tz};
use crate::vector::{cap_after, VectorValue, VectorView};
use crate::Error;

verus! {

/// Cell storage as a sequence of byte strings.
pub open spec fn raw_bytes_view(s: Seq<RawCell>) -> Seq<Seq<u8>> {
    s.map_values(|c: RawCell| c@)
}

/// The raw side of a column: its cells in row order, with a tracked row
/// capacity.
pub struct RawCells {
    /// The cells, one per row.
    pub cells: Vec<RawCell>,
    /// How many rows the storage is sized for: the construction-time hint,
    /// grown whenever the length passes it.
    pub cap: usize,
}

impl View for RawCells {
    type V = Seq<Seq<u8>>;

    open spec fn view(&self) -> Seq<Seq<u8>> {
        raw_bytes_view(self.cells@)
    }
}

impl RawCells {
    /// Empty storage sized for `capacity` rows.
    pub fn with_capacity(capacity: usize) -> (r: RawCells)
        ensures
            r@ == Seq::<Seq<u8>>::empty(),
            r.cap == capacity,
    {
        let r = RawCells { cells: Vec::with_capacity(capacity), cap: capacity };
        proof {
            assert(r@ =~= Seq::<Seq<u8>>::empty());
        }
        r
    }

    /// The number of cells.
    pub fn len(&self) -> (r: usize)
        ensures
            r == self@.len(),
    {
        self.cells.len()
    }

    /// The cell at row `index`.
    pub fn get(&self, index: usize) -> (r: &RawCell)
        requires
            index < self@.len(),
        ensures
            r@ == self@[index as int],
    {
        &self.cells[index]
    }

    /// Appends one cell holding a copy of `bytes`.
    pub fn push_bytes(&mut self, bytes: &[u8])
        ensures
            final(self)@ == old(self)@.push(bytes@),
            final(self).cap == cap_after(old(self).cap, old(self)@.len() + 1int),
    {
        self.cells.push(RawCell::from_bytes(bytes));
        proof {
            assert(self@ =~= old(self)@.push(bytes@));
        }
        let n = self.cells.len();
        if self.cap < n {
            self.cap = n;
        }
    }

    /// Drops every cell past the first `len`; never grows.
    pub fn truncate(&mut self, len: usize)
        ensures
            final(self)@ == if len <= old(self)@.len() {
                old(self)@.subrange(0, len as int)
            } else {
                old(self)@
            },
            final(self).cap == old(self).cap,
    {
        self.cells.truncate(len);
        proof {
            if len <= old(self)@.len() {
                assert(self@ =~= old(self)@.subrange(0, len as int));
            }
        }
    }

    /// Keeps exactly the cells whose mask entry is `true`, in order.
    pub fn retain_by_index(&mut self, keep: &[bool])
        requires
            keep@.len() == old(self)@.len(),
        ensures
            final(self)@ == mask_filter(old(self)@, keep@),
            final(self).cap == old(self).cap,
    {
        retain_mask(&mut self.cells, keep);
        proof {
            lemma_mask_filter_map(old(self).cells@, keep@, |c: RawCell| c@);
        }
    }
}

impl Clone for RawCells {
    /// A deep copy, cell by cell, preserving the capacity. Copying each
    /// cell from its byte slice keeps small cells inline.
    fn clone(&self) -> (r: Self)
        ensures
            r@ == self@,
            r.cap == self.cap,
    {
        let mut cells: Vec<RawCell> = Vec::with_capacity(self.cap);
        let n = self.cells.len();
        let mut i: usize = 0;
        while i < n
            invariant
                i <= n,
                n == self.cells@.len(),
                cells@.len() == i,
                forall|k: int| 0 <= k < i ==> (#[trigger] cells@[k])@ == self.cells@[k]@,
            decreases n - i,
        {
            cells.push(self.cells[i].clone());
            i = i + 1;
        }
        let r = RawCells { cells, cap: self.cap };
        proof {
            assert(r@ =~= self@);
        }
        r
    }
}

/// The two states of a column: raw cells, or a decoded typed vector.
pub enum LazyBatchColumn {
    Raw(RawCells),
    Decoded(VectorValue),
}

/// The mathematical model of a [`LazyBatchColumn`]: the cells' byte
/// strings, or the decoded vector's type and values.
pub enum ColumnView {
    Raw(Seq<Seq<u8>>),
    Decoded(VectorView),
}

impl View for LazyBatchColumn {
    type V = ColumnView;

    open spec fn view(&self) -> ColumnView {
        match self {
            LazyBatchColumn::Raw(c) => ColumnView::Raw(c@),
            LazyBatchColumn::Decoded(v) => ColumnView::Decoded(v@),
        }
    }
}

/// The row count of a column in either state.
pub open spec fn column_len(v: ColumnView) -> nat {
    match v {
        ColumnView::Raw(c) => c.len(),
        ColumnView::Decoded(d) => d.values.len(),
    }
}

/// A column after keeping exactly the rows whose mask entry is `true`.
pub open spec fn column_retained(v: ColumnView, m: Seq<bool>) -> ColumnView {
    match v {
        ColumnView::Raw(c) => ColumnView::Raw(mask_filter(c, m)),
        ColumnView::Decoded(d) => ColumnView::Decoded(
            VectorView { eval_type: d.eval_type, values: mask_filter(d.values, m) },
        ),
    }
}

impl LazyBatchColumn {
    /// The tracked row capacity, defined in either state.
    pub open spec fn spec_cap(&self) -> usize {
        match self {
            LazyBatchColumn::Raw(c) => c.cap,
            LazyBatchColumn::Decoded(v) => v.cap,
        }
    }

    /// An empty raw column sized for `capacity` rows.
    pub fn raw_with_capacity(capacity: usize) -> (r: LazyBatchColumn)
        ensures
            r@ == ColumnView::Raw(Seq::<Seq<u8>>::empty()),
            r.spec_cap() == capacity,
    {
        LazyBatchColumn::Raw(RawCells::with_capacity(capacity))
    }

    /// Whether the column still holds raw cells.
    pub fn is_raw(&self) -> (r: bool)
        ensures
            r == (self@ is Raw),
    {
        match self {
            LazyBatchColumn::Raw(_) => true,
            LazyBatchColumn::Decoded(_) => false,
        }
    }

    /// Whether the column has been decoded.
    pub fn is_decoded(&self) -> (r: bool)
        ensures
            r == (self@ is Decoded),
    {
        match self {
            LazyBatchColumn::Raw(_) => false,
            LazyBatchColumn::Decoded(_) => true,
        }
    }

    /// The decoded vector of a decoded column.
    pub fn get_decoded(&self) -> (r: &VectorValue)
        requires
            self@ is Decoded,
        ensures
            r@ == self@->Decoded_0,
            r.cap == self.spec_cap(),
    {
        match self {
            LazyBatchColumn::Decoded(v) => v,
            LazyBatchColumn::Raw(_) => unreached(),
        }
    }

    /// The raw cells of a raw column.
    pub fn get_raw(&self) -> (r: &RawCells)
        requires
            self@ is Raw,
        ensures
            r@ == self@->Raw_0,
            r.cap == self.spec_cap(),
    {
        match self {
            LazyBatchColumn::Raw(c) => c,
            LazyBatchColumn::Decoded(_) => unreached(),
        }
    }

    /// The number of rows, in either state.
    pub fn len(&self) -> (r: usize)
        ensures
            r == column_len(self@),
    {
        match self {
            LazyBatchColumn::Raw(c) => c.len(),
            LazyBatchColumn::Decoded(v) => v.len(),
        }
    }

    /// Whether the column holds no rows.
    pub fn is_empty(&self) -> (r: bool)
        ensures
            r == (column_len(self@) == 0),
    {
        self.len() == 0
    }

    /// How many rows the column is sized for, in either state.
    pub fn capacity(&self) -> (r: usize)
        ensures
            r == self.spec_cap(),
    {
        match self {
            LazyBatchColumn::Raw(c) => c.cap,
            LazyBatchColumn::Decoded(v) => v.capacity(),
        }
    }

    /// Drops every row past the first `len`, in either state; never grows.
    pub fn truncate(&mut self, len: usize)
        ensures
            final(self)@ == match old(self)@ {
                ColumnView::Raw(c) => ColumnView::Raw(
                    if len <= c.len() {
                        c.subrange(0, len as int)
                    } else {
                        c
                    },
                ),
                ColumnView::Decoded(d) => ColumnView::Decoded(
                    VectorView {
                        eval_type: d.eval_type,
                        values: if len <= d.values.len() {
                            d.values.subrange(0, len as int)
                        } else {
                            d.values
                        },
                    },
                ),
            },
            final(self).spec_cap() == old(self).spec_cap(),
    {
        match self {
            LazyBatchColumn::Raw(c) => c.truncate(len),
            LazyBatchColumn::Decoded(v) => v.truncate(len),
        }
    }

    /// Clears all rows, in either state; type and capacity stay.
    pub fn clear(&mut self)
        ensures
            final(self)@ == match old(self)@ {
                ColumnView::Raw(c) => ColumnView::Raw(Seq::<Seq<u8>>::empty()),
                ColumnView::Decoded(d) => ColumnView::Decoded(
                    VectorView { eval_type: d.eval_type, values: Seq::empty() },
                ),
            },
            final(self).spec_cap() == old(self).spec_cap(),
    {
        self.truncate(0);
        proof {
            match old(self)@ {
                ColumnView::Raw(c) => {
                    assert(c.subrange(0, 0) =~= Seq::<Seq<u8>>::empty());
                },
                ColumnView::Decoded(d) => {
                    assert(d.values.subrange(0, 0) =~= Seq::<Option<Datum>>::empty());
                },
            }
        }
    }

    /// Keeps exactly the rows whose mask entry is `true`, in order, in
    /// either state.
    pub fn retain_by_index(&mut self, keep: &[bool])
        requires
            keep@.len() == column_len(old(self)@),
        ensures
            final(self)@ == column_retained(old(self)@, keep@),
            final(self).spec_cap() == old(self).spec_cap(),
    {
        match self {
            LazyBatchColumn::Raw(c) => c.retain_by_index(keep),
            LazyBatchColumn::Decoded(v) => v.retain_by_index(keep),
        }
    }

    /// Appends one raw cell holding a copy of `raw_datum`; empty bytes mark
    /// an absent value. The column must still be raw: pushing into a
    /// decoded column is a caller bug, ruled out here rather than detected
    /// at run time.
    pub fn push_raw(&mut self, raw_datum: &[u8])
        requires
            old(self)@ is Raw,
        ensures
            final(self)@ == ColumnView::Raw(old(self)@->Raw_0.push(raw_datum@)),
            final(self).spec_cap() == cap_after(
                old(self).spec_cap(),
                column_len(old(self)@) + 1int,
            ),
    {
        match self {
            LazyBatchColumn::Raw(c) => c.push_bytes(raw_datum),
            LazyBatchColumn::Decoded(_) => unreached(),
        }
    }

    /// Decodes the whole column under `schema` if it is still raw.
    ///
    /// A decoded column is left untouched and the call succeeds: decoding
    /// is idempotent. Otherwise every cell is resolved in row order — a
    /// non-empty cell as a datum, an absent cell through the schema's
    /// default value and nullability — and on success the column becomes
    /// the decoded vector, sized as before. On the first failing cell the
    /// error is returned and the column stays raw, byte for byte as it was.
    pub fn decode(&mut self, time_zone: Tz, schema: &ColumnSchema) -> (r: Result<(), Error>)
        ensures
            old(self)@ is Decoded ==> r is Ok && *final(self) == *old(self),
            old(self)@ is Raw ==> match decode_result(old(self)@->Raw_0, schema@) {
                Result::Ok(vals) => r is Ok && final(self)@ == ColumnView::Decoded(
                    VectorView { eval_type: schema@.eval_type, values: vals },
                ) && final(self).spec_cap() == cap_after(
                    old(self).spec_cap(),
                    column_len(old(self)@) as int,
                ),
                Result::Err(e) => r == Result::<(), Error>::Err(e) && *final(self) == *old(self),
            },
    {
        if self.is_decoded() {
            return Result::Ok(());
        }
        let cap = self.capacity();
        let mut decoded = VectorValue::with_capacity(cap, schema.eval_type);
        let cells = self.get_raw();
        let ghost raw = cells@;
        let ghost sv = schema@;
        let n = cells.len();
        let mut i: usize = 0;
        while i < n
            invariant
                i <= n,
                n == raw.len(),
                *self == *old(self),
                old(self)@ is Raw,
                raw == old(self)@->Raw_0,
                cap == old(self).spec_cap(),
                cells@ == raw,
                sv == schema@,
                decoded@.eval_type == sv.eval_type,
                decoded@.values == decoded_prefix(raw, sv, i as int),
                decoded.cap == cap_after(cap, i as int),
                forall|k: int| 0 <= k < i ==> (#[trigger] cell_decode(raw[k], sv)) is Some,
            decreases n - i,
        {
            let cell = cells.get(i);
            let step = if cell.is_empty() {
                match &schema.default_value {
                    Option::Some(d) => decoded.push_datum(d.as_slice(), time_zone, schema),
                    Option::None => {
                        if schema.nullable {
                            decoded.push_null();
                            Result::Ok(())
                        } else {
                            proof {
                                lemma_decode_result_err(raw, sv, i as int);
                            }
                            return Result::Err(Error::NotNullViolation(schema.column_id));
                        }
                    },
                }
            } else {
                decoded.push_datum(cell.as_bytes(), time_zone, schema)
            };
            match step {
                Result::Err(e) => {
                    proof {
                        lemma_decode_result_err(raw, sv, i as int);
                    }
                    return Result::Err(e);
                },
                Result::Ok(()) => {},
            }
            proof {
                assert(decoded_prefix(raw, sv, i + 1) =~= decoded_prefix(raw, sv, i as int).push(
                    cell_decode(raw[i as int], sv)->Some_0,
                ));
            }
            i = i + 1;
        }
        proof {
            lemma_decode_result_ok(raw, sv);
        }
        *self = LazyBatchColumn::Decoded(decoded);
        Result::Ok(())
    }
}

impl Clone for LazyBatchColumn {
    /// A deep, independent copy in the same state, preserving the rows and
    /// the capacity.
    fn clone(&self) -> (r: Self)
        ensures
            r@ == self@,
            r.spec_cap() == self.spec_cap(),
    {
        match self {
            LazyBatchColumn::Raw(c) => LazyBatchColumn::Raw(c.clone()),
            LazyBatchColumn::Decoded(v) => LazyBatchColumn::Decoded(v.clone()),
        }
    }
}

} // verus!
