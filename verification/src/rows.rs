//! A row batch: an ordered set of lazily decoded columns that always hold
//! the same number of rows, plus one optional terminal error.

use vstd::prelude::*;
use vstd::pervasive::cloned;

use crate::datum::{decode_result, lemma_decode_result_len};
use crate::lazy_column::{column_len, column_retained, ColumnView, LazyBatchColumn};
use crate::mask::{count_true, lemma_mask_filter_len};
use crate::schema::{ColumnSchema, Tz};
use crate::vector::{cap_after, VectorValue, VectorView};
use crate::Error;

verus! {

/// A batch of rows stored column by column. Every column holds one cell or
/// value per row, so all columns always have the same length when the
/// batch is observed. `E` is the caller's error type for the terminal
/// error slot.
pub struct BatchRows<E> {
    /// The columns, each raw or decoded independently.
    pub columns: Vec<LazyBatchColumn>,
    /// The terminal error, a caller-managed latch: once an error is
    /// recorded here, convention says no more rows are pushed. The batch
    /// itself does not enforce that.
    pub some_error: Option<E>,
}

impl<E> BatchRows<E> {
    /// The batch's row count: that of its first column, and 0 for a batch
    /// without columns (which cannot represent any other row count).
    pub open spec fn spec_rows_len(&self) -> nat {
        if self.columns@.len() == 0 {
            0
        } else {
            column_len(self.columns@[0]@)
        }
    }

    /// Consistency: every column holds exactly the batch's row count.
    /// Filtering may break this column by column, but restores it before
    /// it returns.
    pub open spec fn wf(&self) -> bool {
        forall|i: int|
            0 <= i < self.columns@.len() ==> column_len(#[trigger] self.columns@[i]@)
                == self.spec_rows_len()
    }

    /// An empty batch of `columns_count` raw columns, each sized for
    /// `rows_capacity` rows.
    pub fn raw(columns_count: usize, rows_capacity: usize) -> (r: BatchRows<E>)
        ensures
            r.wf(),
            r.columns@.len() == columns_count,
            forall|i: int|
                0 <= i < columns_count ==> (#[trigger] r.columns@[i])@ == ColumnView::Raw(
                    Seq::<Seq<u8>>::empty(),
                ) && r.columns@[i].spec_cap() == rows_capacity,
            r.some_error is None,
    {
        let mut columns: Vec<LazyBatchColumn> = Vec::with_capacity(columns_count);
        let mut i: usize = 0;
        while i < columns_count
            invariant
                i <= columns_count,
                columns@.len() == i,
                forall|k: int|
                    0 <= k < i ==> (#[trigger] columns@[k])@ == ColumnView::Raw(
                        Seq::<Seq<u8>>::empty(),
                    ) && columns@[k].spec_cap() == rows_capacity,
            decreases columns_count - i,
        {
            columns.push(LazyBatchColumn::raw_with_capacity(rows_capacity));
            i = i + 1;
        }
        BatchRows { columns, some_error: Option::None }
    }

    /// Appends one row: one raw datum per column, in column order, each
    /// possibly empty to mark an absent value. Every column must still be
    /// raw and the row must have exactly one entry per column; both are
    /// caller bugs otherwise, ruled out here rather than detected at run
    /// time.
    pub fn push_raw_row(&mut self, raw_row: &[Vec<u8>])
        requires
            old(self).wf(),
            raw_row@.len() == old(self).columns@.len(),
            forall|i: int|
                0 <= i < old(self).columns@.len() ==> (#[trigger] old(self).columns@[i])@ is Raw,
        ensures
            final(self).wf(),
            final(self).columns@.len() == old(self).columns@.len(),
            forall|i: int|
                0 <= i < old(self).columns@.len() ==> (#[trigger] final(self).columns@[i])@
                    == ColumnView::Raw(old(self).columns@[i]@->Raw_0.push(raw_row@[i]@)) && final(self).columns@[i].spec_cap() == cap_after(
                    old(self).columns@[i].spec_cap(),
                    old(self).spec_rows_len() + 1int,
                ),
            old(self).columns@.len() > 0 ==> final(self).spec_rows_len() == old(self).spec_rows_len() + 1,
            final(self).some_error == old(self).some_error,
    {
        let n = self.columns.len();
        let mut i: usize = 0;
        while i < n
            invariant
                i <= n,
                n == old(self).columns@.len(),
                old(self).wf(),
                raw_row@.len() == n,
                forall|k: int| 0 <= k < n ==> (#[trigger] old(self).columns@[k])@ is Raw,
                self.columns@.len() == n,
                self.some_error == old(self).some_error,
                forall|k: int|
                    i <= k < n ==> #[trigger] self.columns@[k] == old(self).columns@[k],
                forall|k: int|
                    0 <= k < i ==> (#[trigger] self.columns@[k])@ == ColumnView::Raw(
                        old(self).columns@[k]@->Raw_0.push(raw_row@[k]@),
                    ) && self.columns@[k].spec_cap() == cap_after(
                        old(self).columns@[k].spec_cap(),
                        old(self).spec_rows_len() + 1int,
                    ),
            decreases n - i,
        {
            let col = &mut self.columns[i];
            col.push_raw(raw_row[i].as_slice());
            i = i + 1;
        }
    }

    /// Decodes the column at `column_index` under `schema` if it is still
    /// raw — all other columns stay untouched — and returns the decoded
    /// vector. An already decoded column is returned as it is. On a decode
    /// failure the error is propagated and the whole batch is unchanged.
    pub fn ensure_column_decoded(
        &mut self,
        column_index: usize,
        time_zone: Tz,
        schema: &ColumnSchema,
    ) -> (r: Result<&VectorValue, Error>)
        requires
            old(self).wf(),
            column_index < old(self).columns@.len(),
        ensures
            final(self).wf(),
            final(self).columns@.len() == old(self).columns@.len(),
            final(self).spec_rows_len() == old(self).spec_rows_len(),
            final(self).some_error == old(self).some_error,
            forall|k: int|
                0 <= k < old(self).columns@.len() && k != column_index
                    ==> #[trigger] final(self).columns@[k] == old(self).columns@[k],
            old(self).columns@[column_index as int]@ is Decoded ==> r is Ok && final(self).columns@[column_index as int] == old(self).columns@[column_index as int],
            old(self).columns@[column_index as int]@ is Raw ==> match decode_result(
                old(self).columns@[column_index as int]@->Raw_0,
                schema@,
            ) {
                Result::Ok(vals) => r is Ok && final(self).columns@[column_index as int]@
                    == ColumnView::Decoded(
                    VectorView { eval_type: schema@.eval_type, values: vals },
                ),
                Result::Err(e) => r == Result::<&VectorValue, Error>::Err(e) && final(self).columns@[column_index as int] == old(self).columns@[column_index as int],
            },
            r is Ok ==> final(self).columns@[column_index as int]@ is Decoded && r->Ok_0@ == final(self).columns@[column_index as int]@->Decoded_0,
    {
        let ghost old_rows = self.spec_rows_len();
        let col = &mut self.columns[column_index];
        match col.decode(time_zone, schema) {
            Result::Err(e) => {
                proof {
                    assert(self.columns@ =~= old(self).columns@);
                }
                return Result::Err(e);
            },
            Result::Ok(()) => {},
        }
        proof {
            if old(self).columns@[column_index as int]@ is Raw {
                lemma_decode_result_len(
                    old(self).columns@[column_index as int]@->Raw_0,
                    schema@,
                );
            }
            if old(self).columns@[column_index as int]@ is Decoded {
                assert(self.columns@ =~= old(self).columns@);
            }
        }
        Result::Ok(self.columns[column_index].get_decoded())
    }

    /// Whether the column at `column_index` has been decoded.
    pub fn is_column_decoded(&self, column_index: usize) -> (r: bool)
        requires
            column_index < self.columns@.len(),
        ensures
            r == (self.columns@[column_index as int]@ is Decoded),
    {
        self.columns[column_index].is_decoded()
    }

    /// The number of columns. A batch can have columns and no rows.
    pub fn columns_len(&self) -> (r: usize)
        ensures
            r == self.columns@.len(),
    {
        self.columns.len()
    }

    /// The number of rows.
    pub fn rows_len(&self) -> (r: usize)
        ensures
            r == self.spec_rows_len(),
    {
        if self.columns.is_empty() {
            return 0;
        }
        self.columns[0].len()
    }

    /// How many rows the batch is sized for: read from the first column,
    /// and 0 for a batch without columns.
    pub fn rows_capacity(&self) -> (r: usize)
        ensures
            r == if self.columns@.len() == 0 {
                0usize
            } else {
                self.columns@[0].spec_cap()
            },
    {
        if self.columns.is_empty() {
            return 0;
        }
        self.columns[0].capacity()
    }

    /// Keeps exactly the rows whose mask entry is `true`, in order, in
    /// every column at once: each column is filtered with the same mask,
    /// so every column keeps the same rows and ends at the same length.
    pub fn retain_by_index(&mut self, keep: &[bool])
        requires
            old(self).wf(),
            keep@.len() == old(self).spec_rows_len(),
        ensures
            final(self).wf(),
            final(self).columns@.len() == old(self).columns@.len(),
            forall|i: int|
                0 <= i < old(self).columns@.len() ==> (#[trigger] final(self).columns@[i])@
                    == column_retained(old(self).columns@[i]@, keep@) && final(self).columns@[i].spec_cap() == old(self).columns@[i].spec_cap(),
            final(self).spec_rows_len() == count_true(keep@),
            final(self).some_error == old(self).some_error,
    {
        let n = self.columns.len();
        let mut i: usize = 0;
        while i < n
            invariant
                i <= n,
                n == old(self).columns@.len(),
                old(self).wf(),
                keep@.len() == old(self).spec_rows_len(),
                self.columns@.len() == n,
                self.some_error == old(self).some_error,
                forall|k: int|
                    i <= k < n ==> #[trigger] self.columns@[k] == old(self).columns@[k],
                forall|k: int|
                    0 <= k < i ==> (#[trigger] self.columns@[k])@ == column_retained(
                        old(self).columns@[k]@,
                        keep@,
                    ) && self.columns@[k].spec_cap() == old(self).columns@[k].spec_cap(),
            decreases n - i,
        {
            let col = &mut self.columns[i];
            col.retain_by_index(keep);
            i = i + 1;
        }
        proof {
            if n > 0 {
                match old(self).columns@[0]@ {
                    ColumnView::Raw(c) => lemma_mask_filter_len(c, keep@),
                    ColumnView::Decoded(d) => lemma_mask_filter_len(d.values, keep@),
                }
                assert forall|k: int| 0 <= k < n implies column_len(
                    #[trigger] self.columns@[k]@,
                ) == count_true(keep@) by {
                    match old(self).columns@[k]@ {
                        ColumnView::Raw(c) => lemma_mask_filter_len(c, keep@),
                        ColumnView::Decoded(d) => lemma_mask_filter_len(d.values, keep@),
                    }
                }
            }
        }
    }
}

impl<E: Clone> Clone for BatchRows<E> {
    /// A deep, independent copy of every column and of the error slot.
    /// What the error value's own `clone` returns is up to `E`.
    fn clone(&self) -> (r: Self)
        ensures
            r.columns@.len() == self.columns@.len(),
            forall|i: int|
                0 <= i < self.columns@.len() ==> (#[trigger] r.columns@[i])@ == self.columns@[i]@
                    && r.columns@[i].spec_cap() == self.columns@[i].spec_cap(),
            r.some_error is Some <==> self.some_error is Some,
            self.some_error is Some ==> cloned::<E>(
                self.some_error->Some_0,
                r.some_error->Some_0,
            ),
            r.wf() <== self.wf(),
    {
        let n = self.columns.len();
        let mut columns: Vec<LazyBatchColumn> = Vec::with_capacity(n);
        let mut i: usize = 0;
        while i < n
            invariant
                i <= n,
                n == self.columns@.len(),
                columns@.len() == i,
                forall|k: int|
                    0 <= k < i ==> (#[trigger] columns@[k])@ == self.columns@[k]@
                        && columns@[k].spec_cap() == self.columns@[k].spec_cap(),
            decreases n - i,
        {
            columns.push(self.columns[i].clone());
            i = i + 1;
        }
        let some_error = match &self.some_error {
            Option::None => Option::None,
            Option::Some(e) => Option::Some(e.clone()),
        };
        BatchRows { columns, some_error }
    }
}

} // verus!
