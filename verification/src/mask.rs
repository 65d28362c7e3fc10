//! Filtering a sequence by a boolean mask, one decision per index.
//!
//! Row filtering keeps exactly the rows whose mask entry is `true`,
//! preserving their relative order. The mask is the memoized form of a
//! per-row predicate: computing it once and applying it to every column
//! guarantees that all columns make the same decision for a given row.

use vstd::prelude::*;

verus! {

/// The subsequence of `s` at the indices where `m` is `true`, in order.
pub open spec fn mask_filter<T>(s: Seq<T>, m: Seq<bool>) -> Seq<T>
    decreases s.len(),
{
    if s.len() == 0 {
        Seq::empty()
    } else {
        let head: Seq<T> = if m[0] {
            seq![s[0]]
        } else {
            Seq::empty()
        };
        head + mask_filter(s.drop_first(), m.drop_first())
    }
}

/// How many entries of `m` are `true`.
pub open spec fn count_true(m: Seq<bool>) -> nat
    decreases m.len(),
{
    if m.len() == 0 {
        0
    } else {
        (if m[0] {
            1nat
        } else {
            0nat
        }) + count_true(m.drop_first())
    }
}

/// Filtering by a mask keeps exactly as many elements as the mask has
/// `true` entries. Every column filtered by one mask therefore ends up
/// with the same length.
pub proof fn lemma_mask_filter_len<T>(s: Seq<T>, m: Seq<bool>)
    requires
        s.len() == m.len(),
    ensures
        mask_filter(s, m).len() == count_true(m),
    decreases s.len(),
{
    if s.len() > 0 {
        lemma_mask_filter_len(s.drop_first(), m.drop_first());
    }
}

/// Peels one index off a mask filter of the suffixes starting at `i`.
proof fn lemma_mask_filter_step<T>(s: Seq<T>, m: Seq<bool>, i: int)
    requires
        s.len() == m.len(),
        0 <= i < s.len(),
    ensures
        mask_filter(s.skip(i), m.skip(i)) == (if m[i] {
            seq![s[i]]
        } else {
            Seq::<T>::empty()
        }) + mask_filter(s.skip(i + 1), m.skip(i + 1)),
{
    assert(s.skip(i).drop_first() =~= s.skip(i + 1));
    assert(m.skip(i).drop_first() =~= m.skip(i + 1));
}

/// Filtering by a mask commutes with mapping a function over the elements.
pub proof fn lemma_mask_filter_map<T, U>(s: Seq<T>, m: Seq<bool>, f: spec_fn(T) -> U)
    requires
        s.len() == m.len(),
    ensures
        mask_filter(s, m).map_values(f) == mask_filter(s.map_values(f), m),
    decreases s.len(),
{
    if s.len() == 0 {
        assert(mask_filter(s, m).map_values(f) =~= mask_filter(s.map_values(f), m));
    } else {
        lemma_mask_filter_map(s.drop_first(), m.drop_first(), f);
        assert(s.map_values(f).drop_first() =~= s.drop_first().map_values(f));
        assert(mask_filter(s, m).map_values(f) =~= mask_filter(s.map_values(f), m));
    }
}

/// Keeps exactly the elements of `v` whose mask entry is `true`, in place
/// and in order.
pub fn retain_mask<T>(v: &mut Vec<T>, keep: &[bool])
    requires
        keep@.len() == old(v)@.len(),
    ensures
        final(v)@ == mask_filter(old(v)@, keep@),
{
    let ghost s = v@;
    let ghost m = keep@;
    let mut i: usize = v.len();
    assert(s.skip(i as int) =~= Seq::<T>::empty());
    assert(v@ =~= s.subrange(0, i as int) + mask_filter(s.skip(i as int), m.skip(i as int)));
    while i > 0
        invariant
            i <= s.len(),
            m.len() == s.len(),
            keep@ == m,
            v@ == s.subrange(0, i as int) + mask_filter(s.skip(i as int), m.skip(i as int)),
        decreases i,
    {
        i = i - 1;
        proof {
            lemma_mask_filter_step(s, m, i as int);
        }
        if !keep[i] {
            v.remove(i);
        }
        assert(v@ =~= s.subrange(0, i as int) + mask_filter(s.skip(i as int), m.skip(i as int)));
    }
    assert(s.skip(0) =~= s);
    assert(m.skip(0) =~= m);
    assert(v@ =~= mask_filter(s, m));
}

} // verus!
