//! Compact storage for one raw cell: the encoded bytes of one datum, or an
//! empty byte string meaning "value absent for this row".
//!
//! Cells are held in a `smallvec::SmallVec` so that values of at most 9
//! bytes (one flag byte plus an 8-byte payload) live inline without a heap
//! allocation; longer values spill to the heap. The backing vector's type
//! cannot be declared to the verifier (its generic parameter is bound by a
//! trait of that same outside crate), so the cell hides it in an opaque
//! struct and exposes its contents through `cell_bytes`.

use vstd::prelude::*;

use smallvec::SmallVec;

verus! {

/// One raw cell: an independently owned byte buffer with no decode
/// knowledge of its own. An empty buffer is the "absent" sentinel.
#[verifier::external_body]
pub struct RawCell {
    data: SmallVec<[u8; 9]>,
}

/// The bytes a cell holds, in order.
pub uninterp spec fn cell_bytes(c: RawCell) -> Seq<u8>;

impl View for RawCell {
    type V = Seq<u8>;

    open spec fn view(&self) -> Seq<u8> {
        cell_bytes(*self)
    }
}

impl RawCell {
    /// Copies `bytes` into a new cell.
    ///
    /// Relies on `smallvec::SmallVec::from_slice`: the new vector holds a
    /// copy of the slice's bytes, in order.
    #[verifier::external_body]
    pub fn from_bytes(bytes: &[u8]) -> (r: RawCell)
        ensures
            cell_bytes(r) == bytes@,
    {
        RawCell { data: SmallVec::from_slice(bytes) }
    }

    /// The cell's bytes.
    ///
    /// Relies on `smallvec::SmallVec::as_slice`: a view of all held bytes,
    /// in order.
    #[verifier::external_body]
    pub fn as_bytes(&self) -> (r: &[u8])
        ensures
            r@ == cell_bytes(*self),
    {
        self.data.as_slice()
    }

    /// Whether the cell is the "absent" sentinel.
    pub fn is_empty(&self) -> (r: bool)
        ensures
            r == (self@.len() == 0),
    {
        self.as_bytes().len() == 0
    }
}

/// Lexicographic byte order: the order of the first differing byte, with a
/// strict prefix ordered before the longer string.
pub open spec fn lex_cmp_bytes(a: Seq<u8>, b: Seq<u8>) -> core::cmp::Ordering
    decreases a.len(),
{
    if a.len() == 0 && b.len() == 0 {
        core::cmp::Ordering::Equal
    } else if a.len() == 0 {
        core::cmp::Ordering::Less
    } else if b.len() == 0 {
        core::cmp::Ordering::Greater
    } else if a[0] < b[0] {
        core::cmp::Ordering::Less
    } else if a[0] > b[0] {
        core::cmp::Ordering::Greater
    } else {
        lex_cmp_bytes(a.drop_first(), b.drop_first())
    }
}

/// Two byte strings order as `Equal` exactly when they are equal.
pub proof fn lemma_lex_cmp_equal_iff(a: Seq<u8>, b: Seq<u8>)
    ensures
        (lex_cmp_bytes(a, b) == core::cmp::Ordering::Equal) <==> a == b,
    decreases a.len(),
{
    if a.len() == 0 && b.len() == 0 {
        assert(a =~= b);
    } else if a.len() != 0 && b.len() != 0 && a[0] == b[0] {
        lemma_lex_cmp_equal_iff(a.drop_first(), b.drop_first());
        if a.drop_first() == b.drop_first() {
            assert forall|k: int| 0 <= k < a.len() implies a[k] == b[k] by {
                if k > 0 {
                    assert(a[k] == a.drop_first()[k - 1]);
                    assert(b[k] == b.drop_first()[k - 1]);
                }
            }
            assert(a =~= b);
        }
    }
}

/// Peels one position off a lexicographic comparison of the suffixes
/// starting at `i`.
proof fn lemma_lex_cmp_step(a: Seq<u8>, b: Seq<u8>, i: int)
    requires
        0 <= i < a.len(),
        0 <= i < b.len(),
    ensures
        lex_cmp_bytes(a.skip(i), b.skip(i)) == if a[i] < b[i] {
            core::cmp::Ordering::Less
        } else if a[i] > b[i] {
            core::cmp::Ordering::Greater
        } else {
            lex_cmp_bytes(a.skip(i + 1), b.skip(i + 1))
        },
{
    assert(a.skip(i).drop_first() =~= a.skip(i + 1));
    assert(b.skip(i).drop_first() =~= b.skip(i + 1));
}

impl PartialEq for RawCell {
    /// Content equality: two cells are equal when they hold the same bytes.
    fn eq(&self, other: &RawCell) -> (r: bool)
        ensures
            r == (self@ == other@),
    {
        let a = self.as_bytes();
        let b = other.as_bytes();
        if a.len() != b.len() {
            return false;
        }
        let n = a.len();
        let mut i: usize = 0;
        while i < n
            invariant
                i <= n,
                n == a@.len(),
                n == b@.len(),
                a@ == self@,
                b@ == other@,
                forall|k: int| 0 <= k < i ==> a@[k] == b@[k],
            decreases n - i,
        {
            if a[i] != b[i] {
                return false;
            }
            i = i + 1;
        }
        proof {
            assert(self@ =~= other@);
        }
        true
    }
}

impl vstd::std_specs::cmp::PartialEqSpecImpl for RawCell {
    open spec fn obeys_eq_spec() -> bool {
        true
    }

    open spec fn eq_spec(&self, other: &RawCell) -> bool {
        self@ == other@
    }
}

impl PartialOrd for RawCell {
    /// Content comparison: cells order by their bytes, lexicographically.
    fn partial_cmp(&self, other: &RawCell) -> (r: Option<core::cmp::Ordering>)
        ensures
            r == Option::Some(lex_cmp_bytes(self@, other@)),
    {
        let a = self.as_bytes();
        let b = other.as_bytes();
        let an = a.len();
        let bn = b.len();
        let mut i: usize = 0;
        proof {
            assert(a@.skip(0) =~= a@);
            assert(b@.skip(0) =~= b@);
        }
        while i < an && i < bn
            invariant
                i <= an,
                i <= bn,
                an == a@.len(),
                bn == b@.len(),
                a@ == self@,
                b@ == other@,
                lex_cmp_bytes(self@, other@) == lex_cmp_bytes(
                    a@.skip(i as int),
                    b@.skip(i as int),
                ),
            decreases an - i,
        {
            proof {
                lemma_lex_cmp_step(a@, b@, i as int);
            }
            if a[i] < b[i] {
                return Option::Some(core::cmp::Ordering::Less);
            }
            if a[i] > b[i] {
                return Option::Some(core::cmp::Ordering::Greater);
            }
            i = i + 1;
        }
        proof {
            if an == bn {
                assert(a@.skip(i as int) =~= Seq::<u8>::empty());
                assert(b@.skip(i as int) =~= Seq::<u8>::empty());
            } else if i == an {
                assert(a@.skip(i as int) =~= Seq::<u8>::empty());
            } else {
                assert(b@.skip(i as int) =~= Seq::<u8>::empty());
            }
        }
        if an == bn {
            Option::Some(core::cmp::Ordering::Equal)
        } else if an < bn {
            Option::Some(core::cmp::Ordering::Less)
        } else {
            Option::Some(core::cmp::Ordering::Greater)
        }
    }
}

impl vstd::std_specs::cmp::PartialOrdSpecImpl for RawCell {
    open spec fn obeys_partial_cmp_spec() -> bool {
        true
    }

    open spec fn partial_cmp_spec(&self, other: &RawCell) -> Option<core::cmp::Ordering> {
        Option::Some(lex_cmp_bytes(self@, other@))
    }
}

impl Clone for RawCell {
    /// A byte-for-byte copy.
    ///
    /// Relies on `smallvec::SmallVec::from_slice` and `as_slice`: the copy
    /// holds the same bytes. Built from the cell's slice rather than by the
    /// backing vector's own `clone`, which keeps small cells inline.
    #[verifier::external_body]
    fn clone(&self) -> (r: RawCell)
        ensures
            cell_bytes(r) == cell_bytes(*self),
    {
        RawCell { data: SmallVec::from_slice(self.data.as_slice()) }
    }
}

} // verus!
