//! Short lists of face indices, held in a `smallvec::SmallVec` with four
//! inline slots (a vertex of a planar shell is rarely shared by more faces).

use smallvec::SmallVec;
use vstd::prelude::*;

verus! {

/// A list of face indices stored inline for up to four items.
#[verifier::external_body]
pub struct IndexList {
    items: SmallVec<[usize; 4]>,
}

/// The indices held by an [`IndexList`], in order.
pub uninterp spec fn index_list_items(v: IndexList) -> Seq<usize>;

/// Largest length for which [`IndexList::push`] is known not to overflow the
/// allocation size that `SmallVec::push` computes when it grows.
pub open spec fn index_list_limit() -> nat {
    0x1000_0000
}

impl IndexList {
    /// `SmallVec::new`: an empty list.
    #[verifier::external_body]
    pub(crate) fn new() -> (v: IndexList)
        ensures
            index_list_items(v) == Seq::<usize>::empty(),
    {
        IndexList { items: SmallVec::new() }
    }

    /// `SmallVec::push`: appends `x` at the end.
    #[verifier::external_body]
    pub(crate) fn push(&mut self, x: usize)
        requires
            index_list_items(*old(self)).len() < index_list_limit(),
        ensures
            index_list_items(*final(self)) == index_list_items(*old(self)).push(x),
    {
        self.items.push(x)
    }

    /// `SmallVec::len`: the number of items.
    #[verifier::external_body]
    pub(crate) fn len(&self) -> (n: usize)
        ensures
            n == index_list_items(*self).len(),
    {
        self.items.len()
    }

    /// `SmallVec` indexing: the item at position `i`.
    #[verifier::external_body]
    pub(crate) fn get(&self, i: usize) -> (x: usize)
        requires
            i < index_list_items(*self).len(),
        ensures
            x == index_list_items(*self)[i as int],
    {
        self.items[i]
    }

    /// The items, in order.
    pub fn to_vec(&self) -> (r: Vec<usize>)
        ensures
            r@ == index_list_items(*self),
    {
        let n = self.len();
        let mut out: Vec<usize> = Vec::new();
        let mut i: usize = 0;
        while i < n
            invariant
                n == index_list_items(*self).len(),
                i <= n,
                out@ == index_list_items(*self).take(i as int),
            decreases n - i,
        {
            out.push(self.get(i));
            assert(index_list_items(*self).take(i + 1) =~= index_list_items(*self).take(
                i as int,
            ).push(index_list_items(*self)[i as int]));
            i = i + 1;
        }
        assert(index_list_items(*self).take(n as int) =~= index_list_items(*self));
        out
    }

    /// Whether `x` is one of the items.
    pub fn contains(&self, x: usize) -> (found: bool)
        ensures
            found == index_list_items(*self).contains(x),
    {
        let n = self.len();
        let mut i: usize = 0;
        while i < n
            invariant
                n == index_list_items(*self).len(),
                i <= n,
                forall|j: int| 0 <= j < i ==> index_list_items(*self)[j] != x,
            decreases n - i,
        {
            if self.get(i) == x {
                return true;
            }
            i = i + 1;
        }
        false
    }
}

} // verus!
