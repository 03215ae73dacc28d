//! Post-processing of Jones matrices that is the same for every engine: the
//! reordering of the four entries into IAU order.

use vstd::prelude::*;

verus! {

/// The entries of `j` in IAU order: the first and last entries trade places,
/// and so do the two in the middle.
pub open spec fn iau_order_of<T>(j: Seq<T>) -> Seq<T> {
    seq![j[3], j[2], j[1], j[0]]
}

/// Rearranges a Jones matrix, held as its four entries in the canonical
/// order, into IAU order.
pub fn iau_reorder<T: Copy>(j: [T; 4]) -> (r: [T; 4])
    ensures
        r@ == iau_order_of(j@),
{
    let r = [j[3], j[2], j[1], j[0]];
    assert(r@ =~= iau_order_of(j@));
    r
}

/// Rearranges every matrix of `jones` into IAU order, keeping their order.
pub fn reorder_all<T: Copy>(jones: &mut Vec<[T; 4]>)
    ensures
        final(jones)@.len() == old(jones)@.len(),
        forall|i: int| 0 <= i < old(jones)@.len() ==> #[trigger] final(jones)@[i]@ == iau_order_of(old(jones)@[i]@),
{
    let mut i: usize = 0;
    while i < jones.len()
        invariant
            i <= jones.len(),
            jones@.len() == old(jones)@.len(),
            forall|k: int| 0 <= k < i ==> #[trigger] jones@[k]@ == iau_order_of(old(jones)@[k]@),
            forall|k: int| i <= k < jones@.len() ==> #[trigger] jones@[k] == old(jones)@[k],
        decreases jones.len() - i,
    {
        let r = iau_reorder(jones[i]);
        jones.set(i, r);
        i = i + 1;
    }
}

/// Reordering into IAU order moves entry 3 to 0, 2 to 1, 1 to 2 and 0 to 3,
/// and doing it twice gives back the matrix it started from.
pub proof fn lemma_iau_order_involution<T>(j: Seq<T>)
    requires
        j.len() == 4,
    ensures
        iau_order_of(j)[0] == j[3],
        iau_order_of(j)[1] == j[2],
        iau_order_of(j)[2] == j[1],
        iau_order_of(j)[3] == j[0],
        iau_order_of(iau_order_of(j)) == j,
{
    assert(iau_order_of(iau_order_of(j)) =~= j);
}

} // verus!
