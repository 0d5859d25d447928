//! Keycode batches.
//!
//! A batch is one keycode set handed to the report emitter. It is carried
//! in a small inline vector from the `smallvec` crate, heap-spilling only
//! when a cycle resolves more than four codes at once. Verus does not read
//! that type: the struct below hides it, and `batch_seq` names what it
//! holds.

use vstd::prelude::*;
use smallvec::SmallVec;

verus! {

/// One ordered set of keycodes to be sent in a single report.
#[verifier::external_body]
pub struct Batch {
    /// The codes themselves, exposed for the report emitter and nothing
    /// else; verified code reads them only through `batch_seq`.
    pub codes: SmallVec<[u8; 4]>,
}

/// The keycodes a batch holds, in order.
pub uninterp spec fn batch_seq(v: Batch) -> Seq<u8>;

impl Batch {
    /// Relies on smallvec::SmallVec::new: a newly created vector is empty.
    #[verifier::external_body]
    pub fn new() -> (r: Batch)
        ensures
            batch_seq(r) == Seq::<u8>::empty(),
    {
        Batch { codes: SmallVec::new() }
    }

    /// Relies on smallvec::SmallVec::push: appends one element at the end.
    #[verifier::external_body]
    pub fn push(&mut self, k: u8)
        ensures
            batch_seq(*final(self)) == batch_seq(*old(self)).push(k),
    {
        self.codes.push(k)
    }
}

/// The keycode sets of a run of batches, in order.
pub open spec fn batches_view(actions: Seq<Batch>) -> Seq<Seq<u8>> {
    Seq::new(actions.len(), |i: int| batch_seq(actions[i]))
}

} // verus!
