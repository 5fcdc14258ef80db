use vstd::prelude::*;

verus! {

/// The request of shop `id` to join the ring.
#[derive(Debug, PartialEq, Eq)]
pub struct Syn {
    id: usize,
}

impl View for Syn {
    type V = usize;

    closed spec fn view(&self) -> usize {
        self.id
    }
}

impl Syn {
    /// The join request of shop `id`.
    pub fn new(id: usize) -> (syn: Syn)
        ensures
            syn@ == id,
    {
        Syn { id }
    }

    /// The shop that asks to join.
    pub fn get_id(&self) -> (id: usize)
        ensures
            id == self@,
    {
        self.id
    }
}

} // verus!
