//! Work assignments and the solutions that hash chips return for them.

use vstd::prelude::*;

verus! {

/// A precomputed partial SHA-256 state together with the block version it
/// was computed for.
#[derive(Clone, Copy, Debug, PartialEq, Eq)]
pub struct Midstate {
    pub version: u32,
    pub state: [u8; 32],
}

/// A unit of search space handed to the chips. The registry never looks
/// inside; it only keeps the assignment and hands copies back.
#[derive(Debug)]
pub struct Assignment {
    /// Reference to the job this work was generated from
    pub job: u64,
    /// One midstate per rolled block version
    pub midstates: Vec<Midstate>,
    /// Block time the chips start from
    pub ntime: u32,
}

/// What an [`Assignment`] holds, as mathematical values.
pub struct AssignmentView {
    pub job: u64,
    pub midstates: Seq<Midstate>,
    pub ntime: u32,
}

impl View for Assignment {
    type V = AssignmentView;

    open spec fn view(&self) -> AssignmentView {
        AssignmentView { job: self.job, midstates: self.midstates@, ntime: self.ntime }
    }
}

impl Assignment {
    pub fn new(job: u64, midstates: Vec<Midstate>, ntime: u32) -> (work: Self)
        ensures
            work@ == (AssignmentView { job, midstates: midstates@, ntime }),
    {
        Assignment { job, midstates, ntime }
    }
}

impl Clone for Assignment {
    fn clone(&self) -> (copy: Self)
        ensures
            copy@ == self@,
    {
        let mut midstates: Vec<Midstate> = Vec::new();
        let mut i: usize = 0;
        while i < self.midstates.len()
            invariant
                i <= self.midstates.len(),
                midstates@ == self.midstates@.subrange(0, i as int),
            decreases self.midstates.len() - i,
        {
            midstates.push(self.midstates[i]);
            assert(midstates@ =~= self.midstates@.subrange(0, i + 1));
            i += 1;
        }
        assert(midstates@ =~= self.midstates@);
        Assignment { job: self.job, midstates, ntime: self.ntime }
    }
}

/// What a backend reports for one nonce found by a chip.
///
/// The registry tells solutions apart by their nonce alone. `nonce_value` is
/// the nonce as contracts speak of it and `nonce` the one that is computed;
/// a type gives both the same value.
pub trait BackendSolution: Sized {
    /// The nonce of this solution, as contracts speak of it.
    spec fn nonce_value(&self) -> u32;

    /// The nonce that the chip returned.
    fn nonce(&self) -> (nonce: u32)
        ensures
            nonce == self.nonce_value(),
    ;
}

/// A solution together with the work it solves.
#[derive(Debug)]
pub struct Solution<S> {
    pub work: Assignment,
    pub solution: S,
}

} // verus!
