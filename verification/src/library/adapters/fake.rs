//! Candidates that are always the same.

use vstd::prelude::*;

use crate::library::{Candidate, CandidateError, CandidateQuery};

verus! {

/// A fixed set of candidates, returned for every query.
#[derive(Debug)]
pub struct FakeCandidateSource {
    pub label: String,
    pub candidates: Vec<Candidate>,
}

impl FakeCandidateSource {
    pub fn new(label: &str, candidates: Vec<Candidate>) -> (r: FakeCandidateSource)
        ensures
            r.label@ == label@,
            r.candidates == candidates,
    {
        FakeCandidateSource { label: label.to_owned(), candidates }
    }

    pub fn label(&self) -> (r: &str)
        ensures
            r@ == self.label@,
    {
        self.label.as_str()
    }

    pub fn find_candidates(&self, _query: &CandidateQuery) -> (r: Result<
        Vec<Candidate>,
        CandidateError,
    >)
        ensures
            r matches Ok(found) && found@ == self.candidates@,
    {
        let mut out: Vec<Candidate> = Vec::new();
        let mut i: usize = 0;
        while i < self.candidates.len()
            invariant
                i <= self.candidates@.len(),
                out@ =~= self.candidates@.take(i as int),
            decreases self.candidates@.len() - i,
        {
            out.push(self.candidates[i].clone());
            i += 1;
        }
        assert(self.candidates@.take(i as int) =~= self.candidates@);
        Ok(out)
    }
}

} // verus!
