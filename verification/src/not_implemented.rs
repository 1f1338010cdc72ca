//! Placeholder adapters must fail loudly, not pretend.
//!
//! An adapter that is stubbed out returns this error, naming the document that
//! describes the work. The workflow treats it as "hold for review", so a
//! stubbed integration parks jobs safely instead of silently reporting success.

use vstd::prelude::*;
use vstd::string::*;

verus! {

#[derive(Clone, Copy, Debug, PartialEq, Eq)]
pub struct NotImplemented {
    pub adapter: &'static str,
    pub todo: &'static str,
}

impl NotImplemented {
    pub fn new(adapter: &'static str, todo: &'static str) -> (r: NotImplemented)
        ensures
            r.adapter@ == adapter@,
            r.todo@ == todo@,
    {
        NotImplemented { adapter, todo }
    }

    /// The sentence shown for it.
    pub open spec fn sentence(self) -> Seq<char> {
        self.adapter@ + " is not implemented yet (see "@ + self.todo@ + ")"@
    }

    pub fn message(&self) -> (r: String)
        ensures
            r@ == self.sentence(),
    {
        let mut out = self.adapter.to_owned();
        out.append(" is not implemented yet (see ");
        out.append(self.todo);
        out.append(")");
        out
    }
}

} // verus!
