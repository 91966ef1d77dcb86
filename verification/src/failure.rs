//! What becomes of each kind of failure: which ones are absorbed where they
//! happen, and which ones end the run.

use vstd::prelude::*;

verus! {

/// The kinds of failure that a run can meet.
#[derive(Clone, Copy, Debug, PartialEq, Eq, Structural)]
pub enum FailureKind {
    /// The fetch of one category of one course failed.
    SubResourceFetch,
    /// The network call behind a template function failed.
    BridgeCall,
    /// The list of courses could not be fetched.
    ParentList,
    /// No credential could be had.
    Credential,
    /// A record could not be rendered.
    Render,
    /// A rendered page could not be handed to the output.
    OutputSink,
}

/// What is done about a failure.
#[derive(Clone, Copy, Debug, PartialEq, Eq, Structural)]
pub enum Disposition {
    /// The failure is absorbed where it happened and shows, at most, as an empty
    /// section or a fallback value.
    Recovered,
    /// The failure ends the whole run.
    Fatal,
}

impl FailureKind {
    /// What is done about a failure of this kind.
    ///
    /// A failed category fetch becomes an absent collection and a failed bridge
    /// call becomes a fallback value. Without the list of courses or without a
    /// credential nothing useful is left to do, and a failure to render or to
    /// write one course's page ends the run as well.
    pub open spec fn policy(self) -> Disposition {
        match self {
            FailureKind::SubResourceFetch => Disposition::Recovered,
            FailureKind::BridgeCall => Disposition::Recovered,
            FailureKind::ParentList => Disposition::Fatal,
            FailureKind::Credential => Disposition::Fatal,
            FailureKind::Render => Disposition::Fatal,
            FailureKind::OutputSink => Disposition::Fatal,
        }
    }

    /// What is done about a failure of this kind.
    pub fn disposition(self) -> (d: Disposition)
        ensures
            d == self.policy(),
    {
        match self {
            FailureKind::SubResourceFetch => Disposition::Recovered,
            FailureKind::BridgeCall => Disposition::Recovered,
            FailureKind::ParentList => Disposition::Fatal,
            FailureKind::Credential => Disposition::Fatal,
            FailureKind::Render => Disposition::Fatal,
            FailureKind::OutputSink => Disposition::Fatal,
        }
    }

    /// Whether a failure of this kind ends the run.
    pub fn is_fatal(self) -> (b: bool)
        ensures
            b == (self.policy() == Disposition::Fatal),
            b == !(self == FailureKind::SubResourceFetch || self == FailureKind::BridgeCall),
    {
        match self.disposition() {
            Disposition::Fatal => true,
            Disposition::Recovered => false,
        }
    }
}

} // verus!
