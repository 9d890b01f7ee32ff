//! The callbacks through which a caller follows a long operation and may
//! cancel it.
use vstd::prelude::*;

verus! {

/// Follows a transfer.
pub trait ProgressCallback: Sized {
    /// Whether this callback, told that `current` of `total` bytes are
    /// through, may answer `proceed` and be `after` then. A callback that
    /// says nothing of itself may do anything.
    open spec fn may_answer(&self, current: u64, total: u64, proceed: bool, after: Self) -> bool {
        true
    }

    /// Takes the number of bytes that are through and the number that will
    /// be. `false` cancels the transfer.
    fn report(&mut self, current: u64, total: u64) -> (proceed: bool)
        ensures
            old(self).may_answer(current, total, proceed, *final(self)),
    ;
}

/// Follows a firmware update.
pub trait FirmwareUpdateProgressCallback: Sized {
    /// Whether this callback, told of the step `label` with `progress`,
    /// may answer `proceed` and be `after` then. A callback that says
    /// nothing of itself may do anything.
    open spec fn may_answer_step(
        &self,
        label: Seq<char>,
        progress: Option<(u64, u64)>,
        proceed: bool,
        after: Self,
    ) -> bool {
        true
    }

    /// Takes a description of the current step and, where the step has
    /// one, its progress as current and total. `false` cancels the update.
    fn report_step(&mut self, label: &str, progress: Option<(u64, u64)>) -> (proceed: bool)
        ensures
            old(self).may_answer_step(label@, progress, proceed, *final(self)),
    ;
}

/// A callback that looks at nothing and never cancels.
#[derive(Debug, Clone, Copy, PartialEq, Eq, Default)]
pub struct NoProgress;

impl ProgressCallback for NoProgress {
    open spec fn may_answer(&self, current: u64, total: u64, proceed: bool, after: Self) -> bool {
        proceed
    }

    fn report(&mut self, current: u64, total: u64) -> (proceed: bool) {
        true
    }
}

impl FirmwareUpdateProgressCallback for NoProgress {
    open spec fn may_answer_step(
        &self,
        label: Seq<char>,
        progress: Option<(u64, u64)>,
        proceed: bool,
        after: Self,
    ) -> bool {
        proceed
    }

    fn report_step(&mut self, label: &str, progress: Option<(u64, u64)>) -> (proceed: bool) {
        true
    }
}

} // verus!
