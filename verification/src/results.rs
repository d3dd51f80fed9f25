//! What a check, an update or a repair came to.

use vstd::prelude::*;

use crate::text::{pairs_view, texts};
use crate::types::{AvailableUpdate, Diagnostic, UpdateCheckResult};

verus! {

/// Result of checking for available updates.
#[derive(Debug, Clone)]
pub struct CheckResult {
    /// Available updates found during the check.
    pub available_updates: Vec<AvailableUpdate>,
    /// Components that could not be checked, with the reason for each failure.
    pub diagnostics: Vec<Diagnostic>,
}

impl CheckResult {
    /// The updates of a check, and the components that it could not match before those that it
    /// could not look up.
    pub fn from_internal(result: UpdateCheckResult) -> (r: CheckResult)
        ensures
            r.available_updates == result.updates,
            r.diagnostics@ == result.unresolved@ + result.check_failures@,
    {
        let mut diagnostics = result.unresolved;
        let mut failures = result.check_failures;
        diagnostics.append(&mut failures);
        CheckResult { available_updates: result.updates, diagnostics }
    }

    /// Returns `true` if at least one update is available.
    pub fn has_updates(&self) -> (b: bool)
        ensures
            b == (self.available_updates@.len() > 0),
    {
        self.available_updates.len() > 0
    }

    /// Returns the number of available updates.
    pub fn update_count(&self) -> (n: usize)
        ensures
            n == self.available_updates@.len(),
    {
        self.available_updates.len()
    }

    /// Returns `true` if there are no updates and no diagnostics.
    pub fn is_empty(&self) -> (b: bool)
        ensures
            b == (self.available_updates@.len() == 0 && self.diagnostics@.len() == 0),
    {
        self.available_updates.len() == 0 && self.diagnostics.len() == 0
    }
}

/// Result of performing updates: the names of the components that succeeded, failed (with the
/// reason) or were skipped.
#[derive(Debug, Clone)]
pub struct UpdateResult {
    pub succeeded: Vec<String>,
    pub failed: Vec<(String, String)>,
    pub skipped: Vec<String>,
}

/// The result of performing updates, with what its texts hold.
#[verifier::ext_equal]
pub struct UpdateResultView {
    pub succeeded: Seq<Seq<char>>,
    pub failed: Seq<(Seq<char>, Seq<char>)>,
    pub skipped: Seq<Seq<char>>,
}

impl View for UpdateResult {
    type V = UpdateResultView;

    open spec fn view(&self) -> UpdateResultView {
        UpdateResultView {
            succeeded: texts(self.succeeded@),
            failed: pairs_view(self.failed@),
            skipped: texts(self.skipped@),
        }
    }
}

/// Whether no update was attempted.
pub open spec fn nothing_attempted(result: UpdateResult) -> bool {
    &&& result.succeeded@.len() == 0
    &&& result.failed@.len() == 0
    &&& result.skipped@.len() == 0
}

impl Default for UpdateResult {
    fn default() -> (r: UpdateResult)
        ensures
            nothing_attempted(r),
            r.succeeded@.len() == 0,
            r.failed@.len() == 0,
            r.skipped@.len() == 0,
    {
        UpdateResult { succeeded: Vec::new(), failed: Vec::new(), skipped: Vec::new() }
    }
}

impl UpdateResult {
    /// Returns `true` if any component failed to update.
    pub fn has_failures(&self) -> (b: bool)
        ensures
            b == (self.failed@.len() > 0),
    {
        self.failed.len() > 0
    }

    /// Returns `true` if no update actions were attempted.
    pub fn is_empty(&self) -> (b: bool)
        ensures
            b == nothing_attempted(*self),
            b <==> self.succeeded@.len() + self.failed@.len() + self.skipped@.len() == 0,
    {
        self.succeeded.len() == 0 && self.failed.len() == 0 && self.skipped.len() == 0
    }

    /// Returns the number of successfully updated components.
    pub fn success_count(&self) -> (n: usize)
        ensures
            n == self.succeeded@.len(),
    {
        self.succeeded.len()
    }

    /// Returns the number of components that failed to update.
    pub fn failure_count(&self) -> (n: usize)
        ensures
            n == self.failed@.len(),
    {
        self.failed.len()
    }
}

/// Result of a repair operation.
#[derive(Debug, Clone)]
pub struct RepairResult {
    /// Names of components whose `metadata.json` was patched.
    pub patched: Vec<String>,
    /// Components that could not be repaired, with the reason for each failure.
    pub errors: Vec<(String, String)>,
}

impl Default for RepairResult {
    fn default() -> (r: RepairResult)
        ensures
            r.patched@.len() == 0,
            r.errors@.len() == 0,
    {
        RepairResult { patched: Vec::new(), errors: Vec::new() }
    }
}

impl RepairResult {
    /// Returns `true` if at least one component was patched.
    pub fn has_patched(&self) -> (b: bool)
        ensures
            b == (self.patched@.len() > 0),
    {
        self.patched.len() > 0
    }

    /// Returns `true` if any repair attempt encountered an error.
    pub fn has_errors(&self) -> (b: bool)
        ensures
            b == (self.errors@.len() > 0),
    {
        self.errors.len() > 0
    }

    /// Returns `true` if nothing was patched and there were no errors.
    pub fn is_empty(&self) -> (b: bool)
        ensures
            b == (self.patched@.len() == 0 && self.errors@.len() == 0),
    {
        self.patched.len() == 0 && self.errors.len() == 0
    }
}

} // verus!
