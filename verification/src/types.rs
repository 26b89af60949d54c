//! Severity levels and check descriptors.

use vstd::prelude::*;

verus! {

use core::cmp::Ordering;

/// Result of a check: the level of severity of what the check found.
///
/// The variants form a fixed total order, ascending from `Ok` to `Fatal`;
/// `severity_rank` gives each its place in that order.
#[derive(Debug, Clone, Copy, PartialEq, Eq, Structural)]
pub enum CheckResult {
    /// A value within expected parameters.
    Okay,
    /// Information; not a problem in itself.
    Info,
    /// Something that might be a problem.
    Warning,
    /// Definitely a problem.
    Error,
    /// The check itself could not complete.
    Fatal,
}

/// Place of a severity in the fixed total order, ascending from `Ok`.
pub open spec fn severity_rank(s: CheckResult) -> int {
    match s {
        CheckResult::Okay => 0,
        CheckResult::Info => 1,
        CheckResult::Warning => 2,
        CheckResult::Error => 3,
        CheckResult::Fatal => 4,
    }
}

/// The stable display label of a severity.
pub open spec fn severity_label(s: CheckResult) -> Seq<char> {
    match s {
        CheckResult::Okay => "Ok"@,
        CheckResult::Info => "Info"@,
        CheckResult::Warning => "Warning"@,
        CheckResult::Error => "Error"@,
        CheckResult::Fatal => "Fatal"@,
    }
}

impl CheckResult {
    /// The place of this severity in the total order, as a machine integer.
    pub fn rank(&self) -> (r: u8)
        ensures
            r as int == severity_rank(*self),
    {
        match self {
            CheckResult::Okay => 0,
            CheckResult::Info => 1,
            CheckResult::Warning => 2,
            CheckResult::Error => 3,
            CheckResult::Fatal => 4,
        }
    }

    /// The stable display label of this severity.
    pub fn label(&self) -> (r: &'static str)
        ensures
            r@ == severity_label(*self),
    {
        match self {
            CheckResult::Okay => "Ok",
            CheckResult::Info => "Info",
            CheckResult::Warning => "Warning",
            CheckResult::Error => "Error",
            CheckResult::Fatal => "Fatal",
        }
    }
}

/// Every severity label is short, non-empty, and free of line breaks.
pub proof fn lemma_severity_label_props(s: CheckResult)
    ensures
        1 <= severity_label(s).len() <= 7,
        forall|i: int| 0 <= i < severity_label(s).len() ==> severity_label(s)[i] != '\n',
{
    reveal_strlit("Ok");
    reveal_strlit("Info");
    reveal_strlit("Warning");
    reveal_strlit("Error");
    reveal_strlit("Fatal");
}

impl PartialOrd for CheckResult {
    fn partial_cmp(&self, other: &Self) -> (r: Option<Ordering>) {
        let a: u8 = self.rank();
        let b: u8 = other.rank();
        if a < b {
            Some(Ordering::Less)
        } else if a == b {
            Some(Ordering::Equal)
        } else {
            Some(Ordering::Greater)
        }
    }
}

impl vstd::std_specs::cmp::PartialOrdSpecImpl for CheckResult {
    open spec fn obeys_partial_cmp_spec() -> bool {
        true
    }

    open spec fn partial_cmp_spec(&self, other: &Self) -> Option<Ordering> {
        if severity_rank(*self) < severity_rank(*other) {
            Some(Ordering::Less)
        } else if severity_rank(*self) == severity_rank(*other) {
            Some(Ordering::Equal)
        } else {
            Some(Ordering::Greater)
        }
    }
}

/// The callable of a check.
///
/// Holds, opaquely, a caller-supplied zero-argument callable that either
/// succeeds with a severity and a message, or fails with the display text of
/// its error.  The engine treats the callable as a black box: nothing is
/// known of an invocation beyond the value it hands back.
#[verifier::external_body]
pub struct CheckFn {
    f: Box<dyn Fn() -> Result<(CheckResult, String), String>>,
}

impl CheckFn {
    /// Wrap a callable as the body of a check.
    #[verifier::external_body]
    pub fn new<F: Fn() -> Result<(CheckResult, String), String> + 'static>(f: F) -> CheckFn {
        CheckFn { f: Box::new(f) }
    }

    /// Relies on the caller-supplied callable alone: invokes it once and
    /// returns whatever it produced.  No clause constrains the outcome; the
    /// engine is verified for every value that can come back.
    #[verifier::external_body]
    pub(crate) fn invoke(&self) -> Result<(CheckResult, String), String> {
        (self.f)()
    }
}

/// The model of one buffered outcome: a severity, the check's name and the
/// message text, as they stand in one table row block.
pub ghost struct OutcomeModel {
    pub severity: CheckResult,
    pub name: Seq<char>,
    pub message: Seq<char>,
}

/// One buffered outcome of a run: the severity a check produced (or `Fatal`
/// where the check failed), the check's name, and the message text.
pub struct CheckOutcome {
    pub severity: CheckResult,
    pub name: String,
    pub message: String,
}

impl View for CheckOutcome {
    type V = OutcomeModel;

    open spec fn view(&self) -> OutcomeModel {
        OutcomeModel { severity: self.severity, name: self.name@, message: self.message@ }
    }
}

/// A check: a display name joined to the callable that performs it.
pub struct Check {
    /// Name of the check (for display).
    pub name: &'static str,
    /// Function to perform the check.
    pub func: CheckFn,
}

impl Check {
    /// The display name of this check.
    pub open spec fn spec_name(&self) -> Seq<char> {
        self.name@
    }

    /// Create a new check.
    ///
    /// * `name`: Name of check (for display)
    /// * `func`: Function to perform the check
    pub fn new(name: &'static str, func: CheckFn) -> (r: Check)
        ensures
            r.spec_name() == name@,
            r.func == func,
    {
        Check { name, func }
    }
}

} // verus!
