//! Environment sanity reporting for command-line tools.
//!
//! A caller assembles a sequence of named checks, each an opaque callable
//! that yields a severity and a message (or fails).  The engine runs them in
//! order, buffers the outcomes, sizes the two leading columns from what it
//! saw, and writes an aligned table followed, on demand, by a one-line
//! verdict.  The table layout, the severity aggregation and the summary rule
//! are specified over sequences of characters and proved.

use vstd::prelude::*;

pub mod report;
pub mod sink;
pub mod style;
pub mod text;
pub mod types;

pub use sink::ReportSink;
pub use sink::StringSink;
pub use types::Check;
pub use types::CheckFn;
pub use types::CheckResult;

verus! {

use vstd::string::StringExecFns;

use crate::report::header_text;
use crate::report::models;
use crate::report::render_report;
use crate::report::report_text;
use crate::report::worst_severity;
use crate::style::red_seq;
use crate::style::render_red;
use crate::style::render_reset;
use crate::style::render_yellow;
use crate::style::reset_seq;
use crate::style::yellow_seq;
use crate::types::CheckOutcome;
use crate::types::OutcomeModel;
use crate::types::severity_rank;

/// Error from a report run.
///
/// A failing check is never an error of the run: it is absorbed as a
/// `Fatal` outcome.  Only the sink refusing a write makes the run fail.
#[derive(Debug)]
pub enum MedicError {
    /// Writing to the output sink failed, carried as display text; the
    /// report was not delivered.
    IoError(String),
    /// An error value handed back by a check, carried as display text.
    CheckError(String),
}

/// The display text of an error: its kind, then the carried detail.
pub open spec fn error_message(e: MedicError) -> Seq<char> {
    match e {
        MedicError::IoError(d) => "IO error: "@ + d@,
        MedicError::CheckError(d) => "Error from check: "@ + d@,
    }
}

impl MedicError {
    /// The display text of this error.
    pub fn message(&self) -> (r: String)
        ensures
            r@ == error_message(*self),
    {
        match self {
            MedicError::IoError(d) => {
                let mut s = String::from_str("IO error: ");
                s.append(d.as_str());
                s
            },
            MedicError::CheckError(d) => {
                let mut s = String::from_str("Error from check: ");
                s.append(d.as_str());
                s
            },
        }
    }
}

/// The outcomes belong to the checks: one per check, in the given order,
/// each under its check's name.
pub open spec fn outcomes_for(outs: Seq<OutcomeModel>, checks: Seq<Check>) -> bool {
    outs.len() == checks.len() && forall|i: int|
        0 <= i < outs.len() ==> outs[i].name == (#[trigger] checks[i]).spec_name()
}

/// Record what one check handed back as the outcome its table row will
/// show: a success as the severity and message it returned; a failure as
/// an automatic `Fatal` outcome carrying the error's display text.
pub fn outcome_of(name: &str, r: Result<(CheckResult, String), String>) -> (o: CheckOutcome)
    ensures
        o.name@ == name@,
        r matches Ok(v) ==> o.severity == v.0 && o.message@ == v.1@,
        r matches Err(e) ==> o.severity == CheckResult::Fatal && o.message@ == e@,
{
    match r {
        Ok((severity, message)) => CheckOutcome { severity, name: name.to_owned(), message },
        Err(err) => CheckOutcome {
            severity: CheckResult::Fatal,
            name: name.to_owned(),
            message: err,
        },
    }
}

/// Perform environment sanity check.
///
/// Runs the checks in the given order, invoking each callable exactly once.
/// A check's success is buffered as its outcome; a check's failure is
/// absorbed as a `Fatal` outcome carrying the error's display text.  The
/// aligned table of all outcomes is then written to `output`, and the worst
/// severity found is returned (which can be passed to [`summary`]).
///
/// Whatever the callables hand back, the sink gains exactly the table text
/// of the buffered outcomes, the severity returned is their maximum, and a
/// sink that accepts every write makes the run succeed.  Where a write is
/// refused, the sink holds exactly the lines fully written before the
/// refusal: nothing of or beyond the refused one.
pub fn medic<S: ReportSink>(output: &mut S, checks: &Vec<Check>) -> (r: Result<
    CheckResult,
    MedicError,
>)
    ensures
        final(output).is_color() == old(output).is_color(),
        final(output).accepts_all() == old(output).accepts_all(),
        old(output).accepts_all() ==> r is Ok,
        r is Err ==> r->Err_0 is IoError,
        r is Ok ==> exists|outs: Seq<OutcomeModel>|
            {
                &&& #[trigger] outcomes_for(outs, checks@)
                &&& final(output).content() == old(output).content() + report_text(
                    outs,
                    old(output).is_color(),
                )
                &&& r->Ok_0 == worst_severity(outs)
            },
        r is Err ==> exists|outs: Seq<OutcomeModel>, n: int|
            {
                &&& outcomes_for(outs, checks@)
                &&& 0 <= n <= outs.len()
                &&& final(output).content() == old(output).content()
                    + #[trigger] crate::report::report_prefix(outs, n, old(output).is_color())
            },
{
    let mut worst_issues_found = CheckResult::Okay;
    // Buffer the outcomes so that the columns can be sized before a single
    // row is written.
    let mut results: Vec<CheckOutcome> = Vec::new();
    let mut i: usize = 0;
    while i < checks.len()
        invariant
            i <= checks@.len(),
            outcomes_for(models(results@), checks@.take(i as int)),
            worst_issues_found == worst_severity(models(results@)),
        decreases checks@.len() - i,
    {
        let ghost prev = models(results@);
        let check: &Check = &checks[i];
        let name: &'static str = check.name;
        // A failing check is absorbed here: `outcome_of` records it as an
        // automatic Fatal outcome, which then dominates the running worst.
        let row = outcome_of(name, check.func.invoke());
        let result = row.severity;
        results.push(row);
        if result >= worst_issues_found {
            worst_issues_found = result;
        }
        proof {
            assert(models(results@).drop_last() =~= prev);
            assert(severity_rank(worst_severity(prev)) <= 4);
            assert(worst_issues_found == worst_severity(models(results@)));
            assert forall|j: int|
                0 <= j < i + 1 implies models(results@)[j].name == (#[trigger] checks@.take(
                i + 1,
            )[j]).spec_name() by {
                assert(models(results@)[j] == results@[j]@);
                if j < i {
                    assert(models(results@)[j] == prev[j]);
                    assert(checks@.take(i + 1)[j] == checks@.take(i as int)[j]);
                } else {
                    assert(checks@.take(i + 1)[j] == checks@[j]);
                    assert(results@[j]@.name == name@);
                }
            }
        }
        i = i + 1;
    }
    proof {
        assert(checks@.take(checks@.len() as int) =~= checks@);
    }
    match render_report(output, &results) {
        Err(e) => {
            proof {
                assert(outcomes_for(models(results@), checks@));
                let n = choose|n: int|
                    0 <= n <= models(results@).len() && output.content() == old(output).content()
                        + #[trigger] crate::report::report_prefix(
                        models(results@),
                        n,
                        old(output).is_color(),
                    );
                assert(output.content() == old(output).content()
                    + crate::report::report_prefix(models(results@), n, old(output).is_color()));
            }
            Err(e)
        },
        Ok(()) => {
            proof {
                assert(outcomes_for(models(results@), checks@));
            }
            Ok(worst_issues_found)
        },
    }
}

/// The advisory line owed for a worst severity: nothing below `Warning`, a
/// warning advisory up to `Error`, an error advisory from `Error` on
/// (`Fatal` gets the same wording).
pub open spec fn summary_text(worst: CheckResult, color: bool) -> Seq<char> {
    if severity_rank(worst) >= severity_rank(CheckResult::Error) {
        "\n"@ + (if color {
            red_seq()
        } else {
            Seq::<char>::empty()
        }) + "Error"@ + (if color {
            reset_seq()
        } else {
            Seq::<char>::empty()
        }) + ": Error(s) found, you should rectify these for proper operation\n"@
    } else if severity_rank(worst) >= severity_rank(CheckResult::Warning) {
        "\n"@ + (if color {
            yellow_seq()
        } else {
            Seq::<char>::empty()
        }) + "Warning"@ + (if color {
            reset_seq()
        } else {
            Seq::<char>::empty()
        }) + ": Warning(s) found, consider investigating (especially if you have issues)\n"@
    } else {
        Seq::empty()
    }
}

/// With no checks there is nothing to report: the table is the bare header
/// line, the worst severity is `Ok`, and no advisory line is owed.
pub proof fn lemma_empty_report(color: bool)
    ensures
        report_text(Seq::empty(), color) == header_text("RESULT"@.len(), "CHECK"@.len(), color),
        worst_severity(Seq::empty()) == CheckResult::Okay,
        summary_text(CheckResult::Okay, color) == Seq::<char>::empty(),
{
    assert(report_text(Seq::empty(), color) =~= header_text(
        "RESULT"@.len(),
        "CHECK"@.len(),
        color,
    ));
}

/// Print summary line at the end.
///
/// Writes nothing below `Warning`; otherwise exactly one advisory line,
/// colorized on a color-capable sink.  The call fails only where the sink
/// refuses that one write, and then the sink is unchanged; a sink that
/// accepts every write makes it succeed.
pub fn summary<S: ReportSink>(output: &mut S, worst_issues_found: CheckResult) -> (r: Result<
    (),
    MedicError,
>)
    ensures
        final(output).is_color() == old(output).is_color(),
        final(output).accepts_all() == old(output).accepts_all(),
        old(output).accepts_all() ==> r is Ok,
        r is Ok ==> final(output).content() == old(output).content() + summary_text(
            worst_issues_found,
            old(output).is_color(),
        ),
        r is Err ==> r->Err_0 is IoError && final(output).content() == old(output).content(),
        severity_rank(worst_issues_found) < severity_rank(CheckResult::Warning) ==> r is Ok
            && *final(output) == *old(output),
{
    let color = output.color_capable();
    if worst_issues_found >= CheckResult::Error {
        let mut line = String::from_str("\n");
        if color {
            let p = render_red();
            line.append(p.as_str());
        }
        line.append("Error");
        if color {
            let rst = render_reset();
            line.append(rst.as_str());
        }
        line.append(": Error(s) found, you should rectify these for proper operation\n");
        proof {
            assert(line@ =~= summary_text(worst_issues_found, color));
        }
        match output.write_str(line.as_str()) {
            Err(e) => Err(e),
            Ok(()) => Ok(()),
        }
    } else if worst_issues_found >= CheckResult::Warning {
        let mut line = String::from_str("\n");
        if color {
            let p = render_yellow();
            line.append(p.as_str());
        }
        line.append("Warning");
        if color {
            let rst = render_reset();
            line.append(rst.as_str());
        }
        line.append(": Warning(s) found, consider investigating (especially if you have issues)\n");
        proof {
            assert(line@ =~= summary_text(worst_issues_found, color));
        }
        match output.write_str(line.as_str()) {
            Err(e) => Err(e),
            Ok(()) => Ok(()),
        }
    } else {
        Ok(())
    }
}

} // verus!
