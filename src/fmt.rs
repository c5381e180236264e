//! The decisions taken while formatting a directory: the nightly formatter is run first,
//! and the stable one only when the nightly one ran and failed.

use vstd::prelude::*;

verus! {

/// Which formatter was run.
#[derive(Debug, Clone, Copy, PartialEq, Eq, Structural)]
pub enum FormatterAttempt {
    Nightly,
    Stable,
}

/// How a run of a formatter ended.
#[derive(Debug, Clone, Copy, PartialEq, Eq, Structural)]
pub enum FormatterOutcome {
    /// The formatter ran and succeeded.
    Succeeded,
    /// The formatter ran and failed.
    Failed,
    /// The formatter could not be started.
    NotStarted,
}

/// What to do after a run of a formatter.
#[derive(Debug, Clone, Copy, PartialEq, Eq, Structural)]
pub enum FormatDecision {
    /// The directory is formatted.
    Finish,
    /// Run the stable formatter.
    RunStable,
    /// Report the failure of the stable formatter, with what it wrote to its error output.
    ReportFailure,
    /// Report that the formatter could not be started.
    ReportNotStarted,
}

/// The decision that follows `outcome` of the run `attempt`.
pub open spec fn format_decision(attempt: FormatterAttempt, outcome: FormatterOutcome) -> FormatDecision {
    match (attempt, outcome) {
        (_, FormatterOutcome::Succeeded) => FormatDecision::Finish,
        (_, FormatterOutcome::NotStarted) => FormatDecision::ReportNotStarted,
        (FormatterAttempt::Nightly, FormatterOutcome::Failed) => FormatDecision::RunStable,
        (FormatterAttempt::Stable, FormatterOutcome::Failed) => FormatDecision::ReportFailure,
    }
}

/// Decides what follows a run of a formatter: a success finishes, a nightly failure calls
/// for the stable formatter, a stable failure is reported, and so is a formatter that
/// could not be started.
pub fn next_format_decision(attempt: FormatterAttempt, outcome: FormatterOutcome) -> (r:
    FormatDecision)
    ensures
        r == format_decision(attempt, outcome),
{
    match outcome {
        FormatterOutcome::Succeeded => FormatDecision::Finish,
        FormatterOutcome::NotStarted => FormatDecision::ReportNotStarted,
        FormatterOutcome::Failed => match attempt {
            FormatterAttempt::Nightly => FormatDecision::RunStable,
            FormatterAttempt::Stable => FormatDecision::ReportFailure,
        },
    }
}

} // verus!
