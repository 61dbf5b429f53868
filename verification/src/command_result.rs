//! What we get from the execution of a command.
use vstd::prelude::*;
use crate::command_output::CommandOutput;
use crate::report::{is_items_reversal, Report};

verus! {

/// An execution whose report can't be trusted
#[derive(Debug)]
pub struct Failure {
    pub error_code: i32,
    pub output: CommandOutput,
}

/// what we get from the execution of a command
#[derive(Debug)]
pub enum CommandResult {
    /// a trustable report with errors and warnings computed
    Report(Report),
    /// we don't have a proper report
    Failure(Failure),
    /// not yet computed
    NotComputed,
}

/// The result of an execution, from its output, exit code and report
pub open spec fn result_of(output: CommandOutput, exit_code: Option<i32>, report: Report) -> CommandResult {
    match exit_code {
        Some(c) if c != 0 && report.stats.errors + report.stats.test_fails == 0 => CommandResult::Failure(
            Failure { error_code: c, output },
        ),
        _ => CommandResult::Report(Report { output, ..report }),
    }
}

/// The result holds a report without error, warning or test failure
/// The number of lines of a result
pub open spec fn spec_lines_len(r: CommandResult) -> nat {
    match r {
        CommandResult::Report(report) => report.lines@.len(),
        CommandResult::Failure(failure) => failure.output.lines@.len(),
        CommandResult::NotComputed => 0,
    }
}

pub open spec fn spec_is_success(r: CommandResult) -> bool {
    match r {
        CommandResult::Report(report) => report.stats.errors + report.stats.warnings
            + report.stats.test_fails == 0,
        _ => false,
    }
}

/// A command which exited with a nonzero code never gives a successful
/// result: either its report shows errors or test failures, or the result
/// is a failure
pub proof fn lemma_nonzero_exit_not_success(output: CommandOutput, c: i32, report: Report)
    requires
        c != 0,
    ensures
        !spec_is_success(result_of(output, Some(c), report)),
{
}

impl CommandResult {
    /// The result of an execution, from its output, the code it exited
    /// with (if it exited with one), and the report built from its output.
    ///
    /// When the command exited with a nonzero code while the report shows
    /// no error and no test failure, the report can't be trusted and the
    /// result is a failure.
    pub fn new(output: CommandOutput, exit_code: Option<i32>, report: Report) -> (r: Self)
        ensures
            r == result_of(output, exit_code, report),
    {
        let mut report = report;
        if let Some(error_code) = exit_code {
            if error_code != 0 && report.stats.errors == 0 && report.stats.test_fails == 0 {
                return CommandResult::Failure(Failure { error_code, output });
            }
        }
        report.output = output;
        CommandResult::Report(report)
    }

    pub fn output(&self) -> (r: Option<&CommandOutput>)
        ensures
            r == match self {
                CommandResult::Report(report) => Some(&report.output),
                CommandResult::Failure(failure) => Some(&failure.output),
                CommandResult::NotComputed => None,
            },
    {
        match self {
            Self::Report(report) => Some(&report.output),
            Self::Failure(failure) => Some(&failure.output),
            Self::NotComputed => None,
        }
    }

    pub fn report(&self) -> (r: Option<&Report>)
        ensures
            r == match self {
                CommandResult::Report(report) => Some(report),
                _ => None,
            },
    {
        match self {
            Self::Report(report) => Some(report),
            _ => None,
        }
    }

    /// return true when the report has been computed and there's been no
    /// error, warning, or test failures
    pub fn is_success(&self) -> (r: bool)
        ensures
            r == spec_is_success(*self),
    {
        match self {
            Self::Report(report) => {
                report.stats.errors == 0 && report.stats.warnings == 0 && report.stats.test_fails
                    == 0
            },
            _ => false,
        }
    }

    pub fn reverse(&mut self)
        ensures
            match (*old(self), *final(self)) {
                (CommandResult::Report(a), CommandResult::Report(b)) => {
                    &&& is_items_reversal(a.lines@, b.lines@)
                    &&& b.stats == a.stats
                    &&& b.suggest_backtrace == a.suggest_backtrace
                    &&& b.output == a.output
                    &&& b.failure_keys == a.failure_keys
                    &&& b.has_passed_tests == a.has_passed_tests
                },
                (CommandResult::Failure(a), CommandResult::Failure(b)) => {
                    &&& b.error_code == a.error_code
                    &&& b.output@ == a.output@.reverse()
                },
                (CommandResult::NotComputed, CommandResult::NotComputed) => true,
                _ => false,
            },
            spec_lines_len(*final(self)) == spec_lines_len(*old(self)),
    {
        match self {
            Self::Report(report) => {
                report.reverse();
            },
            Self::Failure(failure) => {
                failure.output.reverse();
            },
            Self::NotComputed => {},
        }
    }

    pub fn lines_len(&self) -> (r: usize)
        ensures
            r == spec_lines_len(*self),
    {
        match self {
            Self::Report(report) => report.lines.len(),
            Self::Failure(failure) => failure.output.lines.len(),
            Self::NotComputed => 0,
        }
    }
}

} // verus!
