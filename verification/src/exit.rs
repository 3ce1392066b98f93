//! What the program prints and returns as it ends.

use vstd::prelude::*;

use crate::args::DAEMON_HELP;

verus! {

/// The exit code of a run that went well.
pub const SUCCESS: u8 = 0;

/// The exit code of a run that failed.
pub const FAILURE: u8 = 1;

/// The exit code of a command line that makes no sense.
pub const USAGE: u8 = 2;

/// How the program ends: the lines that it prints as errors, and its exit code.
#[derive(Debug)]
pub struct ExitReport {
    pub errors: Vec<String>,
    pub code: u8,
}

/// The texts of the lines.
pub open spec fn line_texts(lines: Seq<String>) -> Seq<Seq<char>> {
    lines.map_values(|line: String| line@)
}

/// How the program ends where it serves in one way, given what serving came to.
pub fn single_mode_exit(outcome: Result<(), String>) -> (report: ExitReport)
    ensures
        match outcome {
            Ok(_) => report.errors@.len() == 0 && report.code == SUCCESS,
            Err(error) => line_texts(report.errors@) == seq![error@] && report.code == FAILURE,
        },
{
    let mut errors: Vec<String> = Vec::new();
    match outcome {
        Ok(_) => ExitReport { errors, code: SUCCESS },
        Err(error) => {
            errors.push(error);
            assert(line_texts(errors@) =~= seq![error@]);
            ExitReport { errors, code: FAILURE }
        },
    }
}

/// What a task that serves came to.
#[derive(Debug)]
pub enum TaskOutcome {
    /// It ended without error.
    Finished,
    /// It ended with an error.
    Failed(String),
    /// It was lost: it panicked or was cancelled.
    Lost(String),
}

/// The lines that the two tasks cause to be printed.
pub open spec fn both_mode_errors(stdio: TaskOutcome, http: TaskOutcome) -> Seq<Seq<char>> {
    let stdio_errors = match stdio {
        TaskOutcome::Lost(error) => seq!["Stdio server error: "@ + error@],
        _ => Seq::empty(),
    };
    let http_errors = match http {
        TaskOutcome::Finished => Seq::empty(),
        TaskOutcome::Failed(error) => seq!["HTTP server error: "@ + error@],
        TaskOutcome::Lost(error) => seq!["HTTP server join error: "@ + error@],
    };
    stdio_errors + http_errors
}

/// How the program ends where it serves in both ways. The exit code is that of the
/// HTTP servers; of the other task only its loss is printed.
pub fn both_mode_exit(stdio: TaskOutcome, http: TaskOutcome) -> (report: ExitReport)
    ensures
        line_texts(report.errors@) == both_mode_errors(stdio, http),
        report.code == if http is Finished {
            SUCCESS
        } else {
            FAILURE
        },
{
    let mut errors: Vec<String> = Vec::new();
    if let TaskOutcome::Lost(error) = &stdio {
        let mut line = "Stdio server error: ".to_owned();
        line.append(error.as_str());
        errors.push(line);
    }
    let code = match &http {
        TaskOutcome::Finished => SUCCESS,
        TaskOutcome::Failed(error) => {
            let mut line = "HTTP server error: ".to_owned();
            line.append(error.as_str());
            errors.push(line);
            FAILURE
        },
        TaskOutcome::Lost(error) => {
            let mut line = "HTTP server join error: ".to_owned();
            line.append(error.as_str());
            errors.push(line);
            FAILURE
        },
    };
    assert(line_texts(errors@) =~= both_mode_errors(stdio, http));
    ExitReport { errors, code }
}

/// How the program ends where the command line was refused with `message`: the
/// message, an empty line and the help text.
pub fn usage_exit(message: String) -> (report: ExitReport)
    ensures
        line_texts(report.errors@) == seq![message@, Seq::empty(), DAEMON_HELP@],
        report.code == USAGE,
{
    let mut errors: Vec<String> = Vec::new();
    errors.push(message);
    errors.push(String::new());
    errors.push(DAEMON_HELP.to_owned());
    assert(line_texts(errors@) =~= seq![message@, Seq::empty(), DAEMON_HELP@]);
    ExitReport { errors, code: USAGE }
}

/// The exit codes.
pub proof fn law_exit_codes()
    ensures
        SUCCESS == 0,
        FAILURE == 1,
        USAGE == 2,
{
}

/// Lines are printed one by one.
pub proof fn law_lines_are_printed_one_by_one(lines: Seq<String>, i: int)
    requires
        0 <= i < lines.len(),
    ensures
        line_texts(lines).len() == lines.len(),
        line_texts(lines)[i] == lines[i]@,
{
}

/// Of two tasks, the loss of the first is printed first, and then what the second came to,
/// unless that ended without error. An error of the first that did not lose it is not printed.
pub proof fn law_both_tasks_are_reported(stdio: TaskOutcome, http: TaskOutcome)
    ensures
        ({
            let lines = both_mode_errors(stdio, http);
            let lost: int = if stdio is Lost {
                1
            } else {
                0
            };
            let failed: int = if http is Finished {
                0
            } else {
                1
            };
            &&& lines.len() == lost + failed
            &&& stdio matches TaskOutcome::Lost(error) ==> lines[0] == "Stdio server error: "@
                + error@
            &&& http matches TaskOutcome::Failed(error) ==> lines[lost] == "HTTP server error: "@
                + error@
            &&& http matches TaskOutcome::Lost(error) ==> lines[lost]
                == "HTTP server join error: "@ + error@
        }),
{
}

} // verus!
