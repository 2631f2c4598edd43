//! The incremental code-accumulation engine.
//!
//! The `Runner` owns the buffer of accepted statement-lines. For each
//! execution attempt the surrounding program asks for a rendering of the
//! buffer with the candidate line staged at its end, hands the rendered
//! source to the external toolchain, and reports what happened back through
//! [`Runner::execute`]; on a compilation failure the staged line is rolled
//! back so the buffer returns to its last known-good state.

use vstd::prelude::*;
use vstd::string::*;

use crate::instrument::{adjustable, render_staged, spec_render, staged_lines};
use crate::text::{find_sub_at, scan_find_sub};

verus! {

/// The buffer of accepted statement-lines, in program order.
pub struct Runner {
    /// The historical program, one accepted statement-line per entry.
    pub code_lines: Vec<String>,
}

/// Why an execution attempt failed: the toolchain could not be driven, or
/// the rendered program did not compile (with the extracted diagnostic).
#[derive(Debug, PartialEq, Eq)]
pub enum RunnerError {
    Io(String),
    Compilation(String),
}

/// What the surrounding program observed from the toolchain for one rendered
/// program: the produced executable's captured output, the compiler's raw
/// error stream, or a failure to drive either subprocess at all.
#[derive(Debug, PartialEq, Eq)]
pub enum RunReport {
    Output(String),
    CompileFailed(String),
    IoFailed(String),
}

/// The marker after which the compiler's error stream is only a summary.
pub open spec fn abort_marker() -> Seq<char> {
    "\nerror: aborting"@
}

/// The compiler's error stream truncated at the fatal-abort marker: the text
/// before the marker's first occurrence, or all of it when absent.
pub open spec fn spec_extract_diagnostic(s: Seq<char>) -> Seq<char> {
    match find_sub_at(s, abort_marker(), 0) {
        Option::Some(i) => s.take(i),
        Option::None => s,
    }
}

/// Extracts the diagnostic to show from the compiler's error stream.
pub fn extract_diagnostic(stderr: &str) -> (r: String)
    ensures
        r@ == spec_extract_diagnostic(stderr@),
{
    match scan_find_sub(stderr, "\nerror: aborting", 0) {
        Option::Some(i) => {
            let head = stderr.substring_char(0, i);
            proof {
                assert(head@ =~= stderr@.take(i as int));
            }
            String::from_str(head)
        },
        Option::None => String::from_str(stderr),
    }
}

/// The buffer after an execution attempt: the staged line is kept unless
/// compilation failed, in which case the buffer is unchanged.
pub open spec fn lines_after_execute(
    lines: Seq<Seq<char>>,
    line: Seq<char>,
    report: RunReport,
) -> Seq<Seq<char>> {
    match report {
        RunReport::CompileFailed(_) => lines,
        _ => lines.push(line),
    }
}

impl Runner {
    /// The buffer as a sequence of lines of characters.
    pub open spec fn lines(&self) -> Seq<Seq<char>> {
        self.code_lines.deep_view()
    }

    /// A runner with an empty buffer.
    pub fn new() -> (r: Runner)
        ensures
            r.lines() =~= Seq::<Seq<char>>::empty(),
    {
        Runner { code_lines: Vec::new() }
    }

    /// How many statement-lines the buffer holds.
    pub fn loc(&self) -> (r: usize)
        ensures
            r == self.lines().len(),
    {
        self.code_lines.len()
    }

    /// Appends an accepted continuation line to the buffer without running
    /// anything.
    pub fn push_line(&mut self, line: String)
        ensures
            final(self).lines() =~= old(self).lines().push(line@),
    {
        self.code_lines.push(line);
    }

    /// Renders the buffer into one compilable program.
    pub fn render(&self) -> (r: String)
        requires
            self.lines().len() > 0,
            self.lines().len() < 0x40000000,
            adjustable(self.lines().last()),
        ensures
            r@ == spec_render(self.lines()),
    {
        let n = self.code_lines.len();
        let last = &self.code_lines[n - 1];
        proof {
            assert(last@ == self.lines()[n - 1]);
            assert(staged_lines(self.lines(), n - 1, last@) =~= self.lines());
        }
        render_staged(&self.code_lines, n - 1, last)
    }

    /// Renders the program for the buffer with `next_line` staged at its
    /// end: what an execution attempt for `next_line` will compile.
    pub fn render_with(&self, next_line: &String) -> (r: String)
        requires
            self.lines().len() < 0x40000000,
            adjustable(next_line@),
        ensures
            r@ == spec_render(self.lines().push(next_line@)),
    {
        let n = self.code_lines.len();
        proof {
            assert(staged_lines(self.lines(), n as int, next_line@) =~= self.lines().push(
                next_line@,
            ));
        }
        render_staged(&self.code_lines, n, next_line)
    }

    /// Applies the toolchain's report for the program rendered from the
    /// buffer with `next_line` staged at its end: the line joins the buffer
    /// and the captured output is returned, except that a compilation
    /// failure rolls the line back and returns the extracted diagnostic.
    pub fn execute(&mut self, next_line: String, report: RunReport) -> (r: Result<
        String,
        RunnerError,
    >)
        ensures
            final(self).lines() =~= lines_after_execute(old(self).lines(), next_line@, report),
            report matches RunReport::Output(out) ==> (r matches Ok(text) && text@ == out@),
            report matches RunReport::CompileFailed(stderr) ==> (r matches Err(
                RunnerError::Compilation(d),
            ) && d@ == spec_extract_diagnostic(stderr@)),
            report matches RunReport::IoFailed(msg) ==> (r matches Err(RunnerError::Io(m))
                && m@ == msg@),
    {
        let ghost lines0 = self.lines();
        self.code_lines.push(next_line);
        proof {
            assert(self.lines() =~= lines0.push(next_line@));
        }
        match report {
            RunReport::Output(out) => Ok(out),
            RunReport::IoFailed(msg) => Err(RunnerError::Io(msg)),
            RunReport::CompileFailed(stderr) => {
                self.code_lines.pop();
                proof {
                    assert(self.lines() =~= lines0);
                }
                let diagnostic = extract_diagnostic(stderr.as_str());
                Err(RunnerError::Compilation(diagnostic))
            },
        }
    }
}

impl RunnerError {
    /// The text the session shows for this failure.
    pub fn message(&self) -> (r: String)
        ensures
            self matches RunnerError::Io(m) ==> r@ == m@,
            self matches RunnerError::Compilation(m) ==> r@ == m@,
    {
        match self {
            RunnerError::Io(m) => m.clone(),
            RunnerError::Compilation(m) => m.clone(),
        }
    }
}

/// Rollback round-trip: whatever diagnostic a failed compilation carries,
/// an execution attempt that ends in a compilation failure leaves the
/// buffer exactly as it was before the attempt.
pub proof fn lemma_rollback_round_trip(lines: Seq<Seq<char>>, line: Seq<char>, report: RunReport)
    requires
        report is CompileFailed,
    ensures
        lines_after_execute(lines, line, report) == lines,
{
}

} // verus!
