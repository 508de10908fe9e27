//! What a snippet handler decides: a runner to dispatch, or a mismatch; and
//! what a runner's output becomes.

use vstd::prelude::*;

use crate::cmd::{environment_usable, opt_view, run_user_of, Command, CommandView, Environment};
use crate::text::{
    can_truncate, keeps_prefix, lemma_truncate_keeps_prefix, truncatable, truncate, truncate_spec,
};

verus! {

/// One of two values (the left one, by convention, the success).
pub enum Either<L, R> {
    Left(L),
    Right(R),
}

impl<L: View, R: View> View for Either<L, R> {
    type V = Either<L::V, R::V>;

    open spec fn view(&self) -> Either<L::V, R::V> {
        match self {
            Either::Left(l) => Either::Left(l@),
            Either::Right(r) => Either::Right(r@),
        }
    }
}

/// A type indicating to the executor how to proceed in case of mismatch.
///
/// This can be due to two reasons:
/// - The input matches the handler, but is invalid (ie. malformed syntax)
/// - The input does not match this handler, and the search should continue
pub enum Mismatch {
    /// Continue search
    Continue,
    /// You are doing this incorrectly.
    /// Executors should try to send a message with complaints
    WrongUsage(String),
}

/// The abstract value of a [`Mismatch`].
pub enum MismatchView {
    Continue,
    WrongUsage(Seq<char>),
}

impl View for Mismatch {
    type V = MismatchView;

    open spec fn view(&self) -> MismatchView {
        match self {
            Mismatch::Continue => MismatchView::Continue,
            Mismatch::WrongUsage(e) => MismatchView::WrongUsage(e@),
        }
    }
}

/// The output of a runner dispatch.
pub enum RunnerOutput {
    /// No meaningful output was generated
    NoOutput,
    /// Use this for stdout
    Output(String),
    /// If there were also some errors. First member of tuple is output, second error (stderr)
    WithError(String, String),
    /// stdout, the paths of files that should be attached to the response, and
    /// whether those files should be deleted once sent
    WithFiles(String, Vec<String>, bool),
    /// Should be only emitted by the executor in case of [`Mismatch::WrongUsage`]
    WrongUsage(String),
}

/// The abstract value of a [`RunnerOutput`].
pub enum OutputView {
    NoOutput,
    Output(Seq<char>),
    WithError(Seq<char>, Seq<char>),
    WithFiles(Seq<char>, Seq<Seq<char>>, bool),
    WrongUsage(Seq<char>),
}

impl View for RunnerOutput {
    type V = OutputView;

    open spec fn view(&self) -> OutputView {
        match self {
            RunnerOutput::NoOutput => OutputView::NoOutput,
            RunnerOutput::Output(o) => OutputView::Output(o@),
            RunnerOutput::WithError(o, e) => OutputView::WithError(o@, e@),
            RunnerOutput::WithFiles(o, f, d) => OutputView::WithFiles(o@, f.deep_view(), *d),
            RunnerOutput::WrongUsage(e) => OutputView::WrongUsage(e@),
        }
    }
}

/// How the output of a sandboxed program becomes a [`RunnerOutput`].
#[derive(PartialEq, Eq, Structural, Clone, Copy)]
pub enum Report {
    /// Standard output cut to [`OUTPUT_LIMIT`] bytes; on failure, with the
    /// standard error cut to [`ERROR_LIMIT`] bytes.
    Truncated,
    /// Standard output cut to [`OUTPUT_LIMIT`] bytes; on failure only the
    /// standard error, cut to [`ERROR_LIMIT`] bytes.
    ErrorsOnly,
    /// Standard output and standard error as they are.
    Whole,
}

/// Bytes of standard output kept in a reply.
pub const OUTPUT_LIMIT: usize = 1900;
/// Bytes of standard error kept in a reply.
pub const ERROR_LIMIT: usize = 1950;

/// Code to be written to a temporary file that is handed to the program,
/// and the extension that the program is told.
pub struct Source {
    pub content: String,
    pub extension: String,
}

/// A program to run in the sandbox of [`Command`].
pub struct Sandboxed {
    /// The program to run.
    pub program: String,
    /// Whether the limits come from the environment ([`Command::new`]) rather
    /// than being almost unlimited ([`Command::unlimited`]).
    pub restricted: bool,
    /// An argument for the program, if any.
    pub arg: Option<String>,
    /// Code to hand over in a file, if any.
    pub source: Option<Source>,
    /// How the output is reported.
    pub report: Report,
}

/// The work that a runner does once dispatched.
pub enum Job {
    /// Run a program in the sandbox.
    Sandboxed(Sandboxed),
    /// Send the text back.
    Echo(String),
    /// Download each video and recode it to h264.
    Recode(Vec<String>),
    /// Render a formula as an image.
    Latex(String),
    /// Draw the meme with the given text.
    Meme(String),
}

/// The abstract value of a [`Sandboxed`].
pub struct SandboxedView {
    pub program: Seq<char>,
    pub restricted: bool,
    pub arg: Option<Seq<char>>,
    pub source: Option<(Seq<char>, Seq<char>)>,
    pub report: Report,
}

/// The abstract value of a [`Job`].
pub enum JobView {
    Sandboxed(SandboxedView),
    Echo(Seq<char>),
    Recode(Seq<Seq<char>>),
    Latex(Seq<char>),
    Meme(Seq<char>),
}

impl View for Sandboxed {
    type V = SandboxedView;

    open spec fn view(&self) -> SandboxedView {
        SandboxedView {
            program: self.program@,
            restricted: self.restricted,
            arg: opt_view(self.arg),
            source: match self.source {
                Some(s) => Some((s.content@, s.extension@)),
                None => None,
            },
            report: self.report,
        }
    }
}

impl View for Job {
    type V = JobView;

    open spec fn view(&self) -> JobView {
        match self {
            Job::Sandboxed(s) => JobView::Sandboxed(s@),
            Job::Echo(t) => JobView::Echo(t@),
            Job::Recode(u) => JobView::Recode(u.deep_view()),
            Job::Latex(l) => JobView::Latex(l@),
            Job::Meme(t) => JobView::Meme(t@),
        }
    }
}

/// A Runner is dispatched for every successful match by a snippet handler.
pub struct Runner {
    /// Name of the service, this will be something like the programming language concerned
    pub service: String,
    /// Use this if you wanna make a distinction between different usages
    pub name: String,
    /// The work handed out once the runner is dispatched.
    pub job: Job,
}

/// The abstract value of a [`Runner`].
pub struct RunnerView {
    pub service: Seq<char>,
    pub name: Seq<char>,
    pub job: JobView,
}

impl View for Runner {
    type V = RunnerView;

    open spec fn view(&self) -> RunnerView {
        RunnerView { service: self.service@, name: self.name@, job: self.job@ }
    }
}

impl Runner {
    /// Create a new runner for a service, doing `job` once dispatched.
    pub fn new(service: &str, name: &str, job: Job) -> (r: Runner)
        ensures
            r@ == (RunnerView { service: service@, name: name@, job: job@ }),
    {
        Runner { service: service.to_owned(), name: name.to_owned(), job }
    }

    /// Dispatch the runner, handing out the work it was created with.
    pub fn dispatch(self) -> (job: Job)
        ensures
            job@ == self@.job,
    {
        self.job
    }
}

impl Sandboxed {
    /// What starting the program needs from the environment.
    pub open spec fn environment_ok(&self, env: Environment) -> bool {
        if self.restricted {
            environment_usable(env)
        } else {
            run_user_of(env) is Some
        }
    }

    /// The command that runs the program: restricted or almost unlimited,
    /// with its argument, if any.
    pub fn command(&self, env: &Environment) -> (c: Command)
        requires
            self.environment_ok(*env),
        ensures
            c@ == (CommandView {
                args: match self.arg {
                    Some(a) => seq![a@],
                    None => Seq::empty(),
                },
                ..(if self.restricted {
                    crate::cmd::restricted_view(self.program@, *env)
                } else {
                    crate::cmd::unlimited_view(self.program@, *env)
                })
            }),
    {
        let c = if self.restricted {
            Command::new(self.program.as_str(), env)
        } else {
            Command::unlimited(self.program.as_str(), env)
        };
        match &self.arg {
            Some(a) => c.arg(a.as_str()),
            None => c,
        }
    }
}

/// What the output of a sandboxed program becomes, reported the `report` way.
pub open spec fn report_spec(report: Report, success: bool, stdout: Seq<char>, stderr: Seq<char>) -> OutputView {
    match report {
        Report::Truncated => if success {
            OutputView::Output(truncate_spec(stdout, OUTPUT_LIMIT as int))
        } else {
            OutputView::WithError(
                truncate_spec(stdout, OUTPUT_LIMIT as int),
                truncate_spec(stderr, ERROR_LIMIT as int),
            )
        },
        Report::ErrorsOnly => if success {
            OutputView::Output(truncate_spec(stdout, OUTPUT_LIMIT as int))
        } else {
            OutputView::WithError(Seq::empty(), truncate_spec(stderr, ERROR_LIMIT as int))
        },
        Report::Whole => if success {
            OutputView::Output(stdout)
        } else {
            OutputView::WithError(stdout, stderr)
        },
    }
}

/// A successful run is reported as plain output, never with an error, in
/// every style: its standard output, whole with [`Report::Whole`], else
/// cut to [`OUTPUT_LIMIT`] bytes. What it printed on standard error plays
/// no part.
pub proof fn lemma_success_reports_output(
    report: Report,
    stdout: Seq<char>,
    stderr: Seq<char>,
    other_stderr: Seq<char>,
)
    requires
        report_cuttable(report, true, stdout, stderr),
    ensures
        report_spec(report, true, stdout, stderr) matches OutputView::Output(o) && (report
            == Report::Whole ==> o == stdout) && (report != Report::Whole ==> keeps_prefix(
            stdout,
            o,
            OUTPUT_LIMIT as int,
        )),
        report_spec(report, true, stdout, stderr) == report_spec(report, true, stdout, other_stderr),
{
    if report != Report::Whole {
        lemma_truncate_keeps_prefix(stdout, OUTPUT_LIMIT as int);
    }
}

/// A failed run is reported with its errors: standard error, whole with
/// [`Report::Whole`], else cut to [`ERROR_LIMIT`] bytes; alongside it the
/// standard output, whole with [`Report::Whole`], cut to [`OUTPUT_LIMIT`]
/// bytes with [`Report::Truncated`], and left out with [`Report::ErrorsOnly`].
pub proof fn lemma_failure_reports_errors(report: Report, stdout: Seq<char>, stderr: Seq<char>)
    requires
        report_cuttable(report, false, stdout, stderr),
    ensures
        report_spec(report, false, stdout, stderr) matches OutputView::WithError(o, e) && (report
            == Report::Whole ==> o == stdout && e == stderr) && (report == Report::Truncated
            ==> keeps_prefix(stdout, o, OUTPUT_LIMIT as int) && keeps_prefix(
            stderr,
            e,
            ERROR_LIMIT as int,
        )) && (report == Report::ErrorsOnly ==> o.len() == 0 && keeps_prefix(
            stderr,
            e,
            ERROR_LIMIT as int,
        )),
{
    if report != Report::Whole {
        lemma_truncate_keeps_prefix(stderr, ERROR_LIMIT as int);
    }
    if report == Report::Truncated {
        lemma_truncate_keeps_prefix(stdout, OUTPUT_LIMIT as int);
    }
}

/// Cutting the outputs where `report` cuts them does not split a character
/// (where it would, the program's output handling panics).
pub open spec fn report_cuttable(report: Report, success: bool, stdout: Seq<char>, stderr: Seq<char>) -> bool {
    match report {
        Report::Truncated => truncatable(stdout, OUTPUT_LIMIT as int) && (!success ==> truncatable(
            stderr,
            ERROR_LIMIT as int,
        )),
        Report::ErrorsOnly => if success {
            truncatable(stdout, OUTPUT_LIMIT as int)
        } else {
            truncatable(stderr, ERROR_LIMIT as int)
        },
        Report::Whole => true,
    }
}

/// Whether [`report_output`] can cut the outputs ([`report_cuttable`]).
pub fn report_can_cut(report: Report, success: bool, stdout: &str, stderr: &str) -> (r: bool)
    ensures
        r == report_cuttable(report, success, stdout@, stderr@),
{
    match report {
        Report::Truncated => can_truncate(stdout, OUTPUT_LIMIT) && (success || can_truncate(
            stderr,
            ERROR_LIMIT,
        )),
        Report::ErrorsOnly => if success {
            can_truncate(stdout, OUTPUT_LIMIT)
        } else {
            can_truncate(stderr, ERROR_LIMIT)
        },
        Report::Whole => true,
    }
}

/// Turns what a sandboxed program printed, and whether it succeeded, into
/// the output that is sent back.
pub fn report_output(report: Report, success: bool, stdout: String, stderr: String) -> (r: RunnerOutput)
    requires
        report_cuttable(report, success, stdout@, stderr@),
    ensures
        r@ == report_spec(report, success, stdout@, stderr@),
{
    let mut stdout = stdout;
    let mut stderr = stderr;
    match report {
        Report::Truncated => {
            truncate(&mut stdout, OUTPUT_LIMIT);
            if success {
                RunnerOutput::Output(stdout)
            } else {
                truncate(&mut stderr, ERROR_LIMIT);
                RunnerOutput::WithError(stdout, stderr)
            }
        },
        Report::ErrorsOnly => {
            if success {
                truncate(&mut stdout, OUTPUT_LIMIT);
                RunnerOutput::Output(stdout)
            } else {
                truncate(&mut stderr, ERROR_LIMIT);
                RunnerOutput::WithError(String::new(), stderr)
            }
        },
        Report::Whole => {
            if success {
                RunnerOutput::Output(stdout)
            } else {
                RunnerOutput::WithError(stdout, stderr)
            }
        },
    }
}

} // verus!
