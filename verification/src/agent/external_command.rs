//! A hook that is a command: it gets the event on its input and answers on its output.

use crate::agent::hook::{HookOutcome, HookOutcomeView};
use crate::text;
use crate::text::{concat2, concat3, decimal};
use crate::time::Timeout;
use vstd::prelude::*;
use vstd::string::*;

verus! {

/// How many seconds a command may take, unless told otherwise.
pub const DEFAULT_TIMEOUT_SECS: u64 = 5;

/// A command that is called as a hook.
#[derive(Debug, PartialEq, Eq)]
pub struct ExternalCommandHook {
    program: String,
    args: Vec<String>,
    timeout: Timeout,
}

/// Model of a command.
#[verifier::ext_equal]
pub struct CommandView {
    pub program: Seq<char>,
    pub args: Seq<Seq<char>>,
    pub timeout: Timeout,
}

impl View for ExternalCommandHook {
    type V = CommandView;

    closed spec fn view(&self) -> CommandView {
        CommandView {
            program: self.program@,
            args: self.args.deep_view(),
            timeout: self.timeout,
        }
    }
}

/// What a command answers.
#[derive(Debug, PartialEq, Eq)]
pub enum WireOutcome {
    /// Go on.
    Continue,
    /// Do not run this tool.
    Deny {
        /// Why.
        reason: String,
    },
    /// Stop the run.
    Halt {
        /// Why.
        reason: String,
    },
}

/// How a call of the command ended.
#[derive(Debug, PartialEq, Eq)]
pub enum CommandEnd {
    /// The event could not be written out.
    SerializeFailed(String),
    /// The command could not be started.
    SpawnFailed(String),
    /// The command did not take its input.
    WriteFailed(String),
    /// The run was cancelled.
    Cancelled,
    /// The command took too long.
    TimedOut,
    /// Nothing is known of the command's end.
    WaitFailed(String),
    /// The command ended.
    Output {
        /// What it wrote.
        stdout: Vec<u8>,
        /// What that reads as.
        answer: Result<WireOutcome, String>,
    },
}

/// Whether a byte is ASCII white space.
pub open spec fn ascii_space(b: u8) -> bool {
    b == 0x20 || b == 0x09 || b == 0x0A || b == 0x0C || b == 0x0D
}

/// Whether there is nothing but ASCII white space.
pub open spec fn blank(bytes: Seq<u8>) -> bool {
    forall|i: int| 0 <= i < bytes.len() ==> ascii_space(#[trigger] bytes[i])
}

/// Whether there is nothing but ASCII white space.
pub fn is_blank(bytes: &Vec<u8>) -> (r: bool)
    ensures
        r == blank(bytes@),
{
    let mut i: usize = 0;
    while i < bytes.len()
        invariant
            i <= bytes@.len(),
            forall|j: int| 0 <= j < i ==> ascii_space(#[trigger] bytes@[j]),
        decreases bytes@.len() - i,
    {
        let b = bytes[i];
        if !(b == 0x20 || b == 0x09 || b == 0x0A || b == 0x0C || b == 0x0D) {
            assert(!ascii_space(bytes@[i as int]));
            return false;
        }
        i = i + 1;
    }
    true
}

/// What a call of the command means to the run: no output at all means to go on, and everything
/// that goes wrong halts the run.
pub open spec fn command_outcome(c: CommandView, end: CommandEnd) -> HookOutcomeView {
    match end {
        CommandEnd::SerializeFailed(e) => HookOutcomeView::Halt("hook ctx serialize failed: "@ + e@),
        CommandEnd::SpawnFailed(e) => HookOutcomeView::Halt("hook spawn failed: "@ + e@),
        CommandEnd::WriteFailed(e) => HookOutcomeView::Halt("hook stdin write failed: "@ + e@),
        CommandEnd::Cancelled => HookOutcomeView::Halt("hook cancelled"@),
        CommandEnd::TimedOut => HookOutcomeView::Halt(
            "hook timed out after "@ + text::decimal_text(c.timeout.as_millis_spec() as nat) + "ms"@,
        ),
        CommandEnd::WaitFailed(e) => HookOutcomeView::Halt("hook wait failed: "@ + e@),
        CommandEnd::Output { stdout, answer } => if blank(stdout@) {
            HookOutcomeView::Continue
        } else {
            match answer {
                Ok(WireOutcome::Continue) => HookOutcomeView::Continue,
                Ok(WireOutcome::Deny { reason }) => HookOutcomeView::Deny(reason@),
                Ok(WireOutcome::Halt { reason }) => HookOutcomeView::Halt(reason@),
                Err(e) => HookOutcomeView::Halt("hook output not JSON: "@ + e@),
            }
        },
    }
}

impl ExternalCommandHook {
    /// A command without arguments that may take as long as a command may.
    pub fn new(program: String) -> (r: Self)
        ensures
            r@ == (CommandView {
                program: program@,
                args: Seq::empty(),
                timeout: Timeout { secs: DEFAULT_TIMEOUT_SECS, nanos: 0 },
            }),
    {
        let args: Vec<String> = Vec::new();
        assert(args.deep_view() =~= Seq::empty());
        ExternalCommandHook { program, args, timeout: Timeout::from_secs(DEFAULT_TIMEOUT_SECS) }
    }

    /// Adds arguments.
    pub fn args(self, args: Vec<String>) -> (r: Self)
        ensures
            r@ == (CommandView { args: self@.args + args.deep_view(), ..self@ }),
    {
        let mut this = self;
        let ghost before = this.args.deep_view();
        let ghost added = args.deep_view();
        let mut args = args;
        this.args.append(&mut args);
        assert(this.args.deep_view() =~= before + added);
        this
    }

    /// Sets how long the command may take.
    pub fn timeout(self, timeout: Timeout) -> (r: Self)
        ensures
            r@ == (CommandView { timeout, ..self@ }),
    {
        let mut this = self;
        this.timeout = timeout;
        this
    }

    /// The program.
    pub fn program(&self) -> (r: &String)
        ensures
            r@ == self@.program,
    {
        &self.program
    }

    /// The arguments.
    pub fn arguments(&self) -> (r: &Vec<String>)
        ensures
            r.deep_view() == self@.args,
    {
        &self.args
    }

    /// How long the command may take.
    pub fn time_allowed(&self) -> (r: Timeout)
        ensures
            r == self@.timeout,
    {
        self.timeout
    }

    /// What a call of the command means to the run.
    pub fn outcome(&self, end: CommandEnd) -> (r: HookOutcome)
        ensures
            r@ == command_outcome(self@, end),
    {
        match end {
            CommandEnd::SerializeFailed(e) => HookOutcome::Halt(
                concat2("hook ctx serialize failed: ", e.as_str()),
            ),
            CommandEnd::SpawnFailed(e) => HookOutcome::Halt(
                concat2("hook spawn failed: ", e.as_str()),
            ),
            CommandEnd::WriteFailed(e) => HookOutcome::Halt(
                concat2("hook stdin write failed: ", e.as_str()),
            ),
            CommandEnd::Cancelled => HookOutcome::Halt("hook cancelled".to_owned()),
            CommandEnd::TimedOut => HookOutcome::Halt(
                concat3(
                    "hook timed out after ",
                    decimal(self.timeout.as_millis()).as_str(),
                    "ms",
                ),
            ),
            CommandEnd::WaitFailed(e) => HookOutcome::Halt(
                concat2("hook wait failed: ", e.as_str()),
            ),
            CommandEnd::Output { stdout, answer } => if is_blank(&stdout) {
                HookOutcome::Continue
            } else {
                match answer {
                    Ok(WireOutcome::Continue) => HookOutcome::Continue,
                    Ok(WireOutcome::Deny { reason }) => HookOutcome::Deny(reason),
                    Ok(WireOutcome::Halt { reason }) => HookOutcome::Halt(reason),
                    Err(e) => HookOutcome::Halt(concat2("hook output not JSON: ", e.as_str())),
                }
            },
        }
    }
}

} // verus!
