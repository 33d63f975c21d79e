//! The process runner's decision logic: command splitting, the language
//! whitelist of the in-app snippet runner, the polling state machine that
//! enforces the wall-clock timeout, and the construction of the result
//! records.
//!
//! Spawning, polling and killing the child are the caller's side; it hands
//! in what it observed (the poll outcome, the clock) and receives every
//! decision and every record from verified code.

use vstd::prelude::*;

use crate::classify::{analyze_error_output, classify_spec};
use crate::store::opt_view;
use crate::text::{chars_to_string, lower_chars, lower_seq, str_to_chars};

verus! {

/// How long the runner sleeps between polls of the child, in milliseconds.
pub const POLL_INTERVAL_MS: u64 = 50;

/// The snippet runner's default timeout, in milliseconds.
pub const DEFAULT_RUN_TIMEOUT_MS: u64 = 10000;

/// What the in-app snippet runner reports.
pub struct RunResult {
    pub stdout: String,
    pub stderr: String,
    pub exit_code: Option<i32>,
    pub timed_out: bool,
}

/// Spec-level snippet-runner report.
pub ghost struct RunResultV {
    pub stdout: Seq<char>,
    pub stderr: Seq<char>,
    pub exit_code: Option<int>,
    pub timed_out: bool,
}

/// Spec view of an optional exit code.
pub open spec fn opt_i32_view(o: Option<i32>) -> Option<int> {
    match o {
        Some(c) => Some(c as int),
        None => None,
    }
}

impl View for RunResult {
    type V = RunResultV;

    open spec fn view(&self) -> RunResultV {
        RunResultV {
            stdout: self.stdout@,
            stderr: self.stderr@,
            exit_code: opt_i32_view(self.exit_code),
            timed_out: self.timed_out,
        }
    }
}

/// What one invocation of the capture runner reports.
pub struct ExecutionResult {
    pub command: String,
    pub working_dir: String,
    pub exit_code: Option<i32>,
    pub stdout: String,
    pub stderr: String,
    pub execution_time_ms: u64,
    pub timed_out: bool,
    pub error_summary: Option<String>,
}

/// Spec-level capture report.
pub ghost struct ExecutionResultV {
    pub command: Seq<char>,
    pub working_dir: Seq<char>,
    pub exit_code: Option<int>,
    pub stdout: Seq<char>,
    pub stderr: Seq<char>,
    pub execution_time_ms: int,
    pub timed_out: bool,
    pub error_summary: Option<Seq<char>>,
}

impl View for ExecutionResult {
    type V = ExecutionResultV;

    open spec fn view(&self) -> ExecutionResultV {
        ExecutionResultV {
            command: self.command@,
            working_dir: self.working_dir@,
            exit_code: opt_i32_view(self.exit_code),
            stdout: self.stdout@,
            stderr: self.stderr@,
            execution_time_ms: self.execution_time_ms as int,
            timed_out: self.timed_out,
            error_summary: opt_view(self.error_summary),
        }
    }
}

/// How a watched child ended: with a reported code (or none, when the
/// operating system reports a signal death), or killed at the deadline.
pub enum RunOutcome {
    Completed(Option<i32>),
    TimedOut,
}

/// Spec-level outcome.
pub ghost enum OutcomeV {
    Completed(Option<int>),
    TimedOut,
}

impl View for RunOutcome {
    type V = OutcomeV;

    open spec fn view(&self) -> OutcomeV {
        match self {
            RunOutcome::Completed(c) => OutcomeV::Completed(opt_i32_view(*c)),
            RunOutcome::TimedOut => OutcomeV::TimedOut,
        }
    }
}

/// What one poll of the child showed.
pub enum ChildPoll {
    Exited(Option<i32>),
    Running,
}

/// Spec-level poll observation.
pub ghost enum ChildPollV {
    Exited(Option<int>),
    Running,
}

impl View for ChildPoll {
    type V = ChildPollV;

    open spec fn view(&self) -> ChildPollV {
        match self {
            ChildPoll::Exited(c) => ChildPollV::Exited(opt_i32_view(*c)),
            ChildPoll::Running => ChildPollV::Running,
        }
    }
}

/// What the wait loop does next.
pub enum PollStep {
    /// The child ended; collect output and finish with this outcome.
    Finish(Option<i32>),
    /// The deadline passed; kill the child, reap it, and report a timeout.
    Kill,
    /// Sleep one poll interval and look again.
    Wait,
}

/// Spec-level next step.
pub ghost enum PollStepV {
    Finish(Option<int>),
    Kill,
    Wait,
}

impl View for PollStep {
    type V = PollStepV;

    open spec fn view(&self) -> PollStepV {
        match self {
            PollStep::Finish(c) => PollStepV::Finish(opt_i32_view(*c)),
            PollStep::Kill => PollStepV::Kill,
            PollStep::Wait => PollStepV::Wait,
        }
    }
}

/// The wait loop's rule: finish when the child ended, kill once the
/// elapsed wall clock reaches the timeout, wait otherwise.
pub open spec fn poll_step_spec(elapsed_ms: int, timeout_ms: int, poll: ChildPollV) -> PollStepV {
    match poll {
        ChildPollV::Exited(c) => PollStepV::Finish(c),
        ChildPollV::Running => if elapsed_ms >= timeout_ms {
            PollStepV::Kill
        } else {
            PollStepV::Wait
        },
    }
}

/// Decides the wait loop's next step from the clock and one poll.
pub fn poll_decision(elapsed_ms: u64, timeout_ms: u64, poll: &ChildPoll) -> (d: PollStep)
    ensures
        d@ == poll_step_spec(elapsed_ms as int, timeout_ms as int, poll@),
{
    match poll {
        ChildPoll::Exited(c) => PollStep::Finish(
            match c {
                Some(x) => Some(*x),
                None => None,
            },
        ),
        ChildPoll::Running => {
            if elapsed_ms >= timeout_ms {
                PollStep::Kill
            } else {
                PollStep::Wait
            }
        },
    }
}

/// Timeout monotonicity, at the rule level: the loop never waits at or
/// past the deadline — a child still running then is killed, so the
/// reported timeout can overshoot the deadline by at most one poll
/// interval plus the kill itself.
pub proof fn lemma_timeout_monotonic(elapsed_ms: int, timeout_ms: int, poll: ChildPollV)
    ensures
        poll_step_spec(elapsed_ms, timeout_ms, poll) == PollStepV::Wait ==> elapsed_ms
            < timeout_ms,
        elapsed_ms >= timeout_ms && poll == ChildPollV::Running ==> poll_step_spec(
            elapsed_ms,
            timeout_ms,
            poll,
        ) == PollStepV::Kill,
{
}

/// The snippet report for the given outcome: the exit code is kept on
/// completion and absent exactly on a timeout.
pub open spec fn run_result_spec(stdout: Seq<char>, stderr: Seq<char>, outcome: OutcomeV)
    -> RunResultV {
    RunResultV {
        stdout: stdout,
        stderr: stderr,
        exit_code: match outcome {
            OutcomeV::Completed(c) => c,
            OutcomeV::TimedOut => None,
        },
        timed_out: outcome is TimedOut,
    }
}

/// Builds the snippet report from captured output and the outcome.
pub fn build_run_result(stdout: String, stderr: String, outcome: &RunOutcome) -> (r: RunResult)
    ensures
        r@ == run_result_spec(stdout@, stderr@, outcome@),
{
    RunResult {
        stdout,
        stderr,
        exit_code: match outcome {
            RunOutcome::Completed(c) => match c {
                Some(x) => Some(*x),
                None => None,
            },
            RunOutcome::TimedOut => None,
        },
        timed_out: match outcome {
            RunOutcome::Completed(_) => false,
            RunOutcome::TimedOut => true,
        },
    }
}

/// The exit code a capture report carries for an outcome.
pub open spec fn outcome_code(outcome: OutcomeV) -> Option<int> {
    match outcome {
        OutcomeV::Completed(c) => c,
        OutcomeV::TimedOut => None,
    }
}

/// A diagnosis is owed when the exit code is anything but a clean zero,
/// or stderr carried output.
pub open spec fn summary_due(outcome: OutcomeV, stderr: Seq<char>) -> bool {
    (match outcome_code(outcome) {
        Some(c) => c != 0,
        None => true,
    }) || stderr.len() > 0
}

/// The capture report for one invocation: output and clock kept, the exit
/// code absent exactly on a timeout, and the diagnosis present exactly
/// when one is due.
pub open spec fn execution_result_spec(
    command: Seq<char>,
    working_dir: Seq<char>,
    outcome: OutcomeV,
    stdout: Seq<char>,
    stderr: Seq<char>,
    execution_time_ms: int,
) -> ExecutionResultV {
    ExecutionResultV {
        command: command,
        working_dir: working_dir,
        exit_code: outcome_code(outcome),
        stdout: stdout,
        stderr: stderr,
        execution_time_ms: execution_time_ms,
        timed_out: outcome is TimedOut,
        error_summary: if summary_due(outcome, stderr) {
            Some(classify_spec(stderr, outcome_code(outcome)))
        } else {
            None
        },
    }
}

/// Builds the capture report from everything one invocation observed.
pub fn build_execution_result(
    command: String,
    working_dir: String,
    outcome: &RunOutcome,
    stdout: String,
    stderr: String,
    execution_time_ms: u64,
) -> (r: ExecutionResult)
    ensures
        r@ == execution_result_spec(
            command@,
            working_dir@,
            outcome@,
            stdout@,
            stderr@,
            execution_time_ms as int,
        ),
{
    let exit_code: Option<i32> = match outcome {
        RunOutcome::Completed(c) => match c {
            Some(x) => Some(*x),
            None => None,
        },
        RunOutcome::TimedOut => None,
    };
    let nonzero = match exit_code {
        Some(c) => c != 0,
        None => true,
    };
    let error_summary = if nonzero || !stderr.as_str().is_empty() {
        Some(analyze_error_output(stderr.as_str(), stdout.as_str(), exit_code))
    } else {
        None
    };
    ExecutionResult {
        command,
        working_dir,
        exit_code,
        stdout,
        stderr,
        execution_time_ms,
        timed_out: match outcome {
            RunOutcome::Completed(_) => false,
            RunOutcome::TimedOut => true,
        },
        error_summary,
    }
}

/// A capture report is well formed when the exit code is absent exactly
/// on a timeout and the diagnosis is present exactly when one is due.
pub open spec fn execution_result_wf(r: ExecutionResultV) -> bool {
    &&& (r.exit_code is None <==> r.timed_out)
    &&& (r.error_summary is Some <==> ((match r.exit_code {
        Some(c) => c != 0,
        None => true,
    }) || r.stderr.len() > 0))
}

/// Every built capture report is well formed, as long as the operating
/// system reported a code for a completed child; a child that died to a
/// signal completes without a code, and only there does the report carry
/// no code without a timeout.
pub proof fn lemma_execution_result_wf(
    command: Seq<char>,
    working_dir: Seq<char>,
    outcome: OutcomeV,
    stdout: Seq<char>,
    stderr: Seq<char>,
    execution_time_ms: int,
)
    requires
        outcome is Completed ==> outcome_code(outcome) is Some,
    ensures
        execution_result_wf(
            execution_result_spec(
                command,
                working_dir,
                outcome,
                stdout,
                stderr,
                execution_time_ms,
            ),
        ),
{
}

/// The object shape a capture report takes when serialized, fields in
/// declaration order, absent options as `null`.
pub open spec fn execution_result_json(r: ExecutionResultV) -> crate::json::ObjVal {
    seq![
        ("command"@, crate::json::ScalarVal::Str(r.command)),
        ("working_dir"@, crate::json::ScalarVal::Str(r.working_dir)),
        (
            "exit_code"@,
            match r.exit_code {
                Some(c) => crate::json::ScalarVal::Int(c),
                None => crate::json::ScalarVal::Null,
            },
        ),
        ("stdout"@, crate::json::ScalarVal::Str(r.stdout)),
        ("stderr"@, crate::json::ScalarVal::Str(r.stderr)),
        ("execution_time_ms"@, crate::json::ScalarVal::Int(r.execution_time_ms)),
        ("timed_out"@, crate::json::ScalarVal::Bool(r.timed_out)),
        (
            "error_summary"@,
            match r.error_summary {
                Some(s) => crate::json::ScalarVal::Str(s),
                None => crate::json::ScalarVal::Null,
            },
        ),
    ]
}

/// Renders a capture report as the object it takes when serialized.
pub fn execution_result_to_json(r: &ExecutionResult) -> (o: crate::json::JsonObject)
    requires
        r.execution_time_ms <= i64::MAX as u64,
    ensures
        o@ == execution_result_json(r@),
{
    let mut fields: Vec<(String, crate::json::JsonScalar)> = Vec::new();
    fields.push((String::from_str("command"), crate::json::JsonScalar::Str(r.command.clone())));
    fields.push(
        (String::from_str("working_dir"), crate::json::JsonScalar::Str(r.working_dir.clone())),
    );
    fields.push(
        (
            String::from_str("exit_code"),
            match r.exit_code {
                Some(c) => crate::json::JsonScalar::Int(c as i64),
                None => crate::json::JsonScalar::Null,
            },
        ),
    );
    fields.push((String::from_str("stdout"), crate::json::JsonScalar::Str(r.stdout.clone())));
    fields.push((String::from_str("stderr"), crate::json::JsonScalar::Str(r.stderr.clone())));
    fields.push(
        (
            String::from_str("execution_time_ms"),
            crate::json::JsonScalar::Int(r.execution_time_ms as i64),
        ),
    );
    fields.push((String::from_str("timed_out"), crate::json::JsonScalar::Bool(r.timed_out)));
    fields.push(
        (
            String::from_str("error_summary"),
            match &r.error_summary {
                Some(s) => crate::json::JsonScalar::Str(s.clone()),
                None => crate::json::JsonScalar::Null,
            },
        ),
    );
    let o = crate::json::JsonObject { fields };
    assert(o@ =~= execution_result_json(r@));
    o
}

// ---------------------------------------------------------------------------
// Command splitting.
// ---------------------------------------------------------------------------
/// A blank that separates command words.
pub open spec fn is_wsp(c: char) -> bool {
    c == ' ' || c == '\t' || c == '\n' || c == '\r'
}

/// Splits the longest run of non-blank characters from the rest.
pub open spec fn take_word(s: Seq<char>) -> (Seq<char>, Seq<char>)
    decreases s.len(),
{
    if s.len() == 0 || is_wsp(s[0]) {
        (Seq::empty(), s)
    } else {
        let (w, r) = take_word(s.skip(1));
        (seq![s[0]] + w, r)
    }
}

/// The blank-separated words of a command line, in order.
pub open spec fn split_ws(s: Seq<char>) -> Seq<Seq<char>>
    decreases s.len(),
{
    if s.len() == 0 {
        Seq::empty()
    } else if is_wsp(s[0]) {
        split_ws(s.skip(1))
    } else {
        let (w, r) = take_word(s);
        if r.len() < s.len() {
            seq![w] + split_ws(r)
        } else {
            Seq::empty()
        }
    }
}

/// Splits a command line into words on blanks; no quoting, no shell.
pub fn split_command(command: &str) -> (r: Vec<String>)
    ensures
        r@.map_values(|s: String| s@) == split_ws(command@),
{
    let cs = str_to_chars(command);
    let n = cs.len();
    let mut words: Vec<String> = Vec::new();
    let mut i: usize = 0;
    proof {
        assert(cs@.skip(0) =~= command@);
        assert(words@.map_values(|s: String| s@) + split_ws(command@) =~= split_ws(command@));
    }
    while i < n
        invariant
            n == cs@.len(),
            cs@ == command@,
            i <= n,
            split_ws(command@) == words@.map_values(|s: String| s@) + split_ws(
                cs@.skip(i as int),
            ),
        decreases n - i,
    {
        let c = cs[i];
        assert(cs@.skip(i as int)[0] == c);
        if c == ' ' || c == '\t' || c == '\n' || c == '\r' {
            proof {
                assert(cs@.skip(i as int).skip(1) =~= cs@.skip(i + 1));
            }
            i = i + 1;
        } else {
            let start = i;
            let mut w: Vec<char> = Vec::new();
            while i < n && !(cs[i] == ' ' || cs[i] == '\t' || cs[i] == '\n' || cs[i] == '\r')
                invariant
                    n == cs@.len(),
                    start <= i <= n,
                    w@ == cs@.subrange(start as int, i as int),
                    forall|k: int| start <= k < i ==> !is_wsp(#[trigger] cs@[k]),
                decreases n - i,
            {
                w.push(cs[i]);
                assert(w@ =~= cs@.subrange(start as int, i + 1));
                i = i + 1;
            }
            proof {
                lemma_take_word_run(cs@, start as int, i as int);
                assert(take_word(cs@.skip(start as int)) == (
                    cs@.subrange(start as int, i as int),
                    cs@.skip(i as int),
                ));
                assert(cs@.skip(i as int).len() < cs@.skip(start as int).len());
            }
            let ghost before = words@.map_values(|s: String| s@);
            words.push(chars_to_string(&w));
            proof {
                assert(words@.map_values(|s: String| s@) =~= before.push(w@));
                assert(split_ws(cs@.skip(start as int)) == seq![w@] + split_ws(cs@.skip(i as int)));
                assert(before + (seq![w@] + split_ws(cs@.skip(i as int))) =~= before.push(w@)
                    + split_ws(cs@.skip(i as int)));
            }
        }
    }
    proof {
        assert(cs@.skip(n as int).len() == 0);
        assert(words@.map_values(|s: String| s@) + Seq::<Seq<char>>::empty() =~= words@.map_values(
            |s: String| s@,
        ));
    }
    words
}

/// A maximal run of non-blanks is exactly what `take_word` splits off.
proof fn lemma_take_word_run(s: Seq<char>, start: int, end: int)
    requires
        0 <= start <= end <= s.len(),
        forall|k: int| start <= k < end ==> !is_wsp(#[trigger] s[k]),
        end == s.len() || is_wsp(s[end]),
    ensures
        take_word(s.skip(start)) == (s.subrange(start, end), s.skip(end)),
    decreases end - start,
{
    if start == end {
        if start == s.len() {
            assert(s.skip(start).len() == 0);
        } else {
            assert(s.skip(start)[0] == s[start]);
            assert(is_wsp(s[start]));
        }
        assert(s.subrange(start, end) =~= Seq::<char>::empty());
        assert(take_word(s.skip(start)) == (Seq::<char>::empty(), s.skip(start)));
    } else {
        assert(s.skip(start)[0] == s[start]);
        assert(!is_wsp(s[start]));
        assert(s.skip(start).skip(1) =~= s.skip(start + 1));
        lemma_take_word_run(s, start + 1, end);
        assert(seq![s[start]] + s.subrange(start + 1, end) =~= s.subrange(start, end));
        assert(take_word(s.skip(start)) == (s.subrange(start, end), s.skip(end)));
    }
}

/// Splits a command line for the capture runner: an all-blank or empty
/// command is refused exactly as the runner refuses it.
pub fn parse_command(command: &str) -> (r: Result<Vec<String>, String>)
    ensures
        match r {
            Ok(parts) => split_ws(command@).len() > 0 && parts@.map_values(|s: String| s@)
                == split_ws(command@),
            Err(e) => split_ws(command@).len() == 0 && e@ == "Empty command"@,
        },
{
    let parts = split_command(command);
    if parts.len() == 0 {
        Err(String::from_str("Empty command"))
    } else {
        Ok(parts)
    }
}

// ---------------------------------------------------------------------------
// The snippet runner's language whitelist.
// ---------------------------------------------------------------------------
/// The languages the snippet runner accepts, after lower-casing.
pub open spec fn supported_language_spec(lang: Seq<char>) -> bool {
    let l = lower_seq(lang);
    l == "bash"@ || l == "sh"@ || l == "zsh"@ || l == "python"@ || l == "node"@ || l
        == "javascript"@
}

/// The script suffix the snippet runner writes for a language.
pub open spec fn script_suffix_spec(lang: Seq<char>) -> Seq<char> {
    let l = lower_seq(lang);
    if l == "python"@ {
        ".py"@
    } else if l == "node"@ || l == "javascript"@ {
        ".js"@
    } else if l == "bash"@ || l == "sh"@ || l == "zsh"@ {
        ".sh"@
    } else {
        ".txt"@
    }
}

/// The program the snippet runner starts for a language.
pub open spec fn interpreter_spec(lang: Seq<char>) -> Seq<char> {
    let l = lower_seq(lang);
    if l == "python"@ {
        "python3"@
    } else if l == "node"@ || l == "javascript"@ {
        "node"@
    } else {
        "sh"@
    }
}

/// Compares a lowered character vector with a literal.
fn lc_eq(low: &Vec<char>, lit: &str) -> (r: bool)
    ensures
        r == (low@ == lit@),
{
    let lv = str_to_chars(lit);
    let n = low.len();
    if n != lv.len() {
        return false;
    }
    let mut i: usize = 0;
    while i < n
        invariant
            n == low@.len(),
            n == lv@.len(),
            lv@ == lit@,
            i <= n,
            forall|k: int| 0 <= k < i ==> low@[k] == lv@[k],
        decreases n - i,
    {
        if low[i] != lv[i] {
            return false;
        }
        i = i + 1;
    }
    assert(low@ =~= lit@);
    true
}

/// What the snippet runner needs to start one run.
pub struct RunPlan {
    /// The program to start.
    pub interpreter: String,
    /// The suffix of the temporary script file.
    pub suffix: String,
    /// The wall-clock bound, in milliseconds.
    pub timeout_ms: u64,
}

/// Validates a snippet run: an unsupported language is refused with the
/// exact error; otherwise the interpreter, script suffix and timeout
/// (defaulted when absent) are fixed.
pub fn plan_run_code(language: &String, timeout_ms: Option<u64>) -> (r: Result<RunPlan, String>)
    ensures
        match r {
            Ok(plan) => supported_language_spec(language@) && plan.interpreter@
                == interpreter_spec(language@) && plan.suffix@ == script_suffix_spec(language@)
                && plan.timeout_ms as int == (match timeout_ms {
                Some(t) => t as int,
                None => DEFAULT_RUN_TIMEOUT_MS as int,
            }),
            Err(e) => !supported_language_spec(language@) && e@ == "Unsupported language: "@
                + language@,
        },
{
    let low = lower_chars(&str_to_chars(language.as_str()));
    let is_python = lc_eq(&low, "python");
    let is_node = lc_eq(&low, "node");
    let is_js = lc_eq(&low, "javascript");
    let is_bash = lc_eq(&low, "bash");
    let is_sh = lc_eq(&low, "sh");
    let is_zsh = lc_eq(&low, "zsh");
    if !(is_python || is_node || is_js || is_bash || is_sh || is_zsh) {
        let mut msg: Vec<char> = Vec::new();
        let prefix = str_to_chars("Unsupported language: ");
        let mut k: usize = 0;
        while k < prefix.len()
            invariant
                k <= prefix@.len(),
                msg@ == prefix@.subrange(0, k as int),
            decreases prefix@.len() - k,
        {
            msg.push(prefix[k]);
            assert(msg@ =~= prefix@.subrange(0, k + 1));
            k = k + 1;
        }
        assert(prefix@.subrange(0, prefix@.len() as int) =~= prefix@);
        let lc = str_to_chars(language.as_str());
        let mut k2: usize = 0;
        let ghost base = msg@;
        while k2 < lc.len()
            invariant
                k2 <= lc@.len(),
                msg@ == base + lc@.subrange(0, k2 as int),
            decreases lc@.len() - k2,
        {
            msg.push(lc[k2]);
            assert(msg@ =~= base + lc@.subrange(0, k2 + 1));
            k2 = k2 + 1;
        }
        assert(lc@.subrange(0, lc@.len() as int) =~= lc@);
        assert(msg@ =~= "Unsupported language: "@ + language@);
        return Err(chars_to_string(&msg));
    }
    let interpreter = if is_python {
        String::from_str("python3")
    } else if is_node || is_js {
        String::from_str("node")
    } else {
        String::from_str("sh")
    };
    let suffix = if is_python {
        String::from_str(".py")
    } else if is_node || is_js {
        String::from_str(".js")
    } else {
        String::from_str(".sh")
    };
    let t = match timeout_ms {
        Some(t) => t,
        None => DEFAULT_RUN_TIMEOUT_MS,
    };
    Ok(RunPlan { interpreter, suffix, timeout_ms: t })
}

} // verus!
