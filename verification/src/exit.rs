//! Process exit codes.
//!
//! The failure modes of a run are distinct enough that a caller (a build
//! script, a CI job, a shell wrapper) benefits from telling them apart without
//! parsing stderr. The codes below are the contract that makes that possible.
//!
//! `0` is success and each category of failure has a small non-zero number.
//! `1` carries no meaning of its own: it is the generic "something failed"
//! code that countless tools already emit.

use vstd::prelude::*;

use crate::text::decimal_text;

verus! {

/// How the process ended.
#[derive(Debug, Clone, Copy, PartialEq, Eq, Structural)]
pub enum ExitCode {
    /// Every input was processed.
    Success,
    /// The command line, configuration, or output layout was unusable.
    Usage,
    /// Reading or decoding at least one input failed, and nothing was written.
    Input,
    /// Encoding or writing at least one output failed, and nothing was written.
    Output,
    /// Some files were written, others failed.
    Partial,
}

impl ExitCode {
    /// The documented number of each code.
    pub open spec fn number(self) -> u8 {
        match self {
            ExitCode::Success => 0,
            ExitCode::Usage => 2,
            ExitCode::Input => 3,
            ExitCode::Output => 4,
            ExitCode::Partial => 5,
        }
    }

    /// What a reader of the terminal is told about the code.
    pub open spec fn description(self) -> Seq<char> {
        match self {
            ExitCode::Success => "success"@,
            ExitCode::Usage => "usage error"@,
            ExitCode::Input => "input error"@,
            ExitCode::Output => "output error"@,
            ExitCode::Partial => "partial success"@,
        }
    }

    /// Whether one file can end this way. The other codes judge a whole run.
    pub open spec fn is_per_file(self) -> bool {
        self is Success || self is Input || self is Output
    }

    /// The numeric value a shell will observe.
    pub fn as_u8(self) -> (value: u8)
        ensures
            value == self.number(),
    {
        match self {
            ExitCode::Success => 0,
            ExitCode::Usage => 2,
            ExitCode::Input => 3,
            ExitCode::Output => 4,
            ExitCode::Partial => 5,
        }
    }

    /// The class and the number, as printed: `input error (exit 3)`.
    pub fn display(self) -> (text: String)
        ensures
            text@ == self.description() + " (exit "@ + crate::text::decimal(self.number() as nat)
                + ")"@,
    {
        let description = match self {
            ExitCode::Success => "success",
            ExitCode::Usage => "usage error",
            ExitCode::Input => "input error",
            ExitCode::Output => "output error",
            ExitCode::Partial => "partial success",
        };
        let mut text = description.to_owned();
        text.append(" (exit ");
        text.append(decimal_text(self.as_u8() as u128).as_str());
        text.append(")");
        text
    }
}

/// The running verdict for a multi-file run.
///
/// It is kept separate from [`ExitCode`] because a run has to remember that
/// some file succeeded at some point, and because a run that has looked at no
/// file yet is a state of its own.
///
/// The states are not totally ordered: [`RunState::InputFailed`] and
/// [`RunState::OutputFailed`] are incomparable, and joining them is a partial
/// run.
#[derive(Debug, Clone, Copy, PartialEq, Eq, Structural)]
pub enum RunState {
    /// No file has been recorded yet.
    Idle,
    /// Every file recorded so far was written, and at least one was.
    Succeeded,
    /// At least one input failed; no output has been written.
    InputFailed,
    /// At least one output failed; nothing was written successfully.
    OutputFailed,
    /// A success and a failure, or a failure on each side: a partial run.
    Mixed,
    /// A verdict decided outside the per-file loop, which passes through.
    Fatal(ExitCode),
}

impl Default for RunState {
    fn default() -> (state: Self)
        ensures
            state == RunState::Idle,
    {
        RunState::Idle
    }
}

/// The state of a run that consists of one file with this outcome.
pub open spec fn file_state(file: ExitCode) -> RunState {
    match file {
        ExitCode::Success => RunState::Succeeded,
        ExitCode::Input => RunState::InputFailed,
        ExitCode::Output => RunState::OutputFailed,
        _ => RunState::Fatal(file),
    }
}

/// The more severe of two codes: the one with the larger number.
pub open spec fn severer(a: ExitCode, b: ExitCode) -> ExitCode {
    if a.number() >= b.number() {
        a
    } else {
        b
    }
}

/// The join of two states: `Idle` is the identity, a fatal verdict outranks
/// per-file detail (the more severe one where both are fatal), equal states
/// stay as they are, and any two different states make a mixed run.
pub open spec fn joined(a: RunState, b: RunState) -> RunState {
    if a is Idle {
        b
    } else if b is Idle {
        a
    } else if a is Fatal && b is Fatal {
        RunState::Fatal(severer(a->0, b->0))
    } else if a is Fatal {
        a
    } else if b is Fatal {
        b
    } else if a == b {
        a
    } else {
        RunState::Mixed
    }
}

/// The state after recording `files` in order, starting from `start`.
pub open spec fn recorded(start: RunState, files: Seq<ExitCode>) -> RunState
    decreases files.len(),
{
    if files.len() == 0 {
        start
    } else {
        joined(recorded(start, files.drop_last()), file_state(files.last()))
    }
}

impl RunState {
    /// The code each state reports.
    pub open spec fn code(self) -> ExitCode {
        match self {
            RunState::Idle | RunState::Succeeded => ExitCode::Success,
            RunState::InputFailed => ExitCode::Input,
            RunState::OutputFailed => ExitCode::Output,
            RunState::Mixed => ExitCode::Partial,
            RunState::Fatal(code) => code,
        }
    }

    /// The state of a run that has not looked at any file yet.
    pub fn start() -> (state: Self)
        ensures
            state == RunState::Idle,
    {
        RunState::Idle
    }

    /// Record the outcome of one file.
    ///
    /// A whole-run code keeps the run's own verdict visible: it becomes fatal.
    pub fn record(self, file: ExitCode) -> (state: Self)
        ensures
            state == joined(self, file_state(file)),
    {
        let next = match file {
            ExitCode::Success => RunState::Succeeded,
            ExitCode::Input => RunState::InputFailed,
            ExitCode::Output => RunState::OutputFailed,
            other => RunState::Fatal(other),
        };
        self.merge(next)
    }

    /// Join this state with another. The sides can be swapped and regrouped, so
    /// results may be folded in any order.
    pub fn merge(self, next: RunState) -> (state: Self)
        ensures
            state == joined(self, next),
    {
        match (self, next) {
            (RunState::Idle, other) => other,
            (other, RunState::Idle) => other,
            (RunState::Fatal(one), RunState::Fatal(other)) => {
                if one.as_u8() >= other.as_u8() {
                    RunState::Fatal(one)
                } else {
                    RunState::Fatal(other)
                }
            },
            (RunState::Fatal(code), _) => RunState::Fatal(code),
            (_, RunState::Fatal(code)) => RunState::Fatal(code),
            (RunState::Succeeded, RunState::Succeeded) => RunState::Succeeded,
            (RunState::InputFailed, RunState::InputFailed) => RunState::InputFailed,
            (RunState::OutputFailed, RunState::OutputFailed) => RunState::OutputFailed,
            _ => RunState::Mixed,
        }
    }

    /// The exit code this state reports.
    pub fn exit_code(self) -> (code: ExitCode)
        ensures
            code == self.code(),
    {
        match self {
            RunState::Idle => ExitCode::Success,
            RunState::Succeeded => ExitCode::Success,
            RunState::InputFailed => ExitCode::Input,
            RunState::OutputFailed => ExitCode::Output,
            RunState::Mixed => ExitCode::Partial,
            RunState::Fatal(code) => code,
        }
    }
}

/// The numbers tell the codes apart, and none of them is the generic `1`.
pub proof fn law_numbers_are_distinct(a: ExitCode, b: ExitCode)
    ensures
        a.number() == b.number() ==> a == b,
        a.number() != 1,
        a.number() == 0 <==> a == ExitCode::Success,
{
}

/// `Idle` changes nothing, on either side.
pub proof fn law_idle_is_the_identity(a: RunState)
    ensures
        joined(RunState::Idle, a) == a,
        joined(a, RunState::Idle) == a,
{
}

/// The join does not depend on the order of its sides.
pub proof fn law_merge_is_commutative(a: RunState, b: RunState)
    ensures
        joined(a, b) == joined(b, a),
{
    if a is Fatal && b is Fatal {
        law_numbers_are_distinct(a->0, b->0);
    }
}

/// The join does not depend on how its operands are grouped.
pub proof fn law_merge_is_associative(a: RunState, b: RunState, c: RunState)
    ensures
        joined(joined(a, b), c) == joined(a, joined(b, c)),
{
}

/// Joining a state with itself changes nothing.
pub proof fn law_merge_is_idempotent(a: RunState)
    ensures
        joined(a, a) == a,
{
}

/// One file never decides the whole run.
pub proof fn law_a_single_file_does_not_decide_the_run(file: ExitCode)
    requires
        file.is_per_file(),
    ensures
        !(recorded(RunState::Idle, seq![file]) is Mixed),
        !(recorded(RunState::Idle, seq![file]) is Fatal),
        recorded(RunState::Idle, seq![file]).code() == file,
{
    assert(seq![file].drop_last() =~= Seq::<ExitCode>::empty());
    assert(recorded(RunState::Idle, Seq::<ExitCode>::empty()) == RunState::Idle);
}

/// A fatal verdict survives every later per-file result; a whole-run code can
/// only make it more severe.
pub proof fn law_a_fatal_verdict_survives(code: ExitCode, files: Seq<ExitCode>)
    ensures
        recorded(RunState::Fatal(code), files) matches RunState::Fatal(last) && last.number()
            >= code.number(),
        (forall|i: int| 0 <= i < files.len() ==> (#[trigger] files[i]).is_per_file())
            ==> recorded(RunState::Fatal(code), files) == RunState::Fatal(code),
    decreases files.len(),
{
    if files.len() > 0 {
        law_a_fatal_verdict_survives(code, files.drop_last());
        if forall|i: int| 0 <= i < files.len() ==> (#[trigger] files[i]).is_per_file() {
            assert forall|i: int| 0 <= i < files.len() - 1 implies (
            #[trigger] files.drop_last()[i]).is_per_file() by {
                assert(files[i].is_per_file());
            }
            assert(files[files.len() - 1].is_per_file());
        }
    }
}

/// What a run's state is, said of the set of outcomes that it recorded.
pub open spec fn verdict(files: Seq<ExitCode>) -> RunState {
    let wrote = files.contains(ExitCode::Success);
    let input = files.contains(ExitCode::Input);
    let output = files.contains(ExitCode::Output);
    if files.contains(ExitCode::Partial) {
        RunState::Fatal(ExitCode::Partial)
    } else if files.contains(ExitCode::Usage) {
        RunState::Fatal(ExitCode::Usage)
    } else if wrote && !input && !output {
        RunState::Succeeded
    } else if input && !wrote && !output {
        RunState::InputFailed
    } else if output && !wrote && !input {
        RunState::OutputFailed
    } else if wrote || input || output {
        RunState::Mixed
    } else {
        RunState::Idle
    }
}

/// The state of a run is decided by which outcomes occurred in it, not by
/// their order or number.
pub proof fn law_a_run_is_judged_by_the_outcomes_in_it(files: Seq<ExitCode>)
    ensures
        recorded(RunState::Idle, files) == verdict(files),
    decreases files.len(),
{
    if files.len() > 0 {
        let before = files.drop_last();
        let last = files.last();
        assert(files =~= before.push(last));
        assert forall|code: ExitCode| files.contains(code) == (before.contains(code) || code == last) by {
            if before.contains(code) {
                let i = choose|i: int| 0 <= i < before.len() && before[i] == code;
                assert(files[i] == code);
            }
            if code == last {
                assert(files[files.len() - 1] == code);
            }
            if files.contains(code) && code != last {
                let i = choose|i: int| 0 <= i < files.len() && files[i] == code;
                assert(before[i] == code);
            }
        }
        law_a_run_is_judged_by_the_outcomes_in_it(before);
    }
}

/// Folding the same outcomes in any order gives the same state, so results may
/// be recorded in completion order.
pub proof fn law_folding_is_independent_of_order(a: Seq<ExitCode>, b: Seq<ExitCode>)
    requires
        a.to_multiset() == b.to_multiset(),
    ensures
        recorded(RunState::Idle, a) == recorded(RunState::Idle, b),
{
    broadcast use vstd::seq_lib::group_to_multiset_ensures;

    assert forall|code: ExitCode| a.contains(code) == b.contains(code) by {
        assert(a.contains(code) <==> a.to_multiset().count(code) > 0);
        assert(b.contains(code) <==> b.to_multiset().count(code) > 0);
    }
    law_a_run_is_judged_by_the_outcomes_in_it(a);
    law_a_run_is_judged_by_the_outcomes_in_it(b);
}

/// A run in which a file was written and another failed is partial, wherever
/// in the run either happened.
pub proof fn law_a_success_anywhere_makes_a_failure_partial(files: Seq<ExitCode>)
    requires
        forall|i: int| 0 <= i < files.len() ==> (#[trigger] files[i]).is_per_file(),
        files.contains(ExitCode::Success),
        files.contains(ExitCode::Input) || files.contains(ExitCode::Output),
    ensures
        recorded(RunState::Idle, files).code() == ExitCode::Partial,
{
    law_a_run_is_judged_by_the_outcomes_in_it(files);
}

/// The code reported for a run of per-file outcomes: success where nothing
/// failed, the failing side where nothing was written and one side failed
/// alone, partial otherwise.
pub proof fn law_the_code_of_a_run(files: Seq<ExitCode>)
    requires
        forall|i: int| 0 <= i < files.len() ==> (#[trigger] files[i]).is_per_file(),
    ensures
        ({
            let wrote = files.contains(ExitCode::Success);
            let input = files.contains(ExitCode::Input);
            let output = files.contains(ExitCode::Output);
            let code = recorded(RunState::Idle, files).code();
            &&& code == ExitCode::Success <==> !input && !output
            &&& code == ExitCode::Input <==> input && !output && !wrote
            &&& code == ExitCode::Output <==> output && !input && !wrote
            &&& code == ExitCode::Partial <==> (wrote && (input || output)) || (input && output)
        }),
{
    law_a_run_is_judged_by_the_outcomes_in_it(files);
}

/// The numbers that a shell sees: 0 for success, 2 for a usage error, 3 for a failed
/// input, 4 for a failed output, and 5 where only a part of the files went through.
/// More files never lower the number, unless a fatal verdict replaces it.
pub proof fn law_a_shell_sees_these_numbers(code: ExitCode, a: RunState, b: RunState)
    ensures
        code is Success <==> code.number() == 0,
        code is Usage <==> code.number() == 2,
        code is Input <==> code.number() == 3,
        code is Output <==> code.number() == 4,
        code is Partial <==> code.number() == 5,
        joined(a, b) is Fatal || joined(a, b).code().number() >= a.code().number(),
        a is Fatal && b is Fatal ==> joined(a, b).code().number() >= a.code().number(),
{
}

} // verus!
