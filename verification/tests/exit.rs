//! Exit codes and the state of a run.

use rimage::exit::{ExitCode, RunState};

#[test]
fn values_are_the_documented_contract() {
    assert_eq!(ExitCode::Success.as_u8(), 0);
    assert_eq!(ExitCode::Usage.as_u8(), 2);
    assert_eq!(ExitCode::Input.as_u8(), 3);
    assert_eq!(ExitCode::Output.as_u8(), 4);
    assert_eq!(ExitCode::Partial.as_u8(), 5);
}

#[test]
fn nothing_recorded_is_success() {
    assert_eq!(RunState::start().exit_code(), ExitCode::Success);
}

#[test]
fn all_files_succeeding_is_success() {
    let state = RunState::start()
        .record(ExitCode::Success)
        .record(ExitCode::Success);

    assert_eq!(state.exit_code(), ExitCode::Success);
}

#[test]
fn every_file_failing_on_input_is_an_input_error() {
    let state = RunState::start()
        .record(ExitCode::Input)
        .record(ExitCode::Input);

    assert_eq!(state.exit_code(), ExitCode::Input);
}

#[test]
fn every_file_failing_on_output_is_an_output_error() {
    let state = RunState::start()
        .record(ExitCode::Output)
        .record(ExitCode::Output);

    assert_eq!(state.exit_code(), ExitCode::Output);
}

#[test]
fn a_success_anywhere_makes_a_failure_partial() {
    // This is the case the type exists for: the user's files were modified,
    // so a wrapper must not retry the run as if it had been a no-op.
    for failure in [ExitCode::Input, ExitCode::Output] {
        for order in [
            [ExitCode::Success, failure, ExitCode::Success],
            [failure, ExitCode::Success, ExitCode::Success],
            [ExitCode::Success, ExitCode::Success, failure],
        ] {
            let state = order.iter().fold(RunState::start(), |state, code| {
                state.record(*code)
            });

            assert_eq!(
                state.exit_code(),
                ExitCode::Partial,
                "success + {failure:?} in {order:?} must be partial"
            );
        }
    }
}

#[test]
fn failures_on_both_sides_are_partial() {
    let state = RunState::start()
        .record(ExitCode::Input)
        .record(ExitCode::Output);

    assert_eq!(state.exit_code(), ExitCode::Partial);

    let reversed = RunState::start()
        .record(ExitCode::Output)
        .record(ExitCode::Input);

    assert_eq!(reversed.exit_code(), ExitCode::Partial);
    assert_eq!(state, reversed);
}

#[test]
fn a_fatal_code_survives_later_per_file_results() {
    let state = RunState::start()
        .record(ExitCode::Usage)
        .record(ExitCode::Success)
        .record(ExitCode::Input);

    assert_eq!(state.exit_code(), ExitCode::Usage);
}

#[test]
fn no_per_file_outcome_may_produce_usage_or_partial() {
    // `Partial` and `Usage` are whole-run verdicts. If a record call ever
    // produced them from a per-file code, the distinction would collapse.
    for code in [ExitCode::Success, ExitCode::Input, ExitCode::Output] {
        let state = RunState::start().record(code);
        assert!(
            !matches!(state, RunState::Mixed | RunState::Fatal(_)),
            "recording a single {code:?} must not decide the whole run"
        );
    }
}

#[test]
fn merge_is_commutative() {
    let states = [
        RunState::Idle,
        RunState::Succeeded,
        RunState::InputFailed,
        RunState::OutputFailed,
        RunState::Mixed,
        RunState::Fatal(ExitCode::Usage),
    ];

    for left in states {
        for right in states {
            assert_eq!(
                left.merge(right),
                right.merge(left),
                "{left:?} merged with {right:?} must not depend on order"
            );
        }
    }
}

#[test]
fn merge_is_associative() {
    let states = [
        RunState::Idle,
        RunState::Succeeded,
        RunState::InputFailed,
        RunState::OutputFailed,
        RunState::Mixed,
        RunState::Fatal(ExitCode::Usage),
    ];

    for a in states {
        for b in states {
            for c in states {
                assert_eq!(
                    a.merge(b).merge(c),
                    a.merge(b.merge(c)),
                    "{a:?}, {b:?}, {c:?} must merge associatively"
                );
            }
        }
    }
}

#[test]
fn folding_is_independent_of_order_for_every_permutation() {
    let files = [
        ExitCode::Success,
        ExitCode::Input,
        ExitCode::Output,
        ExitCode::Success,
    ];

    let expected = files
        .iter()
        .fold(RunState::start(), |state, code| state.record(*code));

    assert_eq!(expected.exit_code(), ExitCode::Partial);

    // Every rotation of the same multiset must agree, which is what lets a
    // parallel CLI fold partial results in completion order.
    for rotation in 0..files.len() {
        let state = files
            .iter()
            .cycle()
            .skip(rotation)
            .take(files.len())
            .fold(RunState::start(), |state, code| state.record(*code));

        assert_eq!(state, expected, "rotation {rotation} disagreed");
    }
}

#[test]
fn display_names_the_class_and_the_number() {
    assert_eq!(ExitCode::Input.display(), "input error (exit 3)");
    assert_eq!(ExitCode::Partial.display(), "partial success (exit 5)");
}

#[test]
fn every_code_is_displayed() {
    assert_eq!(ExitCode::Success.display(), "success (exit 0)");
    assert_eq!(ExitCode::Usage.display(), "usage error (exit 2)");
    assert_eq!(ExitCode::Output.display(), "output error (exit 4)");
}

#[test]
fn merging_with_itself_and_with_nothing_changes_nothing() {
    for state in [
        RunState::Idle,
        RunState::Succeeded,
        RunState::InputFailed,
        RunState::OutputFailed,
        RunState::Mixed,
        RunState::Fatal(ExitCode::Output),
    ] {
        assert_eq!(state.merge(state), state);
        assert_eq!(state.merge(RunState::Idle), state);
        assert_eq!(RunState::default().merge(state), state);
    }
}

#[test]
fn two_verdicts_leave_the_one_with_the_larger_number() {
    let codes = [
        ExitCode::Success,
        ExitCode::Partial,
        ExitCode::Usage,
        ExitCode::Input,
        ExitCode::Output,
    ];
    for left in codes {
        for right in codes {
            let merged = RunState::Fatal(left).merge(RunState::Fatal(right));
            assert_eq!(merged, RunState::Fatal(right).merge(RunState::Fatal(left)));
            assert_eq!(merged.exit_code().as_u8(), left.as_u8().max(right.as_u8()));
        }
    }
    assert_eq!(
        RunState::Fatal(ExitCode::Usage).merge(RunState::Fatal(ExitCode::Output)),
        RunState::Fatal(ExitCode::Output)
    );
}
