use porcelain::config::ConfigError;
use porcelain::invoke::{refusal, step, termination, Event, Phase, Termination, FAILURE_UNKNOWN};

fn run(events: Vec<Event>) -> Phase {
    let mut phase = Phase::Idle;
    for event in events {
        phase = step(phase, event);
    }
    phase
}

#[test]
fn sentinel_is_minus_one() {
    assert_eq!(FAILURE_UNKNOWN, -1);
}

#[test]
fn invocation_proceeds_phase_by_phase() {
    assert_eq!(step(Phase::Idle, Event::Start), Phase::Spawning);
    assert_eq!(step(Phase::Spawning, Event::Spawned), Phase::Running);
    assert_eq!(step(Phase::Running, Event::Ended(Some(0))), Phase::Exited(0));
    assert_eq!(step(Phase::Running, Event::Ended(None)), Phase::ExitUnknown);
    assert_eq!(
        step(Phase::Spawning, Event::Failed(String::from("No such file or directory"))),
        Phase::LaunchFailed(String::from("No such file or directory"))
    );
    assert_eq!(
        step(Phase::Running, Event::Failed(String::from("interrupted"))),
        Phase::LaunchFailed(String::from("interrupted"))
    );
}

#[test]
fn unexpected_events_change_nothing() {
    assert_eq!(step(Phase::Idle, Event::Spawned), Phase::Idle);
    assert_eq!(step(Phase::Idle, Event::Ended(Some(3))), Phase::Idle);
    assert_eq!(step(Phase::Idle, Event::Failed(String::from("x"))), Phase::Idle);
    assert_eq!(step(Phase::Spawning, Event::Start), Phase::Spawning);
    assert_eq!(step(Phase::Spawning, Event::Ended(Some(3))), Phase::Spawning);
    assert_eq!(step(Phase::Running, Event::Start), Phase::Running);
    assert_eq!(step(Phase::Running, Event::Spawned), Phase::Running);
}

#[test]
fn final_phases_stay() {
    let finals = vec![
        Phase::Exited(7),
        Phase::LaunchFailed(String::from("denied")),
        Phase::ExitUnknown,
    ];
    for phase in finals {
        assert_eq!(step(phase.clone(), Event::Start), phase);
        assert_eq!(step(phase.clone(), Event::Spawned), phase);
        assert_eq!(step(phase.clone(), Event::Failed(String::from("late"))), phase);
        assert_eq!(step(phase.clone(), Event::Ended(Some(1))), phase);
        assert_eq!(step(phase.clone(), Event::Ended(None)), phase);
    }
}

#[test]
fn exit_code_is_kept() {
    for code in [0, 1, 2, 42, 127, 255] {
        let phase = run(vec![Event::Start, Event::Spawned, Event::Ended(Some(code))]);
        assert_eq!(phase, Phase::Exited(code));
        assert_eq!(termination(&phase), Some(Termination { code, diagnostic: None }));
    }
}

#[test]
fn launch_failure_gives_the_sentinel() {
    let text = "No such file or directory (os error 2)";
    let phase = run(vec![Event::Start, Event::Failed(String::from(text))]);
    let end = termination(&phase).unwrap();
    assert_eq!(end.code, -1);
    assert_eq!(
        end.diagnostic,
        Some(String::from("Error: No such file or directory (os error 2)"))
    );
    assert!(end.diagnostic.unwrap().contains(text));
}

#[test]
fn missing_exit_code_gives_the_sentinel() {
    let phase = run(vec![Event::Start, Event::Spawned, Event::Ended(None)]);
    assert_eq!(phase, Phase::ExitUnknown);
    assert_eq!(
        termination(&phase),
        Some(Termination {
            code: -1,
            diagnostic: Some(String::from("Error: Missing ExitStatus")),
        })
    );
}

#[test]
fn no_termination_before_the_end() {
    assert_eq!(termination(&Phase::Idle), None);
    assert_eq!(termination(&Phase::Spawning), None);
    assert_eq!(termination(&Phase::Running), None);
}

#[test]
fn refusal_names_the_field() {
    assert_eq!(
        refusal(ConfigError::Executable),
        Termination {
            code: -1,
            diagnostic: Some(String::from(
                "Error: malformed configuration: `executable` must be a string"
            )),
        }
    );
    assert_eq!(
        refusal(ConfigError::ArgMap(2)).diagnostic,
        Some(String::from(
            "Error: malformed configuration: `map` of an element of `args` must be a string"
        ))
    );
}
