use tendon::analysis::ensure::{
    ensure_analysis, Action, Event, Heard, Listener, Stage, FIRST_LINE_SECONDS,
};
use tendon::analysis::error::AnalysisError;

fn cause(error: AnalysisError) -> String {
    match error {
        AnalysisError::Other { cause } => cause,
        other => panic!("{:?}", other),
    }
}

fn returned(next: Option<(Stage, Action)>) -> Result<(), AnalysisError> {
    match next {
        Some((Stage::Finished, Action::Return(result))) => result,
        other => panic!("{:?}", other),
    }
}

/// The result that is returned after the server was killed.
fn killed(next: Option<(Stage, Action)>) -> Result<(), AnalysisError> {
    match next {
        Some((stage, Action::Kill)) => returned(ensure_analysis(stage, Event::Killed)),
        other => panic!("{:?}", other),
    }
}

#[test]
fn success_takes_five_events() {
    let next = ensure_analysis(Stage::Checking, Event::CheckExited { success: true });
    assert!(matches!(next, Some((Stage::Launching, Action::Launch))));
    let next = ensure_analysis(Stage::Launching, Event::Launched { stdout: true });
    assert!(matches!(next, Some((Stage::AwaitingFirstLine, Action::AwaitFirstLine))));
    let next = ensure_analysis(Stage::AwaitingFirstLine, Event::FirstLine);
    assert!(matches!(next, Some((Stage::AwaitingResult, Action::AwaitResult))));
    let next = ensure_analysis(Stage::AwaitingResult, Event::Listened(Ok(())));
    assert!(killed(next).is_ok());
}

#[test]
fn failures_stop() {
    let failed = ensure_analysis(Stage::Checking, Event::CheckExited { success: false });
    assert!(matches!(returned(failed), Err(AnalysisError::CargoCheckFailed)));
    let failed = ensure_analysis(Stage::Checking, Event::CheckFailed("no cargo".to_string()));
    assert!(matches!(returned(failed), Err(AnalysisError::Io(m)) if m == "no cargo"));
    let failed = ensure_analysis(Stage::Launching, Event::LaunchFailed("no rls".to_string()));
    assert!(matches!(returned(failed), Err(AnalysisError::Io(m)) if m == "no rls"));
    let failed = ensure_analysis(Stage::Launching, Event::Launched { stdout: false });
    assert_eq!(cause(killed(failed).unwrap_err()), "can't get rls stdout");
    let failed = ensure_analysis(Stage::AwaitingFirstLine, Event::ListenerGone);
    assert_eq!(cause(killed(failed).unwrap_err()), "listener died");
    let failed = ensure_analysis(Stage::AwaitingFirstLine, Event::TimedOut("late".to_string()));
    assert!(matches!(killed(failed), Err(AnalysisError::Io(m)) if m == "late"));
    let failed = ensure_analysis(
        Stage::AwaitingResult,
        Event::Listened(Err(AnalysisError::Io("broken".to_string()))),
    );
    assert!(matches!(killed(failed), Err(AnalysisError::Io(m)) if m == "broken"));
    assert_eq!(FIRST_LINE_SECONDS, 5);
}

#[test]
fn events_out_of_place() {
    assert!(ensure_analysis(Stage::Checking, Event::FirstLine).is_none());
    assert!(ensure_analysis(Stage::Launching, Event::CheckExited { success: true }).is_none());
    assert!(ensure_analysis(Stage::Finished, Event::FirstLine).is_none());
    assert!(ensure_analysis(Stage::AwaitingResult, Event::FirstLine).is_none());
    assert!(ensure_analysis(Stage::AwaitingResult, Event::Killed).is_none());
    assert!(ensure_analysis(Stage::Killing(Ok(())), Event::FirstLine).is_none());
}

#[test]
fn listener_waits_for_done() {
    let mut listener = Listener::new();
    assert!(listener.listen(Heard::Line { done: false }, true).is_none());
    assert!(listener.announced);
    // The announcement is made once: whether it would reach somebody matters no more.
    assert!(listener.listen(Heard::Line { done: false }, false).is_none());
    assert!(matches!(listener.listen(Heard::Line { done: true }, false), Some(Ok(()))));
}

#[test]
fn listener_without_a_waiter() {
    let mut listener = Listener::new();
    match listener.listen(Heard::Line { done: true }, false) {
        Some(Err(error)) => assert_eq!(cause(error), "rx died"),
        other => panic!("{:?}", other),
    }
    let mut listener = Listener::new();
    match listener.listen(Heard::Failed("broken".to_string()), false) {
        Some(Err(error)) => assert_eq!(cause(error), "rx died"),
        other => panic!("{:?}", other),
    }
}

#[test]
fn listener_at_the_end() {
    for alive in [true, false] {
        let mut listener = Listener::new();
        match listener.listen(Heard::Ended, alive) {
            Some(Err(error)) => assert_eq!(cause(error), "rls stopped before the build was done"),
            other => panic!("{:?}", other),
        }
        assert!(!listener.announced);
    }
    // Lines that do not say that the build is done are not enough.
    let mut listener = Listener::new();
    assert!(listener.listen(Heard::Line { done: false }, true).is_none());
    match listener.listen(Heard::Ended, true) {
        Some(Err(error)) => assert_eq!(cause(error), "rls stopped before the build was done"),
        other => panic!("{:?}", other),
    }
    let mut listener = Listener::new();
    assert!(matches!(
        listener.listen(Heard::Failed("broken".to_string()), true),
        Some(Err(AnalysisError::Io(m))) if m == "broken"
    ));
}

#[test]
fn listener_reads_lines() {
    let mut listener = Listener::new();
    assert!(listener.listen_to_line("not json", true).is_none());
    assert!(listener
        .listen_to_line(r#"{"method":"window/progress","params":{"title":"Building"}}"#, true)
        .is_none());
    assert!(matches!(
        listener.listen_to_line(
            r#"{"method":"window/progress","params":{"title":"Building","done":true}}"#,
            true
        ),
        Some(Ok(()))
    ));
}
