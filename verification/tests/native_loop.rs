use sandboxed::json::Json;
use sandboxed::native_loop::{
    is_terminal_status, record_execution_with, record_observation, record_observation_with,
    Automation, AutomationDriver, AutomationExecution, CommandSource, ExecutionRow, ExecutionStatus,
    FreshSession, LoopObservation, LoopRow, NativeLoopObserver, RetryConfig, StopPolicy, TriggerType,
};

fn row(id: u128, harness: &str, command: &str, active: bool) -> Automation {
    Automation {
        id,
        mission_id: 1,
        command_source: CommandSource::NativeLoop {
            harness: harness.to_string(),
            command: command.to_string(),
            args: Json::Null,
        },
        trigger: TriggerType::Other,
        variables: Vec::new(),
        active,
        created_at: String::new(),
        last_triggered_at: None,
        retry_config: RetryConfig::Other,
        stop_policy: StopPolicy::Other,
        fresh_session: FreshSession::Other,
        consecutive_failures: 0,
        driver: AutomationDriver::Other,
    }
}

fn ensure(o: &mut NativeLoopObserver, rows: &Vec<Automation>) -> LoopRow {
    o.ensure_automation_with(1, "codex", "goal", "ship it", rows, 99, "now")
}

#[test]
fn a_loop_reuses_the_first_active_row() {
    let mut other = row(4, "codex", "goal", true);
    other.command_source = CommandSource::Other;
    let rows = vec![
        other,
        row(5, "codex", "goal", false),
        row(6, "codex", "plan", true),
        row(7, "gemini", "goal", true),
        row(8, "codex", "goal", true),
        row(9, "codex", "goal", true),
    ];
    let mut o = NativeLoopObserver::new();
    assert!(matches!(ensure(&mut o, &rows), LoopRow::Known(8)));
    assert_eq!(o.remembered(1), Some(8));
    assert_eq!(o.remembered(2), None);
    // What is remembered comes before what the store holds.
    assert!(matches!(ensure(&mut o, &Vec::new()), LoopRow::Known(8)));
}

#[test]
fn a_loop_without_a_row_gets_one() {
    let mut o = NativeLoopObserver::new();
    match ensure(&mut o, &Vec::new()) {
        LoopRow::Create(a) => {
            assert_eq!((a.id, a.mission_id, a.active), (99, 1, true));
            assert_eq!(a.created_at, "now");
            assert!(matches!(a.trigger, TriggerType::AgentFinished));
            assert!(a.variables.is_empty());
            assert!(matches!(a.retry_config, RetryConfig::Standard));
            assert!(matches!(a.stop_policy, StopPolicy::Never));
            assert!(matches!(a.fresh_session, FreshSession::Standard));
            assert!(matches!(a.driver, AutomationDriver::HarnessLoop));
            match a.command_source {
                CommandSource::NativeLoop {
                    harness,
                    command,
                    args,
                } => {
                    assert_eq!((harness.as_str(), command.as_str()), ("codex", "goal"));
                    assert_eq!(args.get_str("objective"), Some("ship it"));
                }
                CommandSource::Other => panic!("not a native loop"),
            }
        }
        LoopRow::Known(id) => panic!("known: {}", id),
    }
    assert_eq!(o.remembered(1), None);
    o.remember(1, 99);
    assert!(matches!(ensure(&mut o, &Vec::new()), LoopRow::Known(99)));
}

#[test]
fn a_loop_that_has_ended_is_forgotten() {
    for status in ["complete", "aborted", "cleared"] {
        let mut o = NativeLoopObserver::new();
        o.remember(1, 5);
        o.remember(2, 6);
        assert!(is_terminal_status(status));
        assert!(o.after_completion(1, status));
        assert_eq!(o.remembered(1), None);
        assert_eq!(o.remembered(2), Some(6));
        assert!(matches!(ensure(&mut o, &Vec::new()), LoopRow::Create(_)));
    }
    for status in ["paused", "budget_limited", "completed"] {
        let mut o = NativeLoopObserver::new();
        o.remember(1, 5);
        assert!(!is_terminal_status(status));
        assert!(!o.after_completion(1, status));
        assert_eq!(o.remembered(1), Some(5));
    }
}

#[test]
fn observations_become_executions() {
    let e = record_execution_with(
        3,
        5,
        1,
        LoopObservation::Iteration {
            index: 12,
            summary: Some("s".to_string()),
        },
        "now",
    );
    assert_eq!((e.id, e.automation_id, e.mission_id, e.retry_count), (3, 5, 1, 0));
    assert_eq!(e.trigger_source, "harness_loop:iteration:12");
    assert!(matches!(e.status, ExecutionStatus::Success));
    assert_eq!(e.triggered_at, "now");
    assert_eq!(e.completed_at.as_deref(), Some("now"));
    assert_eq!(e.error.as_deref(), Some("s"));
    assert!(e.webhook_payload.is_none() && e.variables_used.is_empty());
    let completed = |status: &str| {
        let o = LoopObservation::Completed {
            status: status.to_string(),
            summary: None,
        };
        record_execution_with(3, 5, 1, o, "now")
    };
    let e = completed("aborted");
    assert_eq!(e.trigger_source, "harness_loop:status:aborted");
    assert!(matches!(e.status, ExecutionStatus::Cancelled));
    assert!(matches!(completed("cleared").status, ExecutionStatus::Cancelled));
    assert!(matches!(completed("complete").status, ExecutionStatus::Success));
    assert!(matches!(completed("paused").status, ExecutionStatus::Running));
}

fn iteration(summary: Option<&str>) -> AutomationExecution {
    let o = LoopObservation::Iteration {
        index: 2,
        summary: summary.map(|s| s.to_string()),
    };
    record_execution_with(3, 5, 1, o, "then")
}

fn completion(status: &str, summary: Option<&str>) -> LoopObservation {
    LoopObservation::Completed {
        status: status.to_string(),
        summary: summary.map(|s| s.to_string()),
    }
}

#[test]
fn the_end_of_a_loop_closes_its_last_execution() {
    let o = completion("aborted", Some("stopped"));
    match record_observation_with(Some(iteration(Some("s"))), 4, 5, 1, o, "now") {
        ExecutionRow::Close(e) => {
            assert_eq!((e.id, e.automation_id, e.mission_id), (3, 5, 1));
            assert_eq!(e.triggered_at, "then");
            assert_eq!(e.trigger_source, "harness_loop:iteration:2");
            assert!(matches!(e.status, ExecutionStatus::Cancelled));
            assert_eq!(e.completed_at.as_deref(), Some("now"));
            assert_eq!(e.error.as_deref(), Some("stopped"));
        }
        ExecutionRow::Create(_) => panic!("not closed"),
    }
    let o = completion("complete", None);
    match record_observation_with(Some(iteration(Some("s"))), 4, 5, 1, o, "now") {
        ExecutionRow::Close(e) => assert_eq!(e.error.as_deref(), Some("s")),
        ExecutionRow::Create(_) => panic!("not closed"),
    }
    match record_observation_with(None, 4, 5, 1, completion("complete", None), "now") {
        ExecutionRow::Create(e) => assert_eq!((e.id, e.trigger_source.as_str()), (4, "harness_loop:status:complete")),
        ExecutionRow::Close(_) => panic!("closed"),
    }
    let o = completion("paused", None);
    match record_observation_with(Some(iteration(None)), 4, 5, 1, o, "now") {
        ExecutionRow::Create(e) => assert_eq!((e.id, e.trigger_source.as_str()), (4, "harness_loop:status:paused")),
        ExecutionRow::Close(_) => panic!("closed"),
    }
}

#[test]
fn rows_and_executions_get_identifiers_and_times() {
    let mut o = NativeLoopObserver::new();
    let created = |o: &mut NativeLoopObserver| match o.ensure_automation(1, "h", "c", "x", &Vec::new()) {
        LoopRow::Create(a) => a,
        LoopRow::Known(id) => panic!("known: {}", id),
    };
    let a = created(&mut o);
    let b = created(&mut o);
    assert_ne!(a.id, b.id);
    assert!(chrono::DateTime::parse_from_rfc3339(&a.created_at).is_ok());
    let record = || {
        let observation = LoopObservation::Iteration {
            index: 1,
            summary: None,
        };
        match record_observation(None, 5, 1, observation) {
            ExecutionRow::Create(e) => e,
            ExecutionRow::Close(_) => panic!("closed"),
        }
    };
    let e = record();
    assert_ne!(e.id, record().id);
    assert_eq!(e.completed_at.as_deref(), Some(e.triggered_at.as_str()));
    assert!(chrono::DateTime::parse_from_rfc3339(&e.triggered_at).is_ok());
}
