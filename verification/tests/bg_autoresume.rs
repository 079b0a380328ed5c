use sandboxed::bg_autoresume::{
    after_mission_lookup, bg_decide_finished, output_tail, parse_probe_line,
    pgrep_pattern_for_task, probe_script, resume_label, resume_message, shell_single_quote,
    tail_script, truncate_for_pgrep, BackgroundTask, BackgroundTaskRegistry, BgProbe, BgWatch,
    BgWatcher, MissionLookup, MissionStatus, MissionStep, ProbeStep, ResumeAck, TaskProgress,
    TaskStep, WatchStep,
    BG_IDLE_STABLE_SECS, BG_MAX_CHECKS_PER_TICK, BG_OVERALL_TIMEOUT_SECS, BG_START_GRACE_SECS,
    NANOS_PER_SEC,
};

/// A moment, in nanoseconds.
const START: u64 = 5_000_000_000_000;

fn sample_task(id: &str, output_path: &str, command: &str) -> BackgroundTask {
    BackgroundTask {
        id: id.to_string(),
        output_path: output_path.to_string(),
        command: command.to_string(),
        started_at: START,
    }
}

#[test]
fn pgrep_pattern_prefers_command() {
    // The command is the only task-identifying text in the launched
    // process's cmdline (the id / output path are not), so it must win.
    let task = sample_task("bokwqyjak", "/tmp/tasks/bokwqyjak.output", "sleep 40");
    assert_eq!(pgrep_pattern_for_task(&task), "sleep 40");
}

#[test]
fn pgrep_pattern_falls_back_to_task_id_when_command_empty() {
    let task = sample_task("bokwqyjak", "/tmp/tasks/bokwqyjak.output", "");
    assert_eq!(pgrep_pattern_for_task(&task), "bokwqyjak");
}

#[test]
fn pgrep_pattern_falls_back_to_output_stem_when_command_and_id_empty() {
    let task = sample_task("", "/tmp/tasks/bokwqyjak.output", "");
    assert_eq!(pgrep_pattern_for_task(&task), "bokwqyjak");
}

#[test]
fn parse_probe_exists_idle_with_pgrep() {
    match parse_probe_line("BG 1 1700000000 0 1\n") {
        BgProbe::Observed {
            exists,
            mtime_epoch,
            busy,
            pgrep_available,
        } => {
            assert!(exists);
            assert_eq!(mtime_epoch, 1_700_000_000);
            assert!(!busy);
            assert!(pgrep_available);
        }
        other => panic!("expected Observed, got {other:?}"),
    }
}

#[test]
fn parse_probe_busy_with_pgrep() {
    match parse_probe_line("noise\nBG 1 42 1 1") {
        BgProbe::Observed {
            busy,
            pgrep_available,
            ..
        } => {
            assert!(busy);
            assert!(pgrep_available);
        }
        other => panic!("expected Observed busy, got {other:?}"),
    }
}

#[test]
fn parse_probe_without_pgrep_field_fails_closed() {
    match parse_probe_line("BG 0 0 0") {
        BgProbe::Observed {
            pgrep_available, ..
        } => assert!(!pgrep_available),
        other => panic!("expected Observed, got {other:?}"),
    }
}

#[test]
fn parse_probe_pgrep_unavailable_flag() {
    match parse_probe_line("BG 0 0 0 0") {
        BgProbe::Observed {
            pgrep_available, ..
        } => assert!(!pgrep_available),
        other => panic!("expected Observed, got {other:?}"),
    }
}

#[test]
fn parse_probe_file_absent_is_still_observed() {
    match parse_probe_line("BG 0 0 0 1") {
        BgProbe::Observed {
            exists,
            mtime_epoch,
            busy,
            pgrep_available,
        } => {
            assert!(!exists);
            assert_eq!(mtime_epoch, 0);
            assert!(!busy);
            assert!(pgrep_available);
        }
        other => panic!("expected Observed (absent file), got {other:?}"),
    }
}

#[test]
fn parse_probe_unknown() {
    assert!(matches!(
        parse_probe_line("garbage"),
        BgProbe::Unknown { .. }
    ));
    assert!(matches!(
        parse_probe_line("BG 1 x y"),
        BgProbe::Unknown { .. }
    ));
}

fn watch(was_busy: bool, idle_since: Option<u64>) -> BgWatch {
    BgWatch {
        was_busy,
        idle_since,
    }
}

#[test]
fn busy_is_never_finished_and_records_was_busy() {
    let now = START;
    let (finished, next) = bg_decide_finished(None, true, 999, now);
    assert!(!finished);
    assert!(next.was_busy);
    assert!(next.idle_since.is_none());
}

#[test]
fn first_probe_not_busy_within_grace_waits() {
    let now = START;
    let (finished, next) = bg_decide_finished(None, false, BG_START_GRACE_SECS - 1, now);
    assert!(!finished);
    assert!(next.idle_since.is_some());
    assert!(!next.was_busy);
}

#[test]
fn finished_before_first_probe_trusted_after_grace_and_idle_window() {
    let idle_start = START;
    let prev = watch(false, Some(idle_start));
    let now = idle_start + BG_IDLE_STABLE_SECS * NANOS_PER_SEC;
    let (finished, _next) =
        bg_decide_finished(Some(&prev), false, BG_START_GRACE_SECS + 5, now);
    assert!(finished);
}

#[test]
fn was_busy_then_idle_stable_finishes_even_before_grace() {
    let idle_start = START;
    let prev = watch(true, Some(idle_start));
    let now = idle_start + BG_IDLE_STABLE_SECS * NANOS_PER_SEC;
    let (finished, _next) = bg_decide_finished(Some(&prev), false, 1, now);
    assert!(finished);
}

#[test]
fn shell_quoting_escapes_single_quotes() {
    assert_eq!(shell_single_quote("a'b"), "'a'\\''b'");
}

#[test]
fn pgrep_truncation_is_char_safe() {
    let long = "é".repeat(200);
    let t = truncate_for_pgrep(&long);
    assert!(t.len() <= 120);
    assert!(long.starts_with(&t));
}

#[test]
fn idle_for_less_than_the_window_waits() {
    let prev = watch(true, Some(START));
    let now = START + BG_IDLE_STABLE_SECS * NANOS_PER_SEC - 1;
    let (finished, next) = bg_decide_finished(Some(&prev), false, 1, now);
    assert!(!finished);
    assert_eq!(next, prev);
}

#[test]
fn a_single_miss_is_absorbed() {
    let (finished, gone) = bg_decide_finished(Some(&watch(true, None)), false, 100, START);
    assert!(!finished);
    let (finished, back) = bg_decide_finished(Some(&gone), true, 110, START + NANOS_PER_SEC);
    assert!(!finished);
    assert_eq!(back, watch(true, None));
}

#[test]
fn only_quiet_looks_in_a_row_finish_a_task() {
    let mut seen: Option<BgWatch> = None;
    let mut finished_at = Vec::new();
    for (secs, busy) in [(0, true), (10, false), (20, false), (25, true), (30, false), (44, false), (45, false)] {
        let now = START + secs * NANOS_PER_SEC;
        let (finished, next) = bg_decide_finished(seen.as_ref(), busy, secs, now);
        if finished {
            finished_at.push(secs);
        }
        seen = Some(next);
    }
    assert_eq!(finished_at, [45]);
    assert_eq!(seen, Some(watch(true, Some(START + 30 * NANOS_PER_SEC))));
}

#[test]
fn scripts_quote_what_they_are_given() {
    let task = sample_task("t", "/tmp/it's.output", "sleep 40");
    let script = probe_script(&task);
    assert!(script.starts_with("\nset -u\nP='/tmp/it'\\''s.output'\nPAT='sleep 40'\nEXISTS=0\n"));
    assert!(script.ends_with("echo \"BG $EXISTS $M $BUSY $HAS_PGREP\"\n"));
    assert_eq!(
        tail_script("/o"),
        "set -u; P='/o'; [ -f \"$P\" ] && tail -c 4000 \"$P\" 2>/dev/null || true"
    );
}

#[test]
fn output_tail_ends_without_newlines() {
    assert_eq!(output_tail("done\n\n"), Some("done".to_string()));
    assert_eq!(output_tail("\n"), None);
    assert_eq!(output_tail(""), None);
}

#[test]
fn registry_holds_one_task_under_each_id() {
    let mut registry = BackgroundTaskRegistry::new();
    registry.record(1, sample_task("a", "/a", "first"));
    registry.record(1, sample_task("a", "/a", "second"));
    registry.record(2, sample_task("a", "/a", "third"));
    let mut seen: Vec<(u128, String)> =
        registry.snapshot().into_iter().map(|(m, t)| (m, t.command)).collect();
    seen.sort();
    assert_eq!(seen.len(), 2);
    assert_eq!(seen[1], (2, "third".to_string()));
    registry.remove_background_task(1, "a");
    assert_eq!(registry.snapshot().len(), 1);
    registry.remove_background_task(1, "a");
    assert_eq!(registry.snapshot().len(), 1);
}

#[test]
fn only_a_waiting_mission_is_watched() {
    let late = START + BG_OVERALL_TIMEOUT_SECS * NANOS_PER_SEC;
    let step = |lookup, now| after_mission_lookup(lookup, START, now);
    assert_eq!(step(MissionLookup::Missing, START), MissionStep::Remove);
    assert_eq!(step(MissionLookup::Failed, START), MissionStep::Skip);
    let found = |s| MissionLookup::Found(s);
    assert_eq!(step(found(MissionStatus::AwaitingUser), late), MissionStep::Watch);
    assert_eq!(step(found(MissionStatus::Completed), START), MissionStep::Remove);
    assert_eq!(step(found(MissionStatus::Failed), START), MissionStep::Remove);
    assert_eq!(step(found(MissionStatus::NotFeasible), START), MissionStep::Remove);
    assert_eq!(step(found(MissionStatus::Other), START), MissionStep::Skip);
    assert_eq!(step(found(MissionStatus::Other), late), MissionStep::Remove);
}

#[test]
fn watcher_reports_a_task_once_it_is_gone() {
    let task = sample_task("t", "/o", "sleep 40");
    let look = |busy| BgProbe::Observed {
        exists: true,
        mtime_epoch: 0,
        busy,
        pgrep_available: true,
    };
    let mut w = BgWatcher::new();
    let at = |secs: u64| START + secs * NANOS_PER_SEC;
    w.begin_tick(&vec![(1, "t".to_string())]);
    assert_eq!(w.after_workspace_lookup(false, START, at(1)), WatchStep::Skip);
    assert_eq!(w.after_workspace_lookup(true, START, at(1)), WatchStep::Probe);
    assert_eq!(w.on_probe(1, &task, &look(true), at(1), at(1)), ProbeStep::Waiting);
    assert_eq!(w.on_probe(1, &task, &look(false), at(2), at(2)), ProbeStep::Waiting);
    let unknown = BgProbe::Unknown { reason: None };
    assert_eq!(w.on_probe(1, &task, &unknown, at(3), at(3)), ProbeStep::Retry);
    let blind = BgProbe::Observed {
        exists: true,
        mtime_epoch: 0,
        busy: false,
        pgrep_available: false,
    };
    assert_eq!(w.on_probe(1, &task, &blind, at(4), at(400)), ProbeStep::Retry);
    assert_eq!(
        w.on_probe(1, &task, &look(false), at(17), at(17)),
        ProbeStep::Finished { read_output: true }
    );
    assert!(!w.after_resume(1, "t", ResumeAck::Dropped));
    assert!(!w.after_resume(1, "t", ResumeAck::Lost));
    assert!(w.after_resume(1, "t", ResumeAck::Accepted));
    // What was remembered is gone: the task would have to be seen gone anew.
    assert_eq!(w.on_probe(1, &task, &look(false), at(18), at(18)), ProbeStep::Waiting);
    let late = BG_OVERALL_TIMEOUT_SECS;
    assert_eq!(w.after_workspace_lookup(true, START, at(late)), WatchStep::TimedOut);
}

#[test]
fn watcher_forgets_tasks_that_are_not_live() {
    let task = sample_task("t", "/o", "sleep 40");
    let gone = BgProbe::Observed {
        exists: false,
        mtime_epoch: 0,
        busy: false,
        pgrep_available: true,
    };
    let at = |secs: u64| START + secs * NANOS_PER_SEC;
    let mut w = BgWatcher::new();
    assert_eq!(w.on_probe(1, &task, &gone, at(20), at(20)), ProbeStep::Waiting);
    w.begin_tick(&vec![(2, "t".to_string())]);
    assert_eq!(w.on_probe(1, &task, &gone, at(35), at(35)), ProbeStep::Waiting);
    w.begin_tick(&vec![(1, "t".to_string())]);
    assert_eq!(
        w.on_probe(1, &task, &gone, at(50), at(50)),
        ProbeStep::Finished { read_output: false }
    );
}

#[test]
fn a_tick_is_full_after_so_many_looks() {
    let mut w = BgWatcher::new();
    w.begin_tick(&Vec::new());
    for _ in 0..BG_MAX_CHECKS_PER_TICK {
        assert!(!w.tick_is_full());
        w.after_workspace_lookup(true, START, START);
    }
    assert!(w.tick_is_full());
    w.begin_tick(&Vec::new());
    assert!(!w.tick_is_full());
}

#[test]
fn resume_messages_say_what_is_known() {
    let task = sample_task("t", "/o", "make");
    assert_eq!(
        resume_message(&task, "ok", false),
        "Background task `t` (`make`) finished. Output:\n\n```\nok\n```\n\nContinue from here."
    );
    let bare = sample_task("t", "/o", " ");
    assert_eq!(
        resume_message(&bare, "", true),
        "Background task `t` (`(command unavailable)`) finished. (No captured output was \
         available.) (reported finished after the 30-minute watcher timeout; it may still be \
         running.)\n\nContinue from here."
    );
    assert_eq!(resume_label("t"), "Resuming: background task `t` finished");
}

#[test]
fn a_task_is_followed_to_its_end() {
    let task = sample_task("t", "/o", "make");
    let at = |secs: u64| START + secs * NANOS_PER_SEC;
    let mut w = BgWatcher::new();
    assert!(matches!(w.next_step(1, &task, TaskProgress::Begun), TaskStep::LookUpMission));
    let looked_up = |lookup| TaskProgress::MissionLookedUp { lookup, now: START };
    assert!(matches!(
        w.next_step(1, &task, looked_up(MissionLookup::Missing)),
        TaskStep::Forget
    ));
    assert!(matches!(
        w.next_step(1, &task, looked_up(MissionLookup::Failed)),
        TaskStep::Leave
    ));
    let waiting = MissionLookup::Found(MissionStatus::AwaitingUser);
    assert!(matches!(
        w.next_step(1, &task, looked_up(waiting)),
        TaskStep::LookUpWorkspace
    ));
    let workspace = |found, secs| TaskProgress::WorkspaceLookedUp {
        found,
        now: at(secs),
    };
    assert!(matches!(w.next_step(1, &task, workspace(false, 1)), TaskStep::Leave));
    match w.next_step(1, &task, workspace(true, 1)) {
        TaskStep::Probe { script } => assert_eq!(script, probe_script(&task)),
        _ => panic!("no probe"),
    }
    match w.next_step(1, &task, workspace(true, BG_OVERALL_TIMEOUT_SECS)) {
        TaskStep::ReadOutput { script, timed_out } => {
            assert_eq!(script, tail_script("/o"));
            assert!(timed_out);
        }
        _ => panic!("not timed out"),
    }
    let probed = |line: &str, secs| TaskProgress::Probed {
        probe: parse_probe_line(line),
        probed_at: at(secs),
        now: at(secs),
    };
    assert!(matches!(w.next_step(1, &task, probed("BG 1 9 1 1", 2)), TaskStep::Leave));
    assert!(matches!(w.next_step(1, &task, probed("BG 1 9 0 1", 3)), TaskStep::Leave));
    assert!(matches!(w.next_step(1, &task, probed("oops", 30)), TaskStep::Leave));
    assert!(matches!(
        w.next_step(1, &task, probed("BG 1 9 0 1", 18)),
        TaskStep::ReadOutput { timed_out: false, .. }
    ));
    match w.next_step(1, &task, probed("BG 0 0 0 1", 18)) {
        TaskStep::Tell { label, content } => {
            assert_eq!(label, resume_label("t"));
            assert_eq!(content, resume_message(&task, "", false));
        }
        _ => panic!("not told"),
    }
    let read = TaskProgress::OutputRead {
        printed: Some("ok\n".to_string()),
        timed_out: true,
    };
    match w.next_step(1, &task, read) {
        TaskStep::Tell { content, .. } => assert_eq!(content, resume_message(&task, "ok", true)),
        _ => panic!("not told"),
    }
    let told = |ack| TaskProgress::Told { ack };
    assert!(matches!(w.next_step(1, &task, told(ResumeAck::Lost)), TaskStep::Leave));
    assert!(matches!(w.next_step(1, &task, told(ResumeAck::Accepted)), TaskStep::Forget));
    for _ in 1..BG_MAX_CHECKS_PER_TICK {
        w.next_step(1, &task, workspace(true, 1));
    }
    assert!(matches!(w.next_step(1, &task, TaskProgress::Begun), TaskStep::EndTick));
}
