use pipetui::aggregator::{Aggregator, StreamEvent};
use pipetui::execution::{emission_messages, ExecResult, UiMsg};
use pipetui::history::{App, HISTORY_LIMIT};

fn typed(text: &str) -> App {
    let mut app = App::new(Vec::new());
    for c in text.chars() {
        app.insert_char(c);
    }
    app
}

#[test]
fn echo_hi_manual_run_updates_history() {
    let mut app = App::new(vec!["ls".to_string()]);
    for c in "echo hi".chars() {
        app.insert_char(c);
    }
    let cmd = app.input.clone();
    assert!(app.prepare_run(&cmd, true));
    app.begin_run(cmd.clone());
    assert!(app.is_running);
    app.append_stdout_chunk("hi\n".to_string());
    let res = ExecResult::completed(cmd, Some(0), "hi\n".to_string(), String::new());
    assert_eq!(res.status, 0);
    assert_eq!(res.stdout, "hi\n");
    assert_eq!(res.stderr, "");
    let saved = app.finish_run(res);
    assert!(saved);
    assert_eq!(app.history, vec!["ls".to_string(), "echo hi".to_string()]);
    assert_eq!(app.output_lines, vec!["hi".to_string()]);
    assert!(app.error_lines.is_empty());
    assert_eq!(app.status_line, "exit 0");
    assert!(!app.is_running);
}

#[test]
fn stdout_and_stderr_arrive_as_separate_events() {
    let mut agg = Aggregator::new();
    let e = agg.step(StreamEvent::StdoutChunk("out\n".to_string()));
    assert!(e.stdout.is_none() && e.stderr.is_none() && !e.done);
    let e = agg.step(StreamEvent::StderrChunk("err\n".to_string()));
    assert!(e.stdout.is_none() && e.stderr.is_none() && !e.done);
    let e = agg.step(StreamEvent::Tick);
    assert_eq!(e.stdout.as_deref(), Some("out\n"));
    assert_eq!(e.stderr.as_deref(), Some("err\n"));
    let msgs = emission_messages(e);
    assert_eq!(msgs.len(), 2);
    let mut app = App::new(Vec::new());
    app.begin_run("sh -c 'echo out; echo err 1>&2'".to_string());
    for m in msgs {
        match m {
            UiMsg::StdoutChunk(c) => app.append_stdout_chunk(c),
            UiMsg::StderrChunk(c) => app.append_stderr_chunk(c),
            _ => panic!("unexpected message"),
        }
    }
    assert_eq!(app.output_lines, vec!["out".to_string()]);
    assert_eq!(app.error_lines, vec!["err".to_string()]);
}

#[test]
fn unchanged_input_after_run_is_not_rerun() {
    let mut app = typed("ls -l");
    let cmd = app.input.clone();
    assert!(app.prepare_run(&cmd, false));
    assert_eq!(app.last_edit_at, None);
    assert!(!app.auto_run_due(1_000_000));
    let res = ExecResult::completed(cmd, Some(0), String::new(), String::new());
    app.finish_run(res);
    assert!(!app.auto_run_due(1_000_000));
    // an edit that is reverted leaves the input equal to the last run
    app.last_edit_at = Some(0);
    assert!(!app.auto_run_due(300));
    assert!(!app.auto_run_due(u64::MAX));
}

#[test]
fn spawn_failure_result() {
    let res = ExecResult::spawn_failed("ls".to_string(), "No such file or directory (os error 2)");
    assert_eq!(res.status, -1);
    assert_eq!(res.stdout, "");
    assert!(!res.stderr.is_empty());
    assert_eq!(res.stderr, "Failed to spawn: No such file or directory (os error 2)");
    assert_eq!(res.cmd, "ls");
    let mut app = App::new(Vec::new());
    app.begin_run("ls".to_string());
    app.finish_run(res);
    assert_eq!(app.status_line, "exit -1");
    assert_eq!(app.output_lines, vec!["<no stdout>".to_string()]);
    assert_eq!(
        app.error_lines,
        vec!["Failed to spawn: No such file or directory (os error 2)".to_string()]
    );
}

#[test]
fn auto_run_waits_for_quiet_period() {
    let mut app = typed("date");
    app.last_edit_at = Some(1000);
    assert!(!app.auto_run_due(1000));
    assert!(!app.auto_run_due(1249));
    assert!(app.auto_run_due(1250));
    assert!(app.auto_run_due(5000));
    // a clock reading before the edit counts as no time passed
    assert!(!app.auto_run_due(10));
}

#[test]
fn auto_run_never_while_running() {
    let mut app = typed("date");
    app.last_edit_at = Some(0);
    app.begin_run("sleep 5".to_string());
    assert!(!app.auto_run_due(10_000));
    let res = ExecResult::completed("sleep 5".to_string(), Some(0), String::new(), String::new());
    app.finish_run(res);
    assert!(app.auto_run_due(10_000));
}

#[test]
fn auto_run_needs_pending_edit_and_text() {
    let mut app = App::new(Vec::new());
    assert!(!app.auto_run_due(10_000));
    app.last_edit_at = Some(0);
    assert!(!app.auto_run_due(10_000));
    app.insert_char(' ');
    app.insert_char('\t');
    app.last_edit_at = Some(0);
    assert!(!app.auto_run_due(10_000));
}

#[test]
fn changed_input_runs_again() {
    let mut app = typed("ls");
    let cmd = app.input.clone();
    assert!(app.prepare_run(&cmd, false));
    let res = ExecResult::completed(cmd, Some(0), String::new(), String::new());
    app.finish_run(res);
    app.insert_char('x');
    app.last_edit_at = Some(0);
    assert!(app.auto_run_due(300));
    app.delete_backward();
    app.last_edit_at = Some(0);
    assert!(!app.auto_run_due(300));
}

#[test]
fn should_auto_run_follows_the_clock() {
    let mut app = typed("true");
    assert!(app.last_edit_at.is_some());
    assert!(!app.should_auto_run());
    let waited = std::time::Instant::now();
    while waited.elapsed() < std::time::Duration::from_millis(300) {
        std::hint::spin_loop();
    }
    assert!(app.should_auto_run());
    app.mark_edited();
    assert!(!app.should_auto_run());
}

#[test]
fn automatic_run_does_not_touch_history() {
    let mut app = typed("echo auto");
    let cmd = app.input.clone();
    assert!(app.prepare_run(&cmd, false));
    app.begin_run(cmd.clone());
    let res = ExecResult::completed(cmd, Some(0), "auto\n".to_string(), String::new());
    assert!(!app.finish_run(res));
    assert!(app.history.is_empty());
}

#[test]
fn blank_command_is_refused() {
    let mut app = typed("   ");
    let cmd = app.input.clone();
    assert!(!app.prepare_run(&cmd, true));
    assert_eq!(app.last_run_cmd, None);
    assert!(!app.append_history_on_finish);
    assert!(!app.prepare_run("", true));
    assert!(app.prepare_run(" x ", true));
    assert_eq!(app.last_run_cmd.as_deref(), Some(" x "));
}

#[test]
fn manual_blank_result_command_is_not_stored() {
    let mut app = App::new(Vec::new());
    app.append_history_on_finish = true;
    let res = ExecResult::completed("  ".to_string(), Some(0), String::new(), String::new());
    assert!(!app.finish_run(res));
    assert!(app.history.is_empty());
    assert!(!app.append_history_on_finish);
}

#[test]
fn history_skips_adjacent_duplicate() {
    let mut app = typed("make");
    for _ in 0..2 {
        let cmd = app.input.clone();
        assert!(app.prepare_run(&cmd, true));
        app.begin_run(cmd.clone());
        let res = ExecResult::completed(cmd, Some(2), String::new(), "boom\n".to_string());
        app.finish_run(res);
    }
    assert_eq!(app.history, vec!["make".to_string()]);
    assert_eq!(app.error_lines, vec!["boom".to_string()]);
    assert_eq!(app.status_line, "exit 2");
}

#[test]
fn history_is_capped_oldest_first() {
    let start: Vec<String> = (0..HISTORY_LIMIT).map(|i| format!("cmd {i}")).collect();
    let mut app = App::new(start);
    assert_eq!(app.history.len(), 500);
    app.append_history_on_finish = true;
    let res = ExecResult::completed("new".to_string(), Some(0), String::new(), String::new());
    assert!(app.finish_run(res));
    assert_eq!(app.history.len(), 500);
    assert_eq!(app.history[0], "cmd 1");
    assert_eq!(app.history[499], "new");
}

#[test]
fn history_browsing() {
    let mut app = App::new(vec!["a".to_string(), "bb".to_string()]);
    app.history_prev();
    assert_eq!(app.input, "bb");
    assert_eq!(app.cursor, 2);
    assert_eq!(app.hist_pos, Some(1));
    app.history_prev();
    assert_eq!(app.input, "a");
    app.history_prev();
    assert_eq!(app.input, "a");
    assert_eq!(app.hist_pos, Some(0));
    app.history_next();
    assert_eq!(app.input, "bb");
    app.history_next();
    assert_eq!(app.input, "");
    assert_eq!(app.hist_pos, None);
    assert_eq!(app.cursor, 0);
    assert!(app.last_edit_at.is_some());
}

#[test]
fn history_browsing_on_empty_history_does_nothing() {
    let mut app = App::new(Vec::new());
    app.history_prev();
    app.history_next();
    assert_eq!(app.input, "");
    assert_eq!(app.last_edit_at, None);
}

#[test]
fn chunks_are_cut_into_lines() {
    let mut app = App::new(Vec::new());
    app.begin_run("x".to_string());
    app.append_stdout_chunk("one\r\ntw".to_string());
    assert_eq!(app.output_lines, vec!["one".to_string()]);
    assert_eq!(app.stdout_partial, "tw");
    app.append_stdout_chunk("o\n\nthree\r".to_string());
    assert_eq!(
        app.output_lines,
        vec!["one".to_string(), "two".to_string(), String::new()]
    );
    assert_eq!(app.stdout_partial, "three\r");
    let res = ExecResult::completed("x".to_string(), None, String::new(), String::new());
    app.finish_run(res);
    assert_eq!(
        app.output_lines,
        vec!["one".to_string(), "two".to_string(), String::new(), "three".to_string()]
    );
    assert_eq!(app.stdout_partial, "");
    assert_eq!(app.status_line, "exit -1");
}

#[test]
fn captured_output_is_used_when_nothing_streamed() {
    let mut app = App::new(Vec::new());
    app.begin_run("x".to_string());
    let res = ExecResult::completed(
        "x".to_string(),
        Some(1),
        "a\r\nb".to_string(),
        "e1\ne2\n".to_string(),
    );
    app.finish_run(res);
    assert_eq!(app.output_lines, vec!["a".to_string(), "b".to_string()]);
    assert_eq!(app.error_lines, vec!["e1".to_string(), "e2".to_string()]);
    assert_eq!(app.status_line, "exit 1");
}

#[test]
fn views_show_last_lines_and_partial() {
    let mut app = App::new(Vec::new());
    app.begin_run("x".to_string());
    app.append_stdout_chunk("1\n2\n3\npart".to_string());
    assert_eq!(app.stdout_view(4), vec!["3".to_string(), "part".to_string()]);
    assert_eq!(app.stdout_view(2), Vec::<String>::new());
    assert_eq!(app.stdout_view(0), Vec::<String>::new());
    assert_eq!(
        app.stdout_view(100),
        vec!["1".to_string(), "2".to_string(), "3".to_string(), "part".to_string()]
    );
    app.append_stderr_chunk("e\n".to_string());
    assert_eq!(app.stderr_view(10), vec!["e".to_string()]);
}

#[test]
fn new_app_starts_ready() {
    let app = App::new(vec!["x".to_string()]);
    assert_eq!(app.input, "");
    assert_eq!(app.cursor, 0);
    assert_eq!(app.output_lines, vec!["(output will appear here)".to_string()]);
    assert_eq!(app.status_line, "Ready");
    assert!(!app.is_running);
    assert_eq!(app.history, vec!["x".to_string()]);
}

#[test]
fn receive_dispatches_worker_reports() {
    let mut app = typed("echo hi");
    let cmd = app.input.clone();
    assert!(app.prepare_run(&cmd, true));
    assert!(!app.receive(UiMsg::Started(cmd.clone())));
    assert!(app.is_running);
    assert!(!app.receive(UiMsg::StdoutChunk("h".to_string())));
    assert!(!app.receive(UiMsg::StdoutChunk("i\n".to_string())));
    assert!(!app.receive(UiMsg::StderrChunk("warn".to_string())));
    let res = ExecResult::completed(cmd, Some(0), "hi\n".to_string(), "warn".to_string());
    assert!(app.receive(UiMsg::Finished(res)));
    assert_eq!(app.output_lines, vec!["hi".to_string()]);
    assert_eq!(app.error_lines, vec!["warn".to_string()]);
    assert_eq!(app.history, vec!["echo hi".to_string()]);
}

#[test]
fn auto_submit_sends_settled_input_once() {
    let mut app = typed("uptime");
    assert_eq!(app.auto_submit(), None);
    let waited = std::time::Instant::now();
    while waited.elapsed() < std::time::Duration::from_millis(300) {
        std::hint::spin_loop();
    }
    assert_eq!(app.auto_submit(), Some("uptime".to_string()));
    assert!(!app.append_history_on_finish);
    assert_eq!(app.last_edit_at, None);
    assert_eq!(app.auto_submit(), None);
}

#[test]
fn submission_marks_a_run_in_flight() {
    let mut app = typed("sleep 1");
    let cmd = app.input.clone();
    assert!(!app.is_running);
    assert!(app.prepare_run(&cmd, true));
    assert!(app.is_running);
    app.insert_char('0');
    app.last_edit_at = Some(0);
    assert!(!app.auto_run_due(10_000));
    assert_eq!(app.auto_submit_at(10_000), None);
}

#[test]
fn browsing_back_to_last_run_does_not_rerun() {
    let mut app = typed("make");
    let cmd = app.input.clone();
    assert!(app.prepare_run(&cmd, true));
    let res = ExecResult::completed(cmd, Some(0), String::new(), String::new());
    assert!(app.finish_run(res));
    app.clear_input();
    app.history_prev();
    assert_eq!(app.input, "make");
    assert_eq!(app.last_run_cmd.as_deref(), Some("make"));
    app.last_edit_at = Some(0);
    assert!(!app.auto_run_due(10_000));
    app.history_next();
    assert_eq!(app.input, "");
    assert!(!app.auto_run_due(10_000));
}

#[test]
fn auto_submit_at_follows_the_rule() {
    let mut app = typed("uname");
    app.last_edit_at = Some(100);
    assert_eq!(app.auto_submit_at(200), None);
    assert_eq!(app.last_edit_at, Some(100));
    assert_eq!(app.auto_submit_at(350), Some("uname".to_string()));
    assert!(app.is_running);
    assert!(!app.append_history_on_finish);
    assert_eq!(app.last_run_cmd.as_deref(), Some("uname"));
    assert_eq!(app.auto_submit_at(10_000), None);
}

#[test]
fn loaded_history_is_bounded_and_collapsed() {
    let mut start: Vec<String> = (0..HISTORY_LIMIT + 1).map(|i| format!("cmd {i}")).collect();
    start.insert(3, "cmd 2".to_string());
    let app = App::new(start);
    assert_eq!(app.history.len(), HISTORY_LIMIT);
    assert_eq!(app.history[0], "cmd 1");
    assert_eq!(app.history[1], "cmd 2");
    assert_eq!(app.history[2], "cmd 3");
    assert_eq!(app.history[HISTORY_LIMIT - 1], format!("cmd {HISTORY_LIMIT}"));
    let app = App::new(vec!["a".to_string(), "a".to_string(), "b".to_string(), "a".to_string()]);
    assert_eq!(app.history, vec!["a".to_string(), "b".to_string(), "a".to_string()]);
}
