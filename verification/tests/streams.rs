use dockshell::streams::{
    container_event_filters, container_event_from, exec_output_text, log_line_from,
    pull_progress_from, LogSource,
};

#[test]
fn streams_container_logs_from_engine_api() {
    let lines = vec![
        log_line_from(LogSource::StdOut, b"starting up\n"),
        log_line_from(LogSource::StdErr, b"a warning\n"),
    ];
    assert_eq!(lines.len(), 2);
    assert_eq!(lines[0].stream, "stdout");
    assert_eq!(lines[0].message, "starting up");
    assert_eq!(lines[1].stream, "stderr");
    assert_eq!(lines[1].message, "a warning");
}

#[test]
fn handles_invalid_utf8_in_log_message() {
    let line = log_line_from(LogSource::StdOut, &[0xFF, 0xFE, b'o', b'k', b'\n']);
    assert_eq!(line.stream, "stdout");
    // Invalid bytes become U+FFFD; the trailing "ok" survives intact.
    assert!(line.message.contains('\u{FFFD}'));
    assert!(line.message.ends_with("ok"));
}

#[test]
fn log_lines_drop_every_trailing_newline_only() {
    let line = log_line_from(LogSource::Console, b"\na\nb\n\n\n");
    assert_eq!(line.stream, "console");
    assert_eq!(line.message, "\na\nb");
    assert_eq!(log_line_from(LogSource::StdIn, b"").message, "");
    assert_eq!(log_line_from(LogSource::StdIn, b"x").stream, "stdin");
}

#[test]
fn streams_tty_exec_output_over_the_upgraded_connection() {
    assert_eq!(exec_output_text(b"/ # "), "/ # ");
    assert_eq!(exec_output_text(b"a\r\n"), "a\r\n");
}

#[test]
fn streams_pull_progress_from_engine_api() {
    let first = pull_progress_from(
        Some("latest".into()),
        Some("Pulling from library/alpine".into()),
        None,
    );
    let second = pull_progress_from(
        Some("a1b2c3".into()),
        Some("Downloading".into()),
        Some("[====>   ] 1MB/2MB".into()),
    );
    assert_eq!(first.status, "Pulling from library/alpine");
    assert_eq!(first.id.as_deref(), Some("latest"));
    assert_eq!(second.status, "Downloading");
    assert_eq!(second.progress.as_deref(), Some("[====>   ] 1MB/2MB"));
    assert_eq!(second.id.as_deref(), Some("a1b2c3"));
    assert_eq!(pull_progress_from(None, None, None).status, "");
}

#[test]
fn streams_container_events_from_engine_api() {
    let start = container_event_from(Some("start".into()), Some("abc123".into()), Some("web".into()));
    let die = container_event_from(Some("die".into()), Some("def456".into()), Some("db".into()));
    assert_eq!(start.action, "start");
    assert_eq!(start.container_id, "abc123");
    assert_eq!(start.container_name.as_deref(), Some("web"));
    assert_eq!(die.action, "die");
    assert_eq!(die.container_id, "def456");

    let filters = container_event_filters();
    assert_eq!(filters[0], ("type".to_string(), vec!["container".to_string()]));
    assert_eq!(filters[1].0, "event");
    assert_eq!(
        filters[1].1,
        vec!["start", "stop", "die", "destroy", "create", "rename", "health_status"]
    );
}

#[test]
fn logs_are_followed_with_a_backfill_of_500_lines() {
    let o = dockshell::streams::log_follow_options();
    assert!(o.follow && o.stdout && o.stderr);
    assert_eq!(o.tail, "500");
}

#[test]
fn exec_sessions_run_the_shell_with_a_tty() {
    let o = dockshell::streams::exec_session_options("/bin/sh");
    assert!(o.attach_stdin && o.attach_stdout && o.attach_stderr && o.tty);
    assert_eq!(o.cmd, vec!["/bin/sh".to_string()]);
}

#[test]
fn invalid_exec_output_shows_a_replacement_character() {
    let text = exec_output_text(&[b'a', 0xC3]);
    assert!(text.contains('\u{FFFD}'));
    assert!(text.starts_with('a'));
}
