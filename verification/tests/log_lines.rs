use aware::logline::{
    compose_log_line, exit_message, format_timestamp, join_args, pid_message, render_log_line,
    start_message, stderr_line, stdout_line,
};

#[test]
fn timestamp_is_zero_padded() {
    assert_eq!(format_timestamp(2023, 10, 15, 7, 3, 9), "2023-10-15 07:03:09");
    assert_eq!(format_timestamp(2026, 1, 2, 23, 59, 0), "2026-01-02 23:59:00");
}

#[test]
fn timestamp_pads_small_years() {
    assert_eq!(format_timestamp(45, 12, 31, 0, 0, 1), "0045-12-31 00:00:01");
    assert_eq!(format_timestamp(999, 6, 7, 8, 9, 10), "0999-06-07 08:09:10");
}

#[test]
fn composed_line_has_bracketed_timestamp_and_break() {
    assert_eq!(
        compose_log_line(2023, 10, 15, 7, 3, 9, "Starting supervisor"),
        "[2023-10-15 07:03:09] Starting supervisor\n"
    );
}

#[test]
fn rendered_line_is_exactly_one_line() {
    let line = render_log_line("hello");
    let chars: Vec<char> = line.chars().collect();
    assert_eq!(chars.len(), 23 + "hello".len());
    assert_eq!(chars[0], '[');
    assert!(chars[1..5].iter().all(|c| c.is_ascii_digit()));
    assert_eq!(chars[5], '-');
    assert_eq!(chars[8], '-');
    assert_eq!(chars[11], ' ');
    assert_eq!(chars[14], ':');
    assert_eq!(chars[17], ':');
    assert_eq!(chars[20], ']');
    assert_eq!(chars[21], ' ');
    assert!(line.ends_with("hello\n"));
    assert_eq!(line.chars().filter(|c| *c == '\n').count(), 1);
}

#[test]
fn stream_prefixes_tag_child_output() {
    assert_eq!(stdout_line("hello"), "[stdout] hello");
    assert_eq!(stderr_line("oops"), "[stderr] oops");
}

#[test]
fn arguments_join_with_single_spaces() {
    assert_eq!(join_args(&vec![]), "");
    assert_eq!(join_args(&vec![String::from("a")]), "a");
    assert_eq!(
        join_args(&vec![String::from("a"), String::from("b"), String::from("c")]),
        "a b c"
    );
}

#[test]
fn lifecycle_messages_are_exact() {
    assert_eq!(
        start_message("echo", &vec![String::from("hello")]),
        "Starting process: echo hello"
    );
    assert_eq!(pid_message(42), "Process started, PID: 42");
    assert_eq!(
        exit_message(true, 0),
        "Process finished successfully with code 0"
    );
    assert_eq!(
        exit_message(false, 3),
        "Process finished with error: code 3"
    );
    assert_eq!(
        exit_message(false, -1),
        "Process finished with error: code -1"
    );
}
