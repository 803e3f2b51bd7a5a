use aware::leave::{
    file_stem, is_registry_file, plan_leave_named, plan_sweep, LeaveDecision, SweepEntry,
};
use aware::signals::{deliver_sigterm, signal_all};

fn entry(name: &str, content: Option<&str>) -> SweepEntry {
    SweepEntry {
        file_name: String::from(name),
        content: content.map(String::from),
    }
}

#[test]
fn leave_without_pid_file_is_not_running() {
    // An absent PID file — the program's, or any in an empty directory — is
    // a normal outcome, and nothing is signaled.
    assert_eq!(plan_leave_named(None), LeaveDecision::NotRunning);
}

#[test]
fn leave_with_valid_pid_file_signals_the_stored_pid() {
    let content = String::from("12345\n");
    assert_eq!(
        plan_leave_named(Some(&content)),
        LeaveDecision::Signal { pid: 12345 }
    );
}

#[test]
fn leave_with_corrupt_pid_file_is_malformed() {
    let content = String::from("not a pid");
    assert_eq!(plan_leave_named(Some(&content)), LeaveDecision::Malformed);
}

#[test]
fn registry_files_are_pid_files_but_not_the_roster() {
    assert!(is_registry_file(&String::from("echo.pid")));
    assert!(!is_registry_file(&String::from("processes.list")));
    assert!(!is_registry_file(&String::from(".pid")));
    assert!(!is_registry_file(&String::from("notes.txt")));
    assert!(!is_registry_file(&String::from("pid")));
}

#[test]
fn stem_drops_the_extension() {
    assert_eq!(file_stem(&String::from("echo.pid")), "echo");
    assert_eq!(file_stem(&String::from("my.app.pid")), "my.app");
}

#[test]
fn sweep_signals_valid_files_and_skips_corrupt_ones() {
    let entries = vec![
        entry("a.pid", Some("11")),
        entry("processes.list", Some("junk")),
        entry("b.pid", Some("not a pid")),
        entry("c.pid", Some(" 33 \n")),
        entry("notes.txt", Some("44")),
        entry("d.pid", None),
    ];
    let plan = plan_sweep(&entries);
    assert_eq!(
        plan.signals,
        vec![(String::from("a"), 11u32), (String::from("c"), 33u32)]
    );
    assert_eq!(
        plan.skipped,
        vec![String::from("b.pid"), String::from("d.pid")]
    );
}

#[test]
fn corrupt_file_does_not_block_the_rest() {
    let with_corrupt = vec![
        entry("a.pid", Some("1")),
        entry("bad.pid", Some("garbage")),
        entry("z.pid", Some("2")),
    ];
    let without_corrupt = vec![entry("a.pid", Some("1")), entry("z.pid", Some("2"))];
    assert_eq!(
        plan_sweep(&with_corrupt).signals,
        plan_sweep(&without_corrupt).signals
    );
}

#[test]
fn sweep_of_empty_directory_plans_nothing() {
    let plan = plan_sweep(&vec![]);
    assert!(plan.signals.is_empty());
    assert!(plan.skipped.is_empty());
}

#[test]
fn delivery_to_a_dead_pid_reports_failure() {
    // A PID far above the kernel's pid limit: delivery fails, and the
    // failure is a report, not a panic.
    assert!(deliver_sigterm(999_999_999).is_err());
}

#[test]
fn sweep_delivery_attempts_every_signal() {
    let entries = vec![
        entry("ghost.pid", Some("999999999")),
        entry("phantom.pid", Some("999999998")),
    ];
    let plan = plan_sweep(&entries);
    let reports = signal_all(&plan);
    assert_eq!(reports.len(), 2);
    assert_eq!(reports[0].name, "ghost");
    assert_eq!(reports[0].pid, 999_999_999);
    assert!(reports[0].outcome.is_err());
    // The first failure did not stop the second attempt.
    assert_eq!(reports[1].name, "phantom");
    assert_eq!(reports[1].pid, 999_999_998);
    assert!(reports[1].outcome.is_err());
}
