use aware::channel::{CommandChannel, SupervisorCommand};
use aware::lifecycle::{
    ChildEvent, Controller, Directive, Phase, PollStep, POLL_INTERVAL_MS, RESTART_DELAY_MS,
    RETRY_DELAY_MS,
};
use aware::logline::{exit_message, pid_message, start_message, stdout_line};

#[test]
fn fresh_controller_is_idle() {
    let c = Controller::new();
    assert_eq!(c.phase, Phase::Idle);
    assert_eq!(c.child, None);
}

#[test]
fn idle_controller_spawns() {
    let mut c = Controller::new();
    assert_eq!(c.next_directive(false), Directive::SpawnChild);
    assert_eq!(c.phase, Phase::Starting);
}

#[test]
fn failed_spawn_backs_off_and_retries() {
    let mut c = Controller::new();
    assert_eq!(c.next_directive(false), Directive::SpawnChild);
    assert_eq!(c.on_spawn_result(None), RETRY_DELAY_MS);
    assert_eq!(c.phase, Phase::Idle);
    assert_eq!(c.next_directive(false), Directive::SpawnChild);
}

#[test]
fn running_child_is_polled_until_it_exits() {
    let mut c = Controller::new();
    assert_eq!(c.next_directive(false), Directive::SpawnChild);
    assert_eq!(c.on_spawn_result(Some(7)), 0);
    assert_eq!(c.phase, Phase::Running);
    assert_eq!(c.next_directive(false), Directive::PollChild { pid: 7 });
    assert_eq!(
        c.on_child_poll(ChildEvent::StillRunning, false),
        PollStep { join_readers: false, delay_ms: POLL_INTERVAL_MS }
    );
    assert_eq!(
        c.on_child_poll(ChildEvent::Exited { success: true, code: 0 }, false),
        PollStep { join_readers: true, delay_ms: RESTART_DELAY_MS }
    );
    assert_eq!(c.child, None);
    // The very next directive restarts the child after the fixed delay.
    assert_eq!(c.next_directive(false), Directive::SpawnChild);
}

#[test]
fn no_restart_after_shutdown() {
    let mut c = Controller::new();
    c.next_directive(false);
    c.on_spawn_result(Some(9));
    let step = c.on_child_poll(ChildEvent::Exited { success: false, code: 1 }, true);
    assert!(step.join_readers);
    assert_eq!(step.delay_ms, 0);
    let d = c.next_directive(true);
    assert_ne!(d, Directive::SpawnChild);
    assert_eq!(
        d,
        Directive::BeginShutdown { child_to_kill: None, remove_pid_file: true }
    );
}

#[test]
fn shutdown_kills_child_and_removes_pid_file() {
    let mut c = Controller::new();
    c.next_directive(false);
    c.on_spawn_result(Some(11));
    let d = c.next_directive(true);
    assert_eq!(
        d,
        Directive::BeginShutdown { child_to_kill: Some(11), remove_pid_file: true }
    );
    c.on_shutdown_complete();
    assert_eq!(c.phase, Phase::Terminated);
    assert_eq!(c.child, None);
}

#[test]
fn poll_failure_drops_the_child_and_restarts() {
    let mut c = Controller::new();
    c.next_directive(false);
    c.on_spawn_result(Some(5));
    let step = c.on_child_poll(ChildEvent::PollFailed, false);
    assert_eq!(step, PollStep { join_readers: true, delay_ms: RESTART_DELAY_MS });
    assert_eq!(c.next_directive(false), Directive::SpawnChild);
}

#[test]
fn supervising_echo_produces_the_expected_log_messages() {
    // The loop's decisions and messages for one run of `echo hello`, at the
    // model level: spawn, record the PID, capture the output, record the
    // exit, and restart after the fixed delay.
    let mut c = Controller::new();
    let mut log: Vec<String> = Vec::new();

    assert_eq!(c.next_directive(false), Directive::SpawnChild);
    log.push(start_message("echo", &vec![String::from("hello")]));
    assert_eq!(c.on_spawn_result(Some(4242)), 0);
    log.push(pid_message(4242));
    log.push(stdout_line("hello"));
    let step = c.on_child_poll(ChildEvent::Exited { success: true, code: 0 }, false);
    log.push(exit_message(true, 0));
    assert_eq!(step.delay_ms, RESTART_DELAY_MS);
    assert!(step.join_readers);
    assert_eq!(c.next_directive(false), Directive::SpawnChild);

    assert_eq!(
        log,
        vec![
            String::from("Starting process: echo hello"),
            String::from("Process started, PID: 4242"),
            String::from("[stdout] hello"),
            String::from("Process finished successfully with code 0"),
        ]
    );
}

#[test]
fn command_channel_holds_one_command() {
    let mut ch = CommandChannel::new();
    assert_eq!(ch.get_command(), None);
    ch.put_command(SupervisorCommand::Leave);
    assert_eq!(ch.get_command(), Some(SupervisorCommand::Leave));
    assert_eq!(ch.get_command(), None);
}
