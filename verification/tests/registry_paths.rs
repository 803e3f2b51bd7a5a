use aware::program::{log_path_for, pid_path_for, roster_line, SupervisedProgram};

#[test]
fn log_and_pid_paths_follow_the_naming_scheme() {
    assert_eq!(log_path_for("echo"), "aware_logs/echo.log");
    assert_eq!(pid_path_for("echo"), "aware_pids/echo.pid");
}

#[test]
fn roster_record_has_name_and_path() {
    assert_eq!(
        roster_line("echo", "aware_pids/echo.pid"),
        "echo:aware_pids/echo.pid\n"
    );
}

#[test]
fn descriptor_holds_the_derived_paths() {
    let p = SupervisedProgram::new(
        String::from("/bin/echo"),
        String::from("echo"),
        vec![String::from("hello")],
    );
    assert_eq!(p.name, "/bin/echo");
    assert_eq!(p.program_name, "echo");
    assert_eq!(p.args, vec![String::from("hello")]);
    assert_eq!(p.log_path, "aware_logs/echo.log");
    assert_eq!(p.pid_path, "aware_pids/echo.pid");
}

#[test]
fn two_programs_get_independent_files() {
    let a = SupervisedProgram::new(String::from("alpha"), String::from("alpha"), vec![]);
    let b = SupervisedProgram::new(String::from("beta"), String::from("beta"), vec![]);
    assert_ne!(a.log_path, b.log_path);
    assert_ne!(a.pid_path, b.pid_path);
}
