//! The descriptor of a supervised program and the registry's naming scheme:
//! one log file and one PID file per program name, plus one shared roster
//! file, all derived deterministically from the name.

use vstd::prelude::*;

verus! {

/// Characters of the log file path for a program name.
pub open spec fn log_path_chars(name: Seq<char>) -> Seq<char> {
    "aware_logs/"@ + name + ".log"@
}

/// Characters of the PID file path for a program name.
pub open spec fn pid_path_chars(name: Seq<char>) -> Seq<char> {
    "aware_pids/"@ + name + ".pid"@
}

/// Path of the log file for a program name.
pub fn log_path_for(name: &str) -> (r: String)
    ensures
        r@ == log_path_chars(name@),
{
    let r = String::from_str("aware_logs/").concat(name).concat(".log");
    proof {
        assert(r@ =~= log_path_chars(name@));
    }
    r
}

/// Path of the PID file for a program name.
pub fn pid_path_for(name: &str) -> (r: String)
    ensures
        r@ == pid_path_chars(name@),
{
    let r = String::from_str("aware_pids/").concat(name).concat(".pid");
    proof {
        assert(r@ =~= pid_path_chars(name@));
    }
    r
}

/// Characters of one roster record: the program name, a colon, the PID file
/// path, and a line break.
pub open spec fn roster_line_chars(name: Seq<char>, pid_path: Seq<char>) -> Seq<char> {
    name + ":"@ + pid_path + "\n"@
}

/// One record of the shared roster file.
pub fn roster_line(name: &str, pid_path: &str) -> (r: String)
    ensures
        r@ == roster_line_chars(name@, pid_path@),
{
    let r = String::from_str(name).concat(":").concat(pid_path).concat("\n");
    proof {
        assert(r@ =~= roster_line_chars(name@, pid_path@));
    }
    r
}

/// The immutable descriptor of the one program a supervisor runs: the
/// executable, its arguments, and where its log and PID files live.
pub struct SupervisedProgram {
    /// The executable path or name, as given on the command line.
    pub name: String,
    /// The file name of the executable, used to name the on-disk files.
    pub program_name: String,
    /// The arguments handed to the executable.
    pub args: Vec<String>,
    /// The append-only log file of this supervisor.
    pub log_path: String,
    /// The file holding the supervisor's own PID.
    pub pid_path: String,
}

impl SupervisedProgram {
    /// The log and PID files are the ones the naming scheme assigns to the
    /// program name.
    pub open spec fn wf(&self) -> bool {
        self.log_path@ == log_path_chars(self.program_name@) && self.pid_path@ == pid_path_chars(
            self.program_name@,
        )
    }

    /// Builds the descriptor for one program.
    pub fn new(name: String, program_name: String, args: Vec<String>) -> (r: SupervisedProgram)
        ensures
            r.wf(),
            r.name@ == name@,
            r.program_name@ == program_name@,
            r.args@ == args@,
    {
        let log_path = log_path_for(program_name.as_str());
        let pid_path = pid_path_for(program_name.as_str());
        SupervisedProgram { name, program_name, args, log_path, pid_path }
    }
}

/// Distinct program names never share a log file or a PID file: two
/// supervisors for different programs write to independent files.
pub proof fn lemma_paths_injective(a: Seq<char>, b: Seq<char>)
    requires
        a != b,
    ensures
        log_path_chars(a) != log_path_chars(b),
        pid_path_chars(a) != pid_path_chars(b),
{
    if log_path_chars(a) == log_path_chars(b) {
        assert(log_path_chars(a).len() == "aware_logs/"@.len() + a.len() + ".log"@.len());
        assert(log_path_chars(b).len() == "aware_logs/"@.len() + b.len() + ".log"@.len());
        assert(a.len() == b.len());
        assert forall|i: int| 0 <= i < a.len() implies a[i] == b[i] by {
            let p = "aware_logs/"@;
            assert(log_path_chars(a)[p.len() + i] == a[i]);
            assert(log_path_chars(b)[p.len() + i] == b[i]);
        }
        assert(a =~= b);
    }
    if pid_path_chars(a) == pid_path_chars(b) {
        assert(pid_path_chars(a).len() == "aware_pids/"@.len() + a.len() + ".pid"@.len());
        assert(pid_path_chars(b).len() == "aware_pids/"@.len() + b.len() + ".pid"@.len());
        assert(a.len() == b.len());
        assert forall|i: int| 0 <= i < a.len() implies a[i] == b[i] by {
            let p = "aware_pids/"@;
            assert(pid_path_chars(a)[p.len() + i] == a[i]);
            assert(pid_path_chars(b)[p.len() + i] == b[i]);
        }
        assert(a =~= b);
    }
}

} // verus!
