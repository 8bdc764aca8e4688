//! Running external commands: what to run, and the life of a started process.
use vstd::prelude::*;

verus! {

/// A command as a script describes it.
pub struct CommandRequest {
    /// A shell command line, run by `sh -c`, or by `cmd /C` where `cmd_shell` is set.
    pub shell: Option<String>,
    /// Whether shell command lines go to `cmd /C` (on Windows) rather than `sh -c`.
    pub cmd_shell: bool,
    /// The program and its arguments, used when there is no shell command line.
    pub args: Vec<String>,
    pub current_directory: Option<String>,
    pub env: Vec<(String, String)>,
    /// Text written to the process's standard input.
    pub stdin: Option<String>,
    pub capture_stdout: Option<bool>,
    pub capture_stderr: Option<bool>,
}

/// Where the standard error of a process goes.
#[derive(Debug, Clone, Copy, PartialEq, Eq, Structural)]
pub enum StderrMode {
    Piped,
    Inherit,
}

/// What to start.
pub struct CommandPlan {
    pub program: String,
    pub args: Vec<String>,
    pub current_directory: Option<String>,
    pub env: Vec<(String, String)>,
    /// Text for a piped standard input; with none, standard input is empty.
    pub stdin: Option<String>,
    /// Standard output piped and kept, or thrown away.
    pub stdout_piped: bool,
    pub stderr: StderrMode,
}

/// Why a process operation failed.
#[derive(Debug, PartialEq, Eq)]
pub enum ProcessError {
    NoCommandArguments,
    AlreadyAwaited,
    TerminatedBySignal,
    WrongStatus(i32),
    StdoutNotCaptured,
    StderrNotCaptured,
    /// Starting, waiting for or talking to the process failed; the message.
    Io(String),
}

/// What `parse_command_value` makes of a request with at least one way to name the program.
pub open spec fn plan_matches(req: CommandRequest, plan: CommandPlan) -> bool {
    &&& match req.shell {
        Some(cmd) => plan.args@.len() == 2 && plan.args@[1]@ == cmd@ && if req.cmd_shell {
            plan.program@ == "cmd"@ && plan.args@[0]@ == "/C"@
        } else {
            plan.program@ == "sh"@ && plan.args@[0]@ == "-c"@
        },
        None => plan.program@ == req.args@[0]@ && plan.args@ == req.args@.drop_first(),
    }
    &&& plan.current_directory == req.current_directory
    &&& plan.env == req.env
    &&& plan.stdin == req.stdin
    &&& plan.stdout_piped == (req.capture_stdout == Some(true))
    &&& plan.stderr == (if req.capture_stderr == Some(true) {
        StderrMode::Piped
    } else {
        StderrMode::Inherit
    })
}

/// The process to start for a request: a shell command line runs under `sh -c` (or
/// `cmd /C`), otherwise
/// the first argument names the program; a request with neither is refused.
pub fn parse_command_value(req: CommandRequest) -> (r: Result<CommandPlan, ProcessError>)
    ensures
        r is Err <==> (req.shell is None && req.args@.len() == 0),
        r matches Err(e) ==> e == ProcessError::NoCommandArguments,
        r matches Ok(p) ==> plan_matches(req, p),
        r matches Ok(p) ==> p.env@ == req.env@,
        r matches Ok(p) ==> p.current_directory == req.current_directory,
        r matches Ok(p) ==> p.stdin == req.stdin,
{
    let ghost orig = req;
    let CommandRequest {
        shell,
        cmd_shell,
        args,
        current_directory,
        env,
        stdin,
        capture_stdout,
        capture_stderr,
    } = req;
    let (program, rest) = match shell {
        Some(cmd) => {
            let mut a: Vec<String> = Vec::new();
            if cmd_shell {
                a.push("/C".to_owned());
                a.push(cmd);
                ("cmd".to_owned(), a)
            } else {
                a.push("-c".to_owned());
                a.push(cmd);
                ("sh".to_owned(), a)
            }
        },
        None => {
            if args.len() == 0 {
                return Err(ProcessError::NoCommandArguments);
            }
            let mut args = args;
            let program = args.remove(0);
            (program, args)
        },
    };
    let stdout_piped = match capture_stdout {
        Some(true) => true,
        _ => false,
    };
    let stderr = match capture_stderr {
        Some(true) => StderrMode::Piped,
        _ => StderrMode::Inherit,
    };
    let plan = CommandPlan {
        program,
        args: rest,
        current_directory,
        env,
        stdin,
        stdout_piped,
        stderr,
    };
    Ok(plan)
}

/// A plan made for a request keeps the request's environment pair by pair, its working
/// directory and its standard input; its standard output is piped exactly when capture was
/// asked for, and so is its standard error. A shell line is handed to the shell whole as
/// its last argument; otherwise the first argument names the program and the rest follow
/// in order.
pub proof fn law_plan_keeps_request(req: CommandRequest, plan: CommandPlan)
    requires
        req.shell is Some || req.args@.len() > 0,
        plan_matches(req, plan),
    ensures
        plan.env@.len() == req.env@.len(),
        forall|i: int|
            0 <= i < req.env@.len() ==> (#[trigger] plan.env@[i]).0@ == req.env@[i].0@
                && plan.env@[i].1@ == req.env@[i].1@,
        plan.current_directory == req.current_directory,
        plan.stdin == req.stdin,
        plan.stdout_piped <==> req.capture_stdout == Some(true),
        plan.stderr == StderrMode::Piped <==> req.capture_stderr == Some(true),
        req.shell matches Some(cmd) ==> plan.args@.len() == 2 && plan.args@[1]@ == cmd@,
        req.shell is None ==> plan.program@ == req.args@[0]@ && plan.args@.len() + 1
            == req.args@.len() && forall|i: int|
            0 <= i < plan.args@.len() ==> (#[trigger] plan.args@[i])@ == req.args@[i + 1]@,
{
    if req.shell is None {
        assert forall|i: int| 0 <= i < plan.args@.len() implies (#[trigger] plan.args@[i])@
            == req.args@[i + 1]@ by {
            assert(plan.args@[i] == req.args@.drop_first()[i]);
        }
    }
}

/// The plan with standard output piped, as `run_output` needs it.
pub fn capture_stdout(plan: CommandPlan) -> (r: CommandPlan)
    ensures
        r == (CommandPlan { stdout_piped: true, ..plan }),
{
    CommandPlan { stdout_piped: true, ..plan }
}

/// Where a started process is in its life.
#[derive(Debug, Clone, Copy, PartialEq, Eq, Structural)]
pub enum ProcessState {
    Running,
    Waited,
}

/// A started process, as far as the decisions about it go.
pub struct LuaProcess {
    pub state: ProcessState,
    pub stdout_captured: bool,
    pub stderr_captured: bool,
}

/// A process that has ended.
pub struct LuaCompletedProcess {
    /// Its exit code; none when a signal ended it.
    pub code: Option<i32>,
    pub stdout: Option<Vec<u8>>,
    pub stderr: Option<Vec<u8>>,
}

impl LuaProcess {
    /// A process just started.
    pub fn new(stdout_captured: bool, stderr_captured: bool) -> (p: LuaProcess)
        ensures
            p.state == ProcessState::Running,
            p.stdout_captured == stdout_captured,
            p.stderr_captured == stderr_captured,
    {
        LuaProcess { state: ProcessState::Running, stdout_captured, stderr_captured }
    }

    /// Whether the process may be asked if it has ended: not once it has been waited for.
    pub fn check_is_completed(&self) -> (r: Result<(), ProcessError>)
        ensures
            r is Ok <==> self.state == ProcessState::Running,
            r matches Err(e) ==> e == ProcessError::AlreadyAwaited,
    {
        match self.state {
            ProcessState::Running => Ok(()),
            ProcessState::Waited => Err(ProcessError::AlreadyAwaited),
        }
    }

    /// Whether the process may be waited for: only once.
    pub fn begin_wait(&self) -> (r: Result<(), ProcessError>)
        ensures
            r is Ok <==> self.state == ProcessState::Running,
            r matches Err(e) ==> e == ProcessError::AlreadyAwaited,
    {
        self.check_is_completed()
    }

    /// The outcome of waiting for a running process: its exit code and what it wrote, or the
    /// error of waiting. Only a successful wait ends the process's life; captured output is
    /// handed over only where it was captured.
    pub fn end_wait(
        &mut self,
        outcome: Result<Option<i32>, String>,
        stdout: Vec<u8>,
        stderr: Vec<u8>,
    ) -> (r: Result<LuaCompletedProcess, ProcessError>)
        requires
            old(self).state == ProcessState::Running,
        ensures
            r is Ok <==> outcome is Ok,
            r is Ok ==> final(self).state == ProcessState::Waited,
            r is Err ==> final(self).state == ProcessState::Running,
            final(self).stdout_captured == old(self).stdout_captured,
            final(self).stderr_captured == old(self).stderr_captured,
            outcome matches Err(m) ==> r == Err::<LuaCompletedProcess, ProcessError>(
                ProcessError::Io(m),
            ),
            r matches Ok(c) ==> {
                &&& outcome == Ok::<Option<i32>, String>(c.code)
                &&& c.stdout is Some <==> old(self).stdout_captured
                &&& c.stderr is Some <==> old(self).stderr_captured
                &&& c.stdout matches Some(v) ==> v@ == stdout@
                &&& c.stderr matches Some(v) ==> v@ == stderr@
            },
    {
        match outcome {
            Err(m) => Err(ProcessError::Io(m)),
            Ok(code) => {
                self.state = ProcessState::Waited;
                let out = if self.stdout_captured {
                    Some(stdout)
                } else {
                    None
                };
                let err = if self.stderr_captured {
                    Some(stderr)
                } else {
                    None
                };
                Ok(LuaCompletedProcess { code, stdout: out, stderr: err })
            },
        }
    }
}

impl LuaCompletedProcess {
    /// The exit code; an error when a signal ended the process.
    pub fn status(&self) -> (r: Result<i32, ProcessError>)
        ensures
            match self.code {
                Some(c) => r == Ok::<i32, ProcessError>(c),
                None => r == Err::<i32, ProcessError>(ProcessError::TerminatedBySignal),
            },
    {
        match self.code {
            Some(c) => Ok(c),
            None => Err(ProcessError::TerminatedBySignal),
        }
    }

    /// Success exactly when the process exited with code 0.
    pub fn check_status(&self) -> (r: Result<(), ProcessError>)
        ensures
            match self.code {
                Some(0) => r is Ok,
                Some(c) => r == Err::<(), ProcessError>(ProcessError::WrongStatus(c)),
                None => r == Err::<(), ProcessError>(ProcessError::TerminatedBySignal),
            },
    {
        match self.code {
            Some(0) => Ok(()),
            Some(c) => Err(ProcessError::WrongStatus(c)),
            None => Err(ProcessError::TerminatedBySignal),
        }
    }

    /// What the process wrote to its standard output, if that was captured.
    pub fn get_stdout(&self) -> (r: Result<&Vec<u8>, ProcessError>)
        ensures
            match self.stdout {
                Some(v) => r matches Ok(w) && w@ == v@,
                None => r == Err::<&Vec<u8>, ProcessError>(ProcessError::StdoutNotCaptured),
            },
    {
        match &self.stdout {
            Some(v) => Ok(v),
            None => Err(ProcessError::StdoutNotCaptured),
        }
    }

    /// What the process wrote to its standard error, if that was captured.
    pub fn get_stderr(&self) -> (r: Result<&Vec<u8>, ProcessError>)
        ensures
            match self.stderr {
                Some(v) => r matches Ok(w) && w@ == v@,
                None => r == Err::<&Vec<u8>, ProcessError>(ProcessError::StderrNotCaptured),
            },
    {
        match &self.stderr {
            Some(v) => Ok(v),
            None => Err(ProcessError::StderrNotCaptured),
        }
    }
}

} // verus!
