use crabsoup::process::{
    capture_stdout, parse_command_value, CommandRequest, LuaCompletedProcess, LuaProcess, ProcessError,
    ProcessState, StderrMode,
};

fn request(shell: Option<&str>, args: &[&str]) -> CommandRequest {
    CommandRequest {
        shell: shell.map(|s| s.to_string()),
        cmd_shell: false,
        args: args.iter().map(|s| s.to_string()).collect(),
        current_directory: None,
        env: Vec::new(),
        stdin: None,
        capture_stdout: None,
        capture_stderr: None,
    }
}

#[test]
fn shell_command_runs_under_sh() {
    let plan = parse_command_value(request(Some("echo hi"), &["ignored"])).unwrap();
    assert_eq!(plan.program, "sh");
    assert_eq!(plan.args, vec!["-c".to_string(), "echo hi".to_string()]);
    assert!(!plan.stdout_piped);
    assert_eq!(plan.stderr, StderrMode::Inherit);
}

#[test]
fn argument_list_names_the_program() {
    let mut req = request(None, &["ls", "-l"]);
    req.capture_stdout = Some(true);
    req.capture_stderr = Some(false);
    req.stdin = Some("in".to_string());
    req.current_directory = Some("dir".to_string());
    let plan = parse_command_value(req).unwrap();
    assert_eq!(plan.program, "ls");
    assert_eq!(plan.args, vec!["-l".to_string()]);
    assert!(plan.stdout_piped);
    assert_eq!(plan.stderr, StderrMode::Inherit);
    assert_eq!(plan.stdin, Some("in".to_string()));
    assert_eq!(plan.current_directory, Some("dir".to_string()));
    let mut req = request(None, &["x"]);
    req.capture_stderr = Some(true);
    let plan = parse_command_value(req).unwrap();
    assert_eq!(plan.stderr, StderrMode::Piped);
    assert!(capture_stdout(plan).stdout_piped);
}

#[test]
fn empty_command_refused() {
    assert!(matches!(parse_command_value(request(None, &[])), Err(ProcessError::NoCommandArguments)));
}

#[test]
fn wait_only_once() {
    let mut p = LuaProcess::new(true, false);
    assert_eq!(p.check_is_completed(), Ok(()));
    assert_eq!(p.begin_wait(), Ok(()));
    let failed = p.end_wait(Err("boom".to_string()), Vec::new(), Vec::new());
    assert!(matches!(failed, Err(ProcessError::Io(m)) if m == "boom"));
    assert_eq!(p.state, ProcessState::Running);
    let done = p.end_wait(Ok(Some(0)), b"out".to_vec(), b"err".to_vec()).unwrap();
    assert_eq!(p.state, ProcessState::Waited);
    assert_eq!(p.begin_wait(), Err(ProcessError::AlreadyAwaited));
    assert_eq!(p.check_is_completed(), Err(ProcessError::AlreadyAwaited));
    assert_eq!(done.get_stdout().unwrap(), &b"out".to_vec());
    assert_eq!(done.get_stderr(), Err(ProcessError::StderrNotCaptured));
}

#[test]
fn completed_status() {
    let ok = LuaCompletedProcess { code: Some(0), stdout: None, stderr: Some(vec![1]) };
    assert_eq!(ok.status(), Ok(0));
    assert_eq!(ok.check_status(), Ok(()));
    assert_eq!(ok.get_stdout(), Err(ProcessError::StdoutNotCaptured));
    assert_eq!(ok.get_stderr().unwrap(), &vec![1]);
    let bad = LuaCompletedProcess { code: Some(3), stdout: None, stderr: None };
    assert_eq!(bad.status(), Ok(3));
    assert_eq!(bad.check_status(), Err(ProcessError::WrongStatus(3)));
    let killed = LuaCompletedProcess { code: None, stdout: None, stderr: None };
    assert_eq!(killed.status(), Err(ProcessError::TerminatedBySignal));
    assert_eq!(killed.check_status(), Err(ProcessError::TerminatedBySignal));
}

#[test]
fn shell_command_runs_under_cmd_where_asked() {
    let mut req = request(Some("dir"), &[]);
    req.cmd_shell = true;
    let plan = parse_command_value(req).unwrap();
    assert_eq!(plan.program, "cmd");
    assert_eq!(plan.args, vec!["/C".to_string(), "dir".to_string()]);
}
