use dirmux::exec::CommandRunner;
use dirmux::OperationError;

#[test]
fn echo_hi() {
    let runner = CommandRunner { cmd: vec![String::from("echo"), String::from("hi")] };
    let inv = runner.invocation(&String::from("/tmp")).unwrap();
    assert_eq!(inv.program, "echo");
    assert_eq!(inv.args, vec![String::from("hi")]);
    assert_eq!(inv.dir, "/tmp");
    let out = CommandRunner::finish(String::from("/tmp"), Ok((b"hi\n".to_vec(), vec![]))).unwrap();
    assert_eq!(out.output, "hi\n");
    assert_eq!(out.error, "");
    assert_eq!(out.dir, "/tmp");
}

#[test]
fn empty_command_is_missing_command() {
    let runner = CommandRunner { cmd: vec![] };
    let r = runner.invocation(&String::from("/tmp"));
    assert_eq!(r, Err(OperationError::MissingCommand(String::from("/tmp"))));
    assert_eq!(r.unwrap_err().message(), "No command provided for dir: /tmp");
}

#[test]
fn spawn_failure_is_execution_error() {
    let r = CommandRunner::finish(String::from("/tmp"), Err(String::from("No such file or directory")));
    assert_eq!(r, Err(OperationError::Execution(String::from("/tmp"), String::from("No such file or directory"))));
    assert_eq!(r.unwrap_err().message(), "Processing failed for directory: /tmp: No such file or directory");
}

#[test]
fn undecodable_output_is_execution_error() {
    let r = CommandRunner::finish(String::from("/tmp"), Ok((vec![0xff, 0xfe], vec![])));
    assert!(matches!(r, Err(OperationError::Execution(ref d, _)) if d == "/tmp"));
    let r = CommandRunner::finish(String::from("/tmp"), Ok((vec![], vec![0xc3])));
    assert!(matches!(r, Err(OperationError::Execution(ref d, _)) if d == "/tmp"));
}

#[test]
fn multibyte_output_is_decoded() {
    let out = CommandRunner::finish(String::from("/d"), Ok(("é\n".as_bytes().to_vec(), "warn".as_bytes().to_vec())))
        .unwrap();
    assert_eq!(out.output, "é\n");
    assert_eq!(out.error, "warn");
}
