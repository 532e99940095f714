use tproxy::feat::process::{collect_output, drain_pipe, exited_well, poll_elevated, Poll};

#[test]
fn a_missing_pipe_is_empty() {
    assert_eq!(drain_pipe(None), "");
}

#[test]
fn a_pipe_is_decoded() {
    assert_eq!(drain_pipe(Some(Vec::new())), "");
    assert_eq!(drain_pipe(Some("r\u{e8}gles\n".as_bytes().to_vec())), "r\u{e8}gles\n");
    assert_eq!(drain_pipe(Some(vec![0xf0, 0x9f, 0x90, 0xa7])), "\u{1f427}");
}

#[test]
fn a_pipe_that_is_not_utf8_is_empty() {
    assert_eq!(drain_pipe(Some(vec![0x61, 0xff])), "");
    assert_eq!(drain_pipe(Some(vec![0xed, 0xa0, 0x80])), "");
    assert_eq!(drain_pipe(Some(vec![0x61, 0xc3])), "");
}

#[test]
fn both_pipes_are_collected() {
    let output = collect_output(Some(3), Some(b"out".to_vec()), Some(b"err".to_vec()));
    assert_eq!(output.code, Some(3));
    assert_eq!(output.stdout, b"out");
    assert_eq!(output.stderr, b"err");
    let output = collect_output(None, None, None);
    assert_eq!(output.code, None);
    assert!(output.stdout.is_empty() && output.stderr.is_empty());
}

#[test]
fn bytes_that_are_not_utf8_are_kept() {
    let output = collect_output(Some(1), Some(vec![0xff]), Some(vec![0x61, 0xff]));
    assert_eq!(output.stdout, [0xff]);
    assert_eq!(output.stderr, [0x61, 0xff]);
}

#[test]
fn only_exit_code_zero_is_a_success() {
    assert!(exited_well(Some(0)));
    assert!(!exited_well(Some(1)));
    assert!(!exited_well(Some(-1)));
    assert!(!exited_well(None));
}

#[test]
fn an_exited_command_is_read_however_late() {
    assert_eq!(poll_elevated(true, 0), Poll::Collect);
    assert_eq!(poll_elevated(true, u128::MAX), Poll::Collect);
}

#[test]
fn a_running_command_is_given_up_after_two_minutes() {
    assert_eq!(poll_elevated(false, 0), Poll::Sleep(200));
    assert_eq!(poll_elevated(false, 120_000_000_000), Poll::Sleep(200));
    assert_eq!(poll_elevated(false, 120_000_000_001), Poll::GiveUp);
    assert_eq!(poll_elevated(false, u128::MAX), Poll::GiveUp);
}
