use ffprobe::{conclude, decode, Attempt, FFProbeError};

const REPORT: &[u8] = br#"{"streams":[{}],"format":{"duration":"12.5"}}"#;

#[test]
fn exit_code_zero_yields_the_report() {
    let probe = conclude(Attempt::Exited { code: Some(0), stdout: REPORT.to_vec() }).unwrap();
    assert_eq!(probe.streams.len(), 1);
    assert_eq!(probe.format.duration, "12.5");
}

#[test]
fn exit_code_zero_with_no_report_is_a_decode_failure() {
    let out = conclude(Attempt::Exited { code: Some(0), stdout: b"Usage: ffprobe".to_vec() });
    assert!(matches!(out, Err(FFProbeError::Json(_))));
}

#[test]
fn nonzero_exit_code_is_a_process_failure_with_the_code() {
    let out = conclude(Attempt::Exited { code: Some(1), stdout: Vec::new() });
    assert_eq!(out, Err(FFProbeError::Process(Some(1))));
    let out = conclude(Attempt::Exited { code: Some(-11), stdout: Vec::new() });
    assert_eq!(out, Err(FFProbeError::Process(Some(-11))));
}

#[test]
fn a_failed_process_is_not_decoded() {
    let out = conclude(Attempt::Exited { code: Some(2), stdout: REPORT.to_vec() });
    assert_eq!(out, Err(FFProbeError::Process(Some(2))));
}

#[test]
fn a_process_without_exit_code_is_a_process_failure() {
    let out = conclude(Attempt::Exited { code: None, stdout: REPORT.to_vec() });
    assert_eq!(out, Err(FFProbeError::Process(None)));
}

#[test]
fn a_tool_that_cannot_be_started_is_an_io_failure() {
    let word = "No such file or directory (os error 2)".to_string();
    assert_eq!(conclude(Attempt::Failed(word.clone())), Err(FFProbeError::Io(word)));
}

#[test]
fn equal_attempts_are_concluded_alike() {
    let attempts = [
        (Some(0), REPORT.to_vec()),
        (Some(0), b"{".to_vec()),
        (Some(0), br#"{"streams":[]}"#.to_vec()),
        (Some(3), REPORT.to_vec()),
        (None, Vec::new()),
    ];
    for (code, stdout) in attempts {
        let first = conclude(Attempt::Exited { code, stdout: stdout.clone() });
        let second = conclude(Attempt::Exited { code, stdout: stdout.clone() });
        assert_eq!(first, second);
        if code == Some(0) {
            assert_eq!(first, decode(&stdout));
        }
    }
}
