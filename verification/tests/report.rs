use script_pipeline::classifier::{classify, Severity};
use script_pipeline::encoder::encode;
use script_pipeline::report::{
    outcome_of_run, pipeline_outcome, run_report, ExecutionOutcome, PipelineError, RunCapture,
    RunEvent,
};

fn utf16le_with_bom(text: &str) -> Vec<u8> {
    let mut bytes = vec![0xFF, 0xFE];
    for unit in text.encode_utf16() {
        bytes.extend_from_slice(&unit.to_le_bytes());
    }
    bytes
}

#[test]
fn scenario_echo_ok() {
    // script echoes "ok", interpreter exits 0, stdout is plain ASCII
    let payload = encode("WScript.Echo \"ok\"");
    assert_eq!(&payload[..2], &[0xFF, 0xFE]);
    let outcome = outcome_of_run(b"ok\r\n", b"", true, "exit code: 0");
    match outcome {
        ExecutionOutcome::Success(report) => {
            assert_eq!(report, "[Output]\nok");
            let decoded_stdout = script_pipeline::decoder::decode(b"ok\r\n");
            assert_eq!(decoded_stdout, "ok");
            let lines = classify(&decoded_stdout);
            assert_eq!(lines.len(), 1);
            assert_eq!(lines[0].severity, Severity::Okay);
        }
        ExecutionOutcome::Failure(report) => panic!("expected success, got failure: {report}"),
    }
}

#[test]
fn scenario_error_on_stderr() {
    // interpreter exits 1 with BOM-prefixed UTF-16LE stderr
    let stderr = utf16le_with_bom("Error: bad path");
    let outcome = outcome_of_run(b"", &stderr, false, "1");
    match outcome {
        ExecutionOutcome::Failure(report) => {
            assert!(report.contains("[Errors]\nError: bad path"));
            assert_eq!(report, "Exit code: 1\n[Errors]\nError: bad path");
            let lines = classify("Error: bad path");
            assert_eq!(lines[0].severity, Severity::Error);
        }
        ExecutionOutcome::Success(report) => panic!("expected failure, got success: {report}"),
    }
}

#[test]
fn report_holds_both_blocks() {
    let report = run_report(b"out line\r\n", b"err line\r\n");
    assert_eq!(report, "[Output]\nout line\n[Errors]\nerr line");
}

#[test]
fn report_skips_empty_blocks() {
    assert_eq!(run_report(b"", b""), "");
    assert_eq!(run_report(b"only out", b""), "[Output]\nonly out");
    assert_eq!(run_report(b"", b"only err"), "[Errors]\nonly err");
}

#[test]
fn whitespace_only_stream_opens_no_block() {
    assert_eq!(run_report(b"  \r\n", b""), "");
}

#[test]
fn pipeline_create_failure_maps_to_its_error() {
    let report = pipeline_outcome(RunEvent::CreateFailed("disk full".to_string()));
    assert_eq!(
        report.message,
        Err(PipelineError::ArtifactCreateFailed("disk full".to_string()))
    );
    assert!(!report.artifact_created);
    assert_eq!(report.artifact_released, report.artifact_created);
}

#[test]
fn pipeline_write_failure_maps_to_its_error() {
    let report = pipeline_outcome(RunEvent::WriteFailed("device gone".to_string()));
    assert_eq!(
        report.message,
        Err(PipelineError::ArtifactWriteFailed("device gone".to_string()))
    );
    assert!(report.artifact_created && report.artifact_released);
}

#[test]
fn pipeline_launch_failure_maps_to_its_error() {
    // the interpreter binary is absent: a distinct error, and the created
    // artifact is still released
    let report = pipeline_outcome(RunEvent::LaunchFailed("No such file".to_string()));
    assert_eq!(
        report.message,
        Err(PipelineError::LaunchFailed("No such file".to_string()))
    );
    assert!(report.artifact_created && report.artifact_released);
}

#[test]
fn pipeline_completed_run_maps_to_outcome() {
    let capture = RunCapture {
        stdout: b"ok\r\n".to_vec(),
        stderr: Vec::new(),
        exit_ok: true,
        status_text: "exit code: 0".to_string(),
    };
    let report = pipeline_outcome(RunEvent::Ran(capture));
    assert_eq!(
        report.message,
        Ok(ExecutionOutcome::Success("[Output]\nok".to_string()))
    );
    assert!(report.artifact_created && report.artifact_released);
}

#[test]
fn every_pipeline_outcome_releases_what_it_created() {
    let events = [
        RunEvent::CreateFailed("a".to_string()),
        RunEvent::WriteFailed("b".to_string()),
        RunEvent::LaunchFailed("c".to_string()),
        RunEvent::Ran(RunCapture {
            stdout: Vec::new(),
            stderr: Vec::new(),
            exit_ok: false,
            status_text: "1".to_string(),
        }),
    ];
    for event in events {
        let report = pipeline_outcome(event);
        assert_eq!(report.artifact_released, report.artifact_created);
    }
}
