use cricket_ready::label::Label;
use cricket_ready::parser::PredictionResult;
use cricket_ready::failure::Failure;
use cricket_ready::predict::{interpret_run, scratch_path, PredictAction, PredictFlow, ProcessRun};

fn run(success: bool, stdout: &str, stderr: &str) -> Result<ProcessRun, String> {
    Ok(ProcessRun { success, stdout: stdout.as_bytes().to_vec(), stderr: stderr.as_bytes().to_vec() })
}

fn through_flow(r: &Result<ProcessRun, String>) -> Result<PredictionResult, Failure> {
    let mut flow = PredictFlow::start();
    assert_eq!(flow.next_action(), PredictAction::WriteScratch);
    flow.scratch_written(Ok(()));
    assert_eq!(flow.next_action(), PredictAction::RunClassifier);
    flow.classifier_ran(r);
    assert_eq!(flow.next_action(), PredictAction::RemoveScratch);
    flow.scratch_removed();
    assert_eq!(flow.next_action(), PredictAction::Respond);
    flow.into_outcome()
}

#[test]
fn successful_run_gives_prediction() {
    let r = through_flow(&run(true, "Prediction: match_ready; Confidence: 0.87\n", "warning")).unwrap();
    assert_eq!(r.prediction, Some(Label::MatchReady));
    assert_eq!(r.prediction_name(), "match_ready");
    assert_eq!(r.confidence.as_deref(), Some("0.87"));
}

#[test]
fn successful_run_without_result_line() {
    let r = interpret_run(&run(true, "model loaded\n", "")).unwrap();
    assert_eq!(r.prediction_name(), "unknown");
    assert_eq!(r.confidence, None);
}

#[test]
fn failed_run_reports_stderr() {
    let e = through_flow(&run(false, "Prediction: match_ready; Confidence: 0.9", "boom")).unwrap_err();
    assert_eq!(e.status(), 500);
    assert!(e.message().contains("boom"));
    assert_eq!(e.message(), "Prediction failed: boom");
}

#[test]
fn spawn_failure_is_internal() {
    let e = interpret_run(&Err("No such file or directory".to_string())).unwrap_err();
    assert_eq!(e.status(), 500);
    assert_eq!(e.message(), "Failed to execute prediction: No such file or directory");
}

#[test]
fn stdout_decoded_lossily() {
    let r = interpret_run(&Ok(ProcessRun {
        success: true,
        stdout: b"\xffPrediction: not_match_ready; Confidence: 1e-3".to_vec(),
        stderr: vec![],
    }))
    .unwrap();
    assert_eq!(r.prediction, Some(Label::NotMatchReady));
    assert_eq!(r.confidence.as_deref(), Some("1e-3"));
}

#[test]
fn failed_store_still_removes_scratch() {
    let mut flow = PredictFlow::start();
    flow.scratch_written(Err("disk full".to_string()));
    assert_eq!(flow.next_action(), PredictAction::RemoveScratch);
    flow.scratch_removed();
    assert_eq!(flow.next_action(), PredictAction::Respond);
    let e = flow.into_outcome().unwrap_err();
    assert_eq!(e.status(), 500);
    assert_eq!(e.message(), "Failed to write temporary file: disk full");
}

#[test]
fn spawn_failure_still_removes_scratch() {
    let mut flow = PredictFlow::start();
    flow.scratch_written(Ok(()));
    flow.classifier_ran(&Err("denied".to_string()));
    assert_eq!(flow.next_action(), PredictAction::RemoveScratch);
}

#[test]
fn scratch_paths() {
    assert_eq!(scratch_path(1700000000123), "/tmp/cricket_ball_1700000000123.jpg");
    assert_eq!(scratch_path(0), "/tmp/cricket_ball_0.jpg");
    assert_eq!(scratch_path(-42), "/tmp/cricket_ball_-42.jpg");
    assert_eq!(scratch_path(i64::MIN), "/tmp/cricket_ball_-9223372036854775808.jpg");
    assert_ne!(scratch_path(7), scratch_path(8));
}
