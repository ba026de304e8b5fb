//! The prediction path: where the scratch image goes, the order of the
//! steps around the classifier, and what its run means.
use vstd::prelude::*;
use crate::failure::{Failure, failure_with};
use crate::multipart::{lossy_text, utf8_lossy};
use crate::parser::{
    PredictionResult, Reading, has_recognised_line, parse_output, parse_prediction_output,
    unrecognised_output_reads_default,
};
use crate::label::Label;
use crate::text::{decimal, push_decimal};

verus! {

/// The scratch file of one request.
pub open spec fn scratch_path_text(request_id: i64) -> Seq<char> {
    "/tmp/cricket_ball_"@ + decimal(request_id as int) + ".jpg"@
}

/// The scratch file of one request: no two requests share one.
pub fn scratch_path(request_id: i64) -> (r: String)
    ensures
        r@ == scratch_path_text(request_id),
{
    let mut out = String::from_str("/tmp/cricket_ball_");
    push_decimal(&mut out, request_id);
    out.append(".jpg");
    out
}

/// What the classifier process left behind.
#[derive(Debug)]
pub struct ProcessRun {
    /// Whether it exited with status 0.
    pub success: bool,
    pub stdout: Vec<u8>,
    pub stderr: Vec<u8>,
}

/// An answer as the client sees it: a reading, or a status and a message.
pub type Answer = Result<Reading, (u16, Seq<char>)>;

pub open spec fn answer_of(o: Result<PredictionResult, Failure>) -> Answer {
    match o {
        Ok(res) => Ok(res@),
        Err(f) => Err((f.spec_status(), f.spec_message())),
    }
}

/// The answer owed for a classifier run.
pub open spec fn run_answer(run: Result<ProcessRun, String>) -> Answer {
    match run {
        Err(e) => Err((500u16, "Failed to execute prediction: "@ + e@)),
        Ok(p) => if p.success {
            Ok(parse_output(utf8_lossy(p.stdout@)))
        } else {
            Err((500u16, "Prediction failed: "@ + utf8_lossy(p.stderr@)))
        },
    }
}

/// The answer to a classifier run: `run` is the captured process, or the
/// reason it could not be started.
pub fn interpret_run(run: &Result<ProcessRun, String>) -> (r: Result<PredictionResult, Failure>)
    ensures
        answer_of(r) == run_answer(*run),
{
    match run {
        Err(e) => Err(failure_with(false, "Failed to execute prediction: ", e.as_str())),
        Ok(p) => {
            if p.success {
                let out = lossy_text(p.stdout.as_slice());
                Ok(parse_prediction_output(out.as_str()))
            } else {
                let err = lossy_text(p.stderr.as_slice());
                Err(failure_with(false, "Prediction failed: ", err.as_str()))
            }
        },
    }
}

/// A classifier that exits successfully without a line that gives a label
/// or a confidence yields the prediction `unknown` with confidence `0.0`.
pub proof fn unrecognised_output_answers_default(p: ProcessRun)
    requires
        p.success,
        !has_recognised_line(utf8_lossy(p.stdout@)),
    ensures
        run_answer(Ok(p)) == Ok::<Reading, (u16, Seq<char>)>((None::<Label>, None::<Seq<char>>)),
{
    unrecognised_output_reads_default(utf8_lossy(p.stdout@));
}

/// The next thing the caller must do for a prediction request.
#[derive(Clone, Copy, Debug, PartialEq, Eq, Structural)]
pub enum PredictAction {
    /// Write the image to the scratch path.
    WriteScratch,
    /// Run the classifier on the scratch path.
    RunClassifier,
    /// Remove the scratch file; a failure to do so is only logged.
    RemoveScratch,
    /// Send the outcome.
    Respond,
}

/// The order of the steps of one prediction request. Once the scratch file
/// may exist, every path goes through its removal before the answer is
/// released.
pub struct PredictFlow {
    next: PredictAction,
    outcome: Option<Result<PredictionResult, Failure>>,
}

impl PredictFlow {
    /// The step the caller owes next.
    pub closed spec fn pending(&self) -> PredictAction {
        self.next
    }

    /// Whether an answer has been decided.
    pub closed spec fn decided(&self) -> bool {
        self.outcome is Some
    }

    /// The answer decided so far.
    pub closed spec fn decision(&self) -> Answer {
        answer_of(self.outcome->Some_0)
    }

    pub fn start() -> (r: PredictFlow)
        ensures
            r.pending() == PredictAction::WriteScratch,
            !r.decided(),
    {
        PredictFlow { next: PredictAction::WriteScratch, outcome: None }
    }

    pub fn next_action(&self) -> (r: PredictAction)
        ensures
            r == self.pending(),
    {
        self.next
    }

    /// The scratch write finished: on success the classifier runs, otherwise
    /// the request fails with status 500 once the scratch file is removed.
    pub fn scratch_written(&mut self, result: Result<(), String>)
        requires
            old(self).pending() == PredictAction::WriteScratch,
        ensures
            result is Ok ==> final(self).pending() == PredictAction::RunClassifier,
            result matches Err(e) ==> final(self).pending() == PredictAction::RemoveScratch
                && final(self).decided() && final(self).decision() == Err::<Reading, (u16, Seq<char>)>(
                (500u16, "Failed to write temporary file: "@ + e@),
            ),
    {
        match result {
            Ok(()) => {
                self.next = PredictAction::RunClassifier;
            },
            Err(e) => {
                self.outcome = Some(
                    Err(failure_with(false, "Failed to write temporary file: ", e.as_str())),
                );
                self.next = PredictAction::RemoveScratch;
            },
        }
    }

    /// The classifier run finished, or could not start; either way the
    /// scratch file is removed next.
    pub fn classifier_ran(&mut self, run: &Result<ProcessRun, String>)
        requires
            old(self).pending() == PredictAction::RunClassifier,
        ensures
            final(self).pending() == PredictAction::RemoveScratch,
            final(self).decided(),
            final(self).decision() == run_answer(*run),
    {
        self.outcome = Some(interpret_run(run));
        self.next = PredictAction::RemoveScratch;
    }

    /// The scratch file was removed, or its removal failed and was logged.
    pub fn scratch_removed(&mut self)
        requires
            old(self).pending() == PredictAction::RemoveScratch,
            old(self).decided(),
        ensures
            final(self).pending() == PredictAction::Respond,
            final(self).decided(),
            final(self).decision() == old(self).decision(),
    {
        self.next = PredictAction::Respond;
    }

    /// The answer, released only after the scratch file was dealt with.
    pub fn into_outcome(self) -> (r: Result<PredictionResult, Failure>)
        requires
            self.pending() == PredictAction::Respond,
            self.decided(),
        ensures
            answer_of(r) == self.decision(),
    {
        match self.outcome {
            Some(o) => o,
            None => Err(Failure::Internal(String::new())),
        }
    }
}

} // verus!
