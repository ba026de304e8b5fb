use cricket_ready::label::{parse_label, Label};
use cricket_ready::parser::parse_prediction_output;

fn read(text: &str) -> (Option<Label>, Option<String>) {
    let r = parse_prediction_output(text);
    (r.prediction, r.confidence)
}

#[test]
fn reads_well_formed_line() {
    let (p, c) = read("Prediction: match_ready; Confidence: 0.87");
    assert_eq!(p, Some(Label::MatchReady));
    assert_eq!(c.as_deref(), Some("0.87"));
}

#[test]
fn unrecognised_output_gives_default() {
    let r = parse_prediction_output("loading model...\nall done\n");
    assert_eq!(r.prediction, None);
    assert_eq!(r.confidence, None);
    assert_eq!(r.prediction_name(), "unknown");
}

#[test]
fn empty_output_gives_default() {
    assert_eq!(read(""), (None, None));
}

#[test]
fn later_line_wins() {
    let text = "Prediction: match_ready; Confidence: 0.1000\nPrediction: not_match_ready; Confidence: 0.9000\n";
    let (p, c) = read(text);
    assert_eq!(p, Some(Label::NotMatchReady));
    assert_eq!(c.as_deref(), Some("0.9000"));
}

#[test]
fn invalid_parts_keep_earlier_values() {
    let text = "Prediction: match_ready; Confidence: 0.5\nPrediction: sideways; Confidence: high\n";
    let (p, c) = read(text);
    assert_eq!(p, Some(Label::MatchReady));
    assert_eq!(c.as_deref(), Some("0.5"));
}

#[test]
fn line_needs_both_markers() {
    assert_eq!(read("Prediction: match_ready;\nConfidence: 0.3\n"), (None, None));
}

#[test]
fn tolerates_whitespace_and_crlf() {
    let (p, c) = read("noise\r\nPrediction:   not_match_ready  ; Confidence:   0.25 \r\n");
    assert_eq!(p, Some(Label::NotMatchReady));
    assert_eq!(c.as_deref(), Some("0.25"));
}

#[test]
fn label_needs_semicolon() {
    let (p, c) = read("Prediction: match_ready Confidence: 0.4");
    assert_eq!(p, None);
    assert_eq!(c.as_deref(), Some("0.4"));
}

#[test]
fn number_literal_forms() {
    for ok in ["1", "+1", "-0.5", ".5", "5.", "1e5", "1E-5", "2.5e+3", "inf", "-Infinity", "NaN"] {
        let text = format!("Prediction: match_ready; Confidence: {}", ok);
        assert_eq!(read(&text).1.as_deref(), Some(ok), "{}", ok);
        assert!(ok.parse::<f64>().is_ok());
    }
    for bad in [".", "e5", "1e", "1e+", "1.2.3", "0x10", "--1", "abc", "1 2", "infinit"] {
        let text = format!("Prediction: match_ready; Confidence: {}", bad);
        assert_eq!(read(&text).1, None, "{}", bad);
        assert!(bad.parse::<f64>().is_err());
    }
}

#[test]
fn parsing_twice_agrees() {
    let text = "x\nPrediction: not_match_ready; Confidence: 0.6543\ny";
    assert_eq!(read(text), read(text));
}

#[test]
fn label_names() {
    assert_eq!(parse_label("match_ready"), Some(Label::MatchReady));
    assert_eq!(parse_label("not_match_ready"), Some(Label::NotMatchReady));
    assert_eq!(parse_label("sideways"), None);
    assert_eq!(parse_label(" match_ready"), None);
    assert_eq!(Label::NotMatchReady.as_str(), "not_match_ready");
}

#[test]
fn marked_line_with_nothing_readable_gives_default() {
    assert_eq!(read("Prediction: sideways; Confidence: high\nPrediction: ;Confidence: \n"), (None, None));
}
