use cricket_ready::multipart::{frame_failure, read_failure, FormDecoder};

#[test]
fn empty_image_field_is_refused() {
    let mut d = FormDecoder::for_predict();
    d.begin_field("image").unwrap();
    d.push_chunk(&[]);
    let e = d.finish().unwrap_err();
    assert_eq!(e.status(), 400);
    assert_eq!(e.message(), "No image data received");
}

#[test]
fn form_without_parts_is_refused() {
    let e = FormDecoder::for_training().finish().unwrap_err();
    assert_eq!(e.status(), 400);
    assert_eq!(e.message(), "No image data received");
}

#[test]
fn image_chunks_are_concatenated() {
    let mut d = FormDecoder::for_predict();
    d.begin_field("image").unwrap();
    d.push_chunk(&[1, 2]);
    d.push_chunk(&[3]);
    d.begin_field("image").unwrap();
    d.push_chunk(&[4]);
    let (image, label) = d.finish().unwrap();
    assert_eq!(image, vec![1, 2, 3, 4]);
    assert_eq!(label, None);
}

#[test]
fn unknown_field_is_refused() {
    let mut d = FormDecoder::for_training();
    let e = d.begin_field("caption").unwrap_err();
    assert_eq!(e.status(), 400);
    assert_eq!(e.message(), "Unexpected field: caption");
}

#[test]
fn predict_form_has_no_label() {
    let mut d = FormDecoder::for_predict();
    let e = d.begin_field("label").unwrap_err();
    assert_eq!(e.message(), "Unexpected field: label");
}

#[test]
fn later_label_replaces_earlier() {
    let mut d = FormDecoder::for_training();
    d.begin_field("label").unwrap();
    d.push_chunk(b"match_");
    d.push_chunk(b"ready");
    d.begin_field("image").unwrap();
    d.push_chunk(&[9]);
    d.begin_field("label").unwrap();
    d.push_chunk(b"not_match_ready");
    let (image, label) = d.finish().unwrap();
    assert_eq!(image, vec![9]);
    assert_eq!(label.as_deref(), Some("not_match_ready"));
}

#[test]
fn label_bytes_decoded_lossily() {
    let mut d = FormDecoder::for_training();
    d.begin_field("label").unwrap();
    d.push_chunk(&[b'a', 0xff, b'b']);
    d.begin_field("image").unwrap();
    d.push_chunk(&[1]);
    let (_, label) = d.finish().unwrap();
    assert_eq!(label.as_deref(), Some("a\u{FFFD}b"));
}

#[test]
fn empty_label_field_gives_empty_text() {
    let mut d = FormDecoder::for_training();
    d.begin_field("label").unwrap();
    d.begin_field("image").unwrap();
    d.push_chunk(&[1]);
    let (_, label) = d.finish().unwrap();
    assert_eq!(label.as_deref(), Some(""));
}

#[test]
fn transport_and_frame_failures() {
    let r = read_failure("connection reset");
    assert_eq!(r.status(), 500);
    assert_eq!(r.message(), "Read error: connection reset");
    let f = frame_failure("bad boundary");
    assert_eq!(f.status(), 400);
    assert_eq!(f.message(), "Multipart error: bad boundary");
}
