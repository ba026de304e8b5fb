//! Decisions of the multipart decoder. The caller reads the body part by part
//! and chunk by chunk, and reports each step here; the decoder keeps the
//! buffers and says when the request must be refused.
use vstd::prelude::*;
use vstd::utf8::{decode_utf8, valid_utf8};
use crate::failure::{Failure, failure_with};
use crate::text::chars_of;

verus! {

/// The text `String::from_utf8_lossy` makes of `b`.
pub uninterp spec fn utf8_lossy(b: Seq<u8>) -> Seq<char>;

/// Relies on `String::from_utf8_lossy`: it decodes the bytes, putting U+FFFD in
/// place of each invalid sequence, so that valid UTF-8 is decoded exactly.
#[verifier::external_body]
pub(crate) fn lossy_text(b: &[u8]) -> (r: String)
    ensures
        r@ == utf8_lossy(b@),
        valid_utf8(b@) ==> r@ == decode_utf8(b@),
{
    String::from_utf8_lossy(b).into_owned()
}

/// A form field that the decoder accepts.
#[derive(Clone, Copy, Debug, PartialEq, Eq, Structural)]
pub enum Field {
    Image,
    Label,
}

/// The field that a part name selects, if the form admits it.
pub open spec fn field_named(name: Seq<char>, with_label: bool) -> Option<Field> {
    if name == "image"@ {
        Some(Field::Image)
    } else if with_label && name == "label"@ {
        Some(Field::Label)
    } else {
        None
    }
}

/// What the decoder holds.
pub struct FormState {
    pub with_label: bool,
    pub image: Seq<u8>,
    pub label: Option<Seq<u8>>,
    pub current: Option<Field>,
}

/// Streaming decoder for an upload form: the field `image`, and, in the
/// training form, the field `label`. Image parts are concatenated; a later
/// label part replaces an earlier one.
pub struct FormDecoder {
    with_label: bool,
    image: Vec<u8>,
    label: Option<Vec<u8>>,
    current: Option<Field>,
}

impl View for FormDecoder {
    type V = FormState;

    closed spec fn view(&self) -> FormState {
        FormState {
            with_label: self.with_label,
            image: self.image@,
            label: match self.label {
                Some(l) => Some(l@),
                None => None,
            },
            current: self.current,
        }
    }
}

fn append_bytes(buf: &mut Vec<u8>, data: &[u8])
    ensures
        final(buf)@ == old(buf)@ + data@,
{
    let ghost start = buf@;
    let mut i: usize = 0;
    while i < data.len()
        invariant
            i <= data@.len(),
            buf@ == start + data@.subrange(0, i as int),
        decreases data@.len() - i,
    {
        buf.push(data[i]);
        assert(buf@ =~= start + data@.subrange(0, i + 1));
        i = i + 1;
    }
    assert(data@.subrange(0, i as int) =~= data@);
}

impl FormDecoder {
    /// A decoder for the prediction form, which has the `image` field only.
    pub fn for_predict() -> (r: FormDecoder)
        ensures
            r@ == (FormState { with_label: false, image: seq![], label: None, current: None }),
    {
        FormDecoder { with_label: false, image: Vec::new(), label: None, current: None }
    }

    /// A decoder for the training form: `image` and an optional `label`.
    pub fn for_training() -> (r: FormDecoder)
        ensures
            r@ == (FormState { with_label: true, image: seq![], label: None, current: None }),
    {
        FormDecoder { with_label: true, image: Vec::new(), label: None, current: None }
    }

    /// A new part named `name` begins. An unknown name refuses the request.
    pub fn begin_field(&mut self, name: &str) -> (r: Result<(), Failure>)
        ensures
            field_named(name@, old(self)@.with_label) is None ==> {
                &&& r is Err
                &&& r->Err_0.spec_status() == 400
                &&& r->Err_0.spec_message() == "Unexpected field: "@ + name@
                &&& final(self)@ == old(self)@
            },
            field_named(name@, old(self)@.with_label) matches Some(f) ==> {
                &&& r is Ok
                &&& final(self)@.with_label == old(self)@.with_label
                &&& final(self)@.image == old(self)@.image
                &&& final(self)@.current == Some(f)
                &&& final(self)@.label == if f == Field::Label {
                    Some(Seq::<u8>::empty())
                } else {
                    old(self)@.label
                }
            },
    {
        let v = chars_of(name);
        let n: usize = v.len();
        assert(v@.subrange(0, n as int) =~= name@);
        if crate::text::range_equals(&v, 0, n, "image") {
            self.current = Some(Field::Image);
            Ok(())
        } else if self.with_label && crate::text::range_equals(&v, 0, n, "label") {
            self.current = Some(Field::Label);
            self.label = Some(Vec::new());
            assert(self.label->Some_0@ =~= Seq::<u8>::empty());
            Ok(())
        } else {
            Err(failure_with(true, "Unexpected field: ", name))
        }
    }

    /// A chunk of the current part arrived.
    pub fn push_chunk(&mut self, data: &[u8])
        requires
            old(self)@.current is Some,
        ensures
            final(self)@.with_label == old(self)@.with_label,
            final(self)@.current == old(self)@.current,
            old(self)@.current == Some(Field::Image) ==> final(self)@.image == old(self)@.image
                + data@ && final(self)@.label == old(self)@.label,
            old(self)@.current == Some(Field::Label) ==> final(self)@.image == old(self)@.image
                && final(self)@.label == Some(
                match old(self)@.label {
                    Some(l) => l,
                    None => Seq::<u8>::empty(),
                } + data@,
            ),
    {
        match self.current {
            Some(Field::Image) => {
                append_bytes(&mut self.image, data);
            },
            _ => {
                let mut buf = match self.label.take() {
                    Some(b) => b,
                    None => Vec::new(),
                };
                append_bytes(&mut buf, data);
                self.label = Some(buf);
            },
        }
    }

    /// The body is exhausted. The image must not be empty; the label, if one
    /// came, is decoded as UTF-8 with invalid sequences replaced.
    pub fn finish(self) -> (r: Result<(Vec<u8>, Option<String>), Failure>)
        ensures
            self@.image.len() == 0 <==> r is Err,
            r matches Err(e) ==> e.spec_status() == 400 && e.spec_message()
                == "No image data received"@,
            r matches Ok((image, label)) ==> {
                &&& image@ == self@.image
                &&& match self@.label {
                    Some(l) => label matches Some(t) && t@ == utf8_lossy(l),
                    None => label is None,
                }
            },
    {
        if self.image.len() == 0 {
            return Err(Failure::BadRequest(String::from_str("No image data received")));
        }
        let label = match self.label {
            Some(l) => Some(lossy_text(l.as_slice())),
            None => None,
        };
        Ok((self.image, label))
    }
}

/// The failure for a chunk that could not be read: a transport fault.
pub fn read_failure(detail: &str) -> (r: Failure)
    ensures
        r.spec_status() == 500,
        r.spec_message() == "Read error: "@ + detail@,
{
    failure_with(false, "Read error: ", detail)
}

/// The failure for a malformed multipart frame.
pub fn frame_failure(detail: &str) -> (r: Failure)
    ensures
        r.spec_status() == 400,
        r.spec_message() == "Multipart error: "@ + detail@,
{
    failure_with(true, "Multipart error: ", detail)
}

} // verus!
