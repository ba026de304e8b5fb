//! The two classes an image can be filed under.
use vstd::prelude::*;
use crate::text::{chars_of, range_equals};

verus! {

/// A training or prediction class.
#[derive(Clone, Copy, Debug, PartialEq, Eq, Structural)]
pub enum Label {
    MatchReady,
    NotMatchReady,
}

/// The label whose name is exactly `s`, if any.
pub open spec fn label_named(s: Seq<char>) -> Option<Label> {
    if s == "match_ready"@ {
        Some(Label::MatchReady)
    } else if s == "not_match_ready"@ {
        Some(Label::NotMatchReady)
    } else {
        None
    }
}

impl Label {
    /// The wire name of the label.
    pub open spec fn name(self) -> Seq<char> {
        match self {
            Label::MatchReady => "match_ready"@,
            Label::NotMatchReady => "not_match_ready"@,
        }
    }

    pub fn as_str(&self) -> (r: &'static str)
        ensures
            r@ == self.name(),
    {
        match self {
            Label::MatchReady => "match_ready",
            Label::NotMatchReady => "not_match_ready",
        }
    }
}

/// The label named by the characters `v[lo..hi]`, if any.
pub fn label_in_range(v: &Vec<char>, lo: usize, hi: usize) -> (r: Option<Label>)
    requires
        lo <= hi <= v@.len(),
    ensures
        r == label_named(v@.subrange(lo as int, hi as int)),
{
    if range_equals(v, lo, hi, "match_ready") {
        Some(Label::MatchReady)
    } else if range_equals(v, lo, hi, "not_match_ready") {
        Some(Label::NotMatchReady)
    } else {
        None
    }
}

/// The label named exactly by `s`; any other text names none.
pub fn parse_label(s: &str) -> (r: Option<Label>)
    ensures
        r == label_named(s@),
{
    let v = chars_of(s);
    assert(v@.subrange(0, v@.len() as int) =~= s@);
    label_in_range(&v, 0, v.len())
}

} // verus!
