//! Reading a typed prediction out of the classifier's text output.
//!
//! The output is read line by line; a line counts only if it holds both a
//! `Prediction:` and a `Confidence:` marker. From such a line the text between
//! `Prediction: ` and the next `;`, trimmed, is taken as the label when it names
//! one, and the text after `Confidence: `, trimmed, is taken as the confidence
//! when it is a number literal. A later line overrides what an earlier one set;
//! a part that does not read leaves the earlier value in place.
//!
//! Lines are split at `\n`. A `\r` before it needs no handling: it can only
//! stand at the end of a line, where trimming removes it.
use vstd::prelude::*;
use crate::label::{Label, label_named, label_in_range};
use crate::numeral::{is_number_literal, number_literal_range};
use crate::text::{chars_of, find, find_in, trim, trim_range};

verus! {

/// What the parser has gathered: the label, and the confidence literal.
pub type Reading = (Option<Label>, Option<Seq<char>>);

/// The outcome of reading the classifier's output. `None` stands for the
/// default: the prediction `unknown`, or the confidence `0.0`.
#[derive(Debug)]
pub struct PredictionResult {
    pub prediction: Option<Label>,
    /// A literal that parses as a 64-bit binary floating-point number.
    pub confidence: Option<String>,
}

impl View for PredictionResult {
    type V = Reading;

    open spec fn view(&self) -> Reading {
        (
            self.prediction,
            match self.confidence {
                Some(c) => Some(c@),
                None => None,
            },
        )
    }
}

impl PredictionResult {
    /// The wire name of the prediction: a label's name, or `unknown`.
    pub fn prediction_name(&self) -> (r: &'static str)
        ensures
            r@ == match self.prediction {
                Some(l) => l.name(),
                None => "unknown"@,
            },
    {
        match self.prediction {
            Some(l) => l.as_str(),
            None => "unknown",
        }
    }
}

/// The label that a counted line sets, given the one set before it.
pub open spec fn prediction_after(prior: Option<Label>, line: Seq<char>) -> Option<Label> {
    match find(line, "Prediction: "@) {
        Some(k) => {
            let after = line.subrange(k + "Prediction: "@.len(), line.len() as int);
            match find(after, ";"@) {
                Some(q) => match label_named(trim(after.subrange(0, q))) {
                    Some(l) => Some(l),
                    None => prior,
                },
                None => prior,
            }
        },
        None => prior,
    }
}

/// The confidence that a counted line sets, given the one set before it.
pub open spec fn confidence_after(prior: Option<Seq<char>>, line: Seq<char>) -> Option<Seq<char>> {
    match find(line, "Confidence: "@) {
        Some(k) => {
            let t = trim(line.subrange(k + "Confidence: "@.len(), line.len() as int));
            if is_number_literal(t) {
                Some(t)
            } else {
                prior
            }
        },
        None => prior,
    }
}

/// Whether a line holds both markers, so that it counts.
pub open spec fn marked(line: Seq<char>) -> bool {
    find(line, "Prediction:"@) is Some && find(line, "Confidence:"@) is Some
}

/// The effect of one line on what has been gathered.
pub open spec fn read_line(acc: Reading, line: Seq<char>) -> Reading {
    if marked(line) {
        (prediction_after(acc.0, line), confidence_after(acc.1, line))
    } else {
        acc
    }
}

/// Index of the first `\n` in `s` at or after `i`, or the length of `s`.
pub open spec fn line_end(s: Seq<char>, i: int) -> int
    decreases s.len() - i,
{
    if i < 0 || i >= s.len() || s[i] == '\n' {
        i
    } else {
        line_end(s, i + 1)
    }
}

proof fn lemma_line_end_bounds(s: Seq<char>, i: int)
    requires
        0 <= i <= s.len(),
    ensures
        i <= line_end(s, i) <= s.len(),
    decreases s.len() - i,
{
    if i < s.len() && s[i] != '\n' {
        lemma_line_end_bounds(s, i + 1);
    }
}

/// Where no `\n` stands in `[i, m)` and `m` is a `\n` or the end, the line
/// from `i` ends at `m`.
proof fn lemma_line_end_at(s: Seq<char>, i: int, m: int)
    requires
        0 <= i <= m <= s.len(),
        forall|k: int| i <= k < m ==> s[k] != '\n',
        m == s.len() || s[m] == '\n',
    ensures
        line_end(s, i) == m,
    decreases m - i,
{
    if i < m {
        lemma_line_end_at(s, i + 1, m);
    }
}

/// The lines of `s`: the pieces between `\n` characters, without an empty
/// piece after a final `\n`.
pub open spec fn lines(s: Seq<char>) -> Seq<Seq<char>>
    decreases s.len(),
    via lines_decreases
{
    if s.len() == 0 {
        seq![]
    } else if line_end(s, 0) >= s.len() {
        seq![s]
    } else {
        seq![s.subrange(0, line_end(s, 0))] + lines(s.subrange(line_end(s, 0) + 1, s.len() as int))
    }
}

#[via_fn]
proof fn lines_decreases(s: Seq<char>) {
    if s.len() > 0 {
        lemma_line_end_bounds(s, 0);
    }
}

/// Reads the lines `ls` in order, each on what the earlier ones gathered.
pub open spec fn read_lines(ls: Seq<Seq<char>>, acc: Reading) -> Reading
    decreases ls.len(),
{
    if ls.len() == 0 {
        acc
    } else {
        read_lines(ls.drop_first(), read_line(acc, ls[0]))
    }
}

/// The reading of a whole output text: its lines read in order from the
/// default.
pub open spec fn parse_output(s: Seq<char>) -> Reading {
    read_lines(lines(s), (None, None))
}

/// Whether the parser takes a label or a confidence from `line` alone.
pub open spec fn recognised(line: Seq<char>) -> bool {
    read_line((None, None), line) != (None::<Label>, None::<Seq<char>>)
}

/// Whether some line of `s` gives a label or a confidence.
pub open spec fn has_recognised_line(s: Seq<char>) -> bool {
    exists|k: int| 0 <= k < lines(s).len() && recognised(#[trigger] lines(s)[k])
}

proof fn lemma_unrecognised_lines(ls: Seq<Seq<char>>)
    requires
        forall|k: int| 0 <= k < ls.len() ==> !recognised(#[trigger] ls[k]),
    ensures
        read_lines(ls, (None, None)) == (None::<Label>, None::<Seq<char>>),
    decreases ls.len(),
{
    if ls.len() > 0 {
        assert(!recognised(ls[0]));
        assert forall|k: int| 0 <= k < ls.drop_first().len() implies !recognised(
            #[trigger] ls.drop_first()[k],
        ) by {
            assert(ls.drop_first()[k] == ls[k + 1]);
        }
        lemma_unrecognised_lines(ls.drop_first());
    }
}

/// An output in which no line gives a label or a confidence reads as the
/// default.
pub proof fn unrecognised_output_reads_default(s: Seq<char>)
    requires
        !has_recognised_line(s),
    ensures
        parse_output(s) == (None::<Label>, None::<Seq<char>>),
{
    lemma_unrecognised_lines(lines(s));
}

/// Splitting off the line that ends at the `\n` at `i`.
proof fn lemma_lines_step(t: Seq<char>, m: int)
    requires
        0 <= m < t.len(),
        forall|k: int| 0 <= k < m ==> t[k] != '\n',
        t[m] == '\n',
    ensures
        lines(t) == seq![t.subrange(0, m)] + lines(t.subrange(m + 1, t.len() as int)),
{
    lemma_line_end_at(t, 0, m);
}

proof fn lemma_lines_last(t: Seq<char>)
    requires
        forall|k: int| 0 <= k < t.len() ==> t[k] != '\n',
    ensures
        t.len() > 0 ==> lines(t) == seq![t],
        t.len() == 0 ==> lines(t) == Seq::<Seq<char>>::empty(),
{
    lemma_line_end_at(t, 0, t.len() as int);
}

proof fn lemma_read_first(x: Seq<char>, rest: Seq<Seq<char>>, acc: Reading)
    ensures
        read_lines(seq![x] + rest, acc) == read_lines(rest, read_line(acc, x)),
{
    assert((seq![x] + rest).drop_first() =~= rest);
    assert((seq![x] + rest)[0] == x);
}

spec fn range_view(v: Seq<char>, c: Option<(usize, usize)>) -> Option<Seq<char>> {
    match c {
        Some((a, b)) => Some(v.subrange(a as int, b as int)),
        None => None,
    }
}

spec fn range_ok(len: nat, c: Option<(usize, usize)>) -> bool {
    match c {
        Some((a, b)) => a <= b <= len,
        None => true,
    }
}

fn read_line_range(
    v: &Vec<char>,
    lo: usize,
    hi: usize,
    prediction: &mut Option<Label>,
    confidence: &mut Option<(usize, usize)>,
)
    requires
        lo <= hi <= v@.len(),
        range_ok(v@.len(), *old(confidence)),
    ensures
        range_ok(v@.len(), *final(confidence)),
        (*final(prediction), range_view(v@, *final(confidence))) == read_line(
            (*old(prediction), range_view(v@, *old(confidence))),
            v@.subrange(lo as int, hi as int),
        ),
{
    let ghost line = v@.subrange(lo as int, hi as int);
    let has_p = find_in(v, lo, hi, "Prediction:");
    let has_c = find_in(v, lo, hi, "Confidence:");
    if has_p.is_none() || has_c.is_none() {
        return;
    }
    match find_in(v, lo, hi, "Prediction: ") {
        Some(k) => {
            let a: usize = k + "Prediction: ".unicode_len();
            let ghost after = line.subrange(k - lo + "Prediction: "@.len(), line.len() as int);
            assert(after =~= v@.subrange(a as int, hi as int));
            match find_in(v, a, hi, ";") {
                Some(q) => {
                    assert(after.subrange(0, q - a) =~= v@.subrange(a as int, q as int));
                    let (x, y) = trim_range(v, a, q);
                    match label_in_range(v, x, y) {
                        Some(l) => {
                            *prediction = Some(l);
                        },
                        None => {},
                    }
                },
                None => {},
            }
        },
        None => {},
    }
    match find_in(v, lo, hi, "Confidence: ") {
        Some(k) => {
            let a: usize = k + "Confidence: ".unicode_len();
            assert(line.subrange(k - lo + "Confidence: "@.len(), line.len() as int)
                =~= v@.subrange(a as int, hi as int));
            let (x, y) = trim_range(v, a, hi);
            if number_literal_range(v, x, y) {
                *confidence = Some((x, y));
            }
        },
        None => {},
    }
}

/// Reads the classifier's output. This never fails: what cannot be read
/// leaves the default in place.
pub fn parse_prediction_output(output: &str) -> (r: PredictionResult)
    ensures
        r@ == parse_output(output@),
{
    let v = chars_of(output);
    let n: usize = v.len();
    let mut prediction: Option<Label> = None;
    let mut confidence: Option<(usize, usize)> = None;
    let mut i: usize = 0;
    let mut start: usize = 0;
    assert(v@.subrange(0, n as int) =~= v@);
    while i < n
        invariant
            n == v@.len(),
            v@ == output@,
            start <= i <= n,
            range_ok(n as nat, confidence),
            forall|k: int| start <= k < i ==> v@[k] != '\n',
            parse_output(v@) == read_lines(
                lines(v@.subrange(start as int, n as int)),
                (prediction, range_view(v@, confidence)),
            ),
        decreases n - i,
    {
        if v[i] == '\n' {
            let ghost t = v@.subrange(start as int, n as int);
            let ghost before = (prediction, range_view(v@, confidence));
            proof {
                lemma_lines_step(t, i - start);
                assert(t.subrange(0, i - start) =~= v@.subrange(start as int, i as int));
                assert(t.subrange(i - start + 1, t.len() as int) =~= v@.subrange(i + 1, n as int));
                lemma_read_first(
                    v@.subrange(start as int, i as int),
                    lines(v@.subrange(i + 1, n as int)),
                    before,
                );
            }
            read_line_range(&v, start, i, &mut prediction, &mut confidence);
            start = i + 1;
        }
        i = i + 1;
    }
    proof {
        lemma_lines_last(v@.subrange(start as int, n as int));
    }
    if start < n {
        let ghost before = (prediction, range_view(v@, confidence));
        proof {
            lemma_read_first(
                v@.subrange(start as int, n as int),
                Seq::<Seq<char>>::empty(),
                before,
            );
            assert(seq![v@.subrange(start as int, n as int)] + Seq::<Seq<char>>::empty()
                =~= seq![v@.subrange(start as int, n as int)]);
        }
        read_line_range(&v, start, n, &mut prediction, &mut confidence);
    }
    let confidence_text = match confidence {
        Some((a, b)) => Some(String::from_str(output.substring_char(a, b))),
        None => None,
    };
    PredictionResult { prediction, confidence: confidence_text }
}

/// The parser keeps no state between calls: two readings of one text agree.
pub proof fn parse_twice_agrees(text: Seq<char>, first: Reading, second: Reading)
    requires
        first == parse_output(text),
        second == parse_output(text),
    ensures
        first == second,
{
}

} // verus!
