//! The training ingestion path: label validation, where an image is filed,
//! the audit record, and the order of the storage steps.
use vstd::prelude::*;
use chrono::{Datelike, Timelike};
use crate::failure::{Failure, failure_with};
use crate::label::{Label, label_named, parse_label};
use crate::text::{decimal, lemma_underscore_decimal_distinct, padded, push_decimal, push_padded};

verus! {

/// A moment in UTC, broken into calendar fields.
#[derive(Clone, Copy, Debug, PartialEq, Eq, Structural)]
pub struct UtcStamp {
    pub year: i32,
    pub month: u32,
    pub day: u32,
    pub hour: u32,
    pub minute: u32,
    pub second: u32,
    /// Nanoseconds past the second.
    pub nanos: u32,
    /// Milliseconds since the Unix epoch.
    pub epoch_millis: i64,
}

impl UtcStamp {
    pub open spec fn wf(&self) -> bool {
        &&& self.year >= 1970
        &&& 1 <= self.month <= 12
        &&& 1 <= self.day <= 31
        &&& self.hour < 24
        &&& self.minute < 60
        &&& self.second < 60
        &&& self.nanos < 1_000_000_000
        &&& self.epoch_millis >= 0
    }
}

/// A reading of the system clock: time since the Unix epoch.
#[derive(Clone, Copy, Debug, PartialEq, Eq, Structural)]
pub struct Moment {
    pub secs: i64,
    /// Nanoseconds past the second.
    pub nanos: u32,
}

impl Moment {
    pub open spec fn wf(&self) -> bool {
        self.secs >= 0 && self.nanos < 1_000_000_000
    }
}

#[verifier::external_type_specification]
#[verifier::external_body]
pub struct ExSystemTime(std::time::SystemTime);

/// Relies on `std::time::SystemTime::now`: the system clock's current time.
#[verifier::external_body]
fn system_now() -> (r: std::time::SystemTime) {
    std::time::SystemTime::now()
}

/// Relies on `SystemTime::duration_since(UNIX_EPOCH)`: `None` where `t`
/// stands before the epoch; `Duration::subsec_nanos` is under one billion.
#[verifier::external_body]
fn since_epoch(t: &std::time::SystemTime) -> (r: Option<(u64, u32)>)
    ensures
        r matches Some((s, n)) ==> n < 1_000_000_000,
{
    match t.duration_since(std::time::UNIX_EPOCH) {
        Ok(d) => Some((d.as_secs(), d.subsec_nanos())),
        Err(_) => None,
    }
}

/// The calendar fields `chrono::DateTime::from_timestamp` gives a moment.
pub uninterp spec fn calendar_of(secs: int, nanos: nat) -> Option<UtcStamp>;

/// Relies on `chrono::DateTime::from_timestamp` (`None` out of chrono's
/// range) and the getters of `Datelike`, `Timelike` and `timestamp_millis`:
/// months run 1 to 12, days 1 to 31, hours 0 to 23, minutes and seconds 0 to
/// 59; a moment at or after the epoch falls in 1970 or later; the
/// milliseconds are `secs * 1000 + nanos / 1_000_000`.
#[verifier::external_body]
fn utc_fields(secs: i64, nanos: u32) -> (r: Option<UtcStamp>)
    requires
        nanos < 1_000_000_000,
    ensures
        r == calendar_of(secs as int, nanos as nat),
        r matches Some(t) ==> {
            &&& 1 <= t.month <= 12
            &&& 1 <= t.day <= 31
            &&& t.hour < 24
            &&& t.minute < 60
            &&& t.second < 60
            &&& t.nanos == nanos
            &&& t.epoch_millis == secs * 1000 + nanos / 1_000_000
            &&& secs >= 0 ==> t.year >= 1970
        },
{
    match chrono::DateTime::from_timestamp(secs, nanos) {
        Some(t) => Some(UtcStamp {
            year: t.year(),
            month: t.month(),
            day: t.day(),
            hour: t.hour(),
            minute: t.minute(),
            second: t.second(),
            nanos: t.nanosecond(),
            epoch_millis: t.timestamp_millis(),
        }),
        None => None,
    }
}

/// The text `chrono::DateTime::to_rfc3339` makes of a moment.
pub uninterp spec fn rfc3339_text(secs: int, nanos: nat) -> Seq<char>;

/// Relies on `chrono::DateTime::from_timestamp` (`None` out of chrono's
/// range, the same test as in [`utc_fields`]) and `DateTime::to_rfc3339`,
/// which writes a UTC time with the offset `+00:00`.
#[verifier::external_body]
fn rfc3339_of(secs: i64, nanos: u32) -> (r: Option<String>)
    requires
        nanos < 1_000_000_000,
    ensures
        r is Some <==> calendar_of(secs as int, nanos as nat) is Some,
        r matches Some(t) ==> t@ == rfc3339_text(secs as int, nanos as nat) && t@.len() >= 6
            && t@.subrange(t@.len() - 6, t@.len() as int) == "+00:00"@,
{
    match chrono::DateTime::from_timestamp(secs, nanos) {
        Some(t) => Some(t.to_rfc3339()),
        None => None,
    }
}

/// The moment `secs` seconds and `nanos` nanoseconds after the epoch, where
/// the seconds fit an `i64`.
pub fn moment_of(secs: u64, nanos: u32) -> (r: Option<Moment>)
    requires
        nanos < 1_000_000_000,
    ensures
        r == (if secs <= 0x7fff_ffff_ffff_ffff {
            Some(Moment { secs: secs as i64, nanos })
        } else {
            None
        }),
        r matches Some(m) ==> m.wf(),
{
    if secs <= 0x7fff_ffff_ffff_ffff {
        Some(Moment { secs: secs as i64, nanos })
    } else {
        None
    }
}

/// Reads the system clock; `None` where it stands before the epoch or too
/// far after it.
pub fn read_clock() -> (r: Option<Moment>)
    ensures
        r matches Some(m) ==> m.wf(),
{
    let t = system_now();
    match since_epoch(&t) {
        Some((s, n)) => moment_of(s, n),
        None => None,
    }
}

/// The calendar fields of a moment, where chrono can represent it.
pub fn stamp_of(m: Moment) -> (r: Option<UtcStamp>)
    requires
        m.wf(),
    ensures
        r == calendar_of(m.secs as int, m.nanos as nat),
        r matches Some(t) ==> t.wf() && t.nanos == m.nanos && t.epoch_millis == m.secs * 1000
            + m.nanos / 1_000_000,
{
    utc_fields(m.secs, m.nanos)
}

/// The calendar fields of the present moment, where the clock can be read.
pub fn stamp_now() -> (r: Option<UtcStamp>)
    ensures
        r matches Some(t) ==> t.wf(),
{
    match read_clock() {
        Some(m) => stamp_of(m),
        None => None,
    }
}

/// The failure for a clock that cannot be read.
pub fn clock_failure() -> (r: Failure)
    ensures
        r.spec_status() == 500,
        r.spec_message() == "Failed to read the system clock"@,
{
    Failure::Internal(String::from_str("Failed to read the system clock"))
}

/// The per-request identifier: the clock's milliseconds since the epoch at
/// the request's entry.
#[derive(Clone, Copy, Debug, PartialEq, Eq, Structural)]
pub struct RequestContext {
    pub request_id: i64,
}

impl RequestContext {
    /// The context of a request that arrived at `s`.
    pub fn from_stamp(s: &UtcStamp) -> (r: RequestContext)
        ensures
            r.request_id == s.epoch_millis,
    {
        RequestContext { request_id: s.epoch_millis }
    }

    /// A context for a request that arrives now, or a 500 failure where the
    /// clock cannot be read.
    pub fn begin() -> (r: Result<RequestContext, Failure>)
        ensures
            r matches Ok(c) ==> c.request_id >= 0,
            r matches Err(f) ==> f.spec_status() == 500 && f.spec_message()
                == "Failed to read the system clock"@,
    {
        match stamp_now() {
            Some(t) => Ok(RequestContext::from_stamp(&t)),
            None => Err(clock_failure()),
        }
    }
}

/// The year as at least four digits, signed with `+` beyond 9999.
pub open spec fn year_text(year: i32) -> Seq<char> {
    if year > 9999 {
        "+"@ + padded(year as nat, 4)
    } else {
        padded(year as nat, 4)
    }
}

/// `YYYYmmdd_HHMMSS_ffffff`: the moment to the microsecond.
pub open spec fn stamp_text(s: UtcStamp) -> Seq<char> {
    year_text(s.year) + padded(s.month as nat, 2) + padded(s.day as nat, 2) + "_"@
        + padded(s.hour as nat, 2) + padded(s.minute as nat, 2) + padded(s.second as nat, 2)
        + "_"@ + padded((s.nanos / 1000) as nat, 6)
}

/// Writes a moment as [`stamp_text`] does.
pub fn compact_stamp(s: &UtcStamp) -> (r: String)
    requires
        s.wf(),
    ensures
        r@ == stamp_text(*s),
{
    let mut out = String::new();
    if s.year > 9999 {
        out.append("+");
    }
    push_padded(&mut out, s.year as u64, 4);
    push_padded(&mut out, s.month as u64, 2);
    push_padded(&mut out, s.day as u64, 2);
    out.append("_");
    push_padded(&mut out, s.hour as u64, 2);
    push_padded(&mut out, s.minute as u64, 2);
    push_padded(&mut out, s.second as u64, 2);
    out.append("_");
    push_padded(&mut out, (s.nanos / 1000) as u64, 6);
    assert(out@ =~= stamp_text(*s));
    out
}

/// The directory under which training images are kept.
pub open spec fn training_root() -> Seq<char> {
    "training_data"@
}

/// The directory of one label's images.
pub open spec fn label_dir_text(l: Label) -> Seq<char> {
    training_root() + "/"@ + l.name()
}

/// The name an image is saved under.
pub open spec fn image_name_text(s: UtcStamp, request_id: i64) -> Seq<char> {
    stamp_text(s) + "_"@ + decimal(request_id as int) + ".jpg"@
}

/// The audit log, one JSON record per line.
pub open spec fn log_path_text() -> Seq<char> {
    training_root() + "/training_log.jsonl"@
}

/// The directory of one label's images.
pub fn label_dir(l: Label) -> (r: String)
    ensures
        r@ == label_dir_text(l),
{
    let mut out = String::from_str("training_data");
    out.append("/");
    out.append(l.as_str());
    out
}

/// The name an image received at `s` by request `request_id` is saved under.
pub fn image_file_name(s: &UtcStamp, request_id: i64) -> (r: String)
    requires
        s.wf(),
    ensures
        r@ == image_name_text(*s, request_id),
{
    let mut out = compact_stamp(s);
    out.append("_");
    push_decimal(&mut out, request_id);
    out.append(".jpg");
    out
}

/// The path of the audit log.
pub fn training_log_path() -> (r: String)
    ensures
        r@ == log_path_text(),
{
    let mut out = String::from_str("training_data");
    out.append("/training_log.jsonl");
    out
}

/// Checks the label of a training submission.
pub fn validate_label(label: &Option<String>) -> (r: Result<Label, Failure>)
    ensures
        match label {
            None => r matches Err(e) && e.spec_status() == 400 && e.spec_message()
                == "Label is required for training data"@,
            Some(t) => match label_named(t@) {
                Some(l) => r == Ok::<Label, Failure>(l),
                None => r matches Err(e) && e.spec_status() == 400 && e.spec_message()
                    == "Label must be either 'match_ready' or 'not_match_ready'"@,
            },
        },
{
    match label {
        None => Err(Failure::BadRequest(String::from_str("Label is required for training data"))),
        Some(t) => match parse_label(t.as_str()) {
            Some(l) => Ok(l),
            None => Err(
                Failure::BadRequest(
                    String::from_str("Label must be either 'match_ready' or 'not_match_ready'"),
                ),
            ),
        },
    }
}

/// Where one accepted training image goes.
#[derive(Debug)]
pub struct TrainingPlan {
    pub request_id: i64,
    pub label: Label,
    pub label_dir: String,
    pub filename: String,
    pub file_path: String,
}

impl TrainingPlan {
    /// `plan` files an image of label `l` received at `s` by request `id`.
    pub open spec fn places(&self, l: Label, s: UtcStamp, id: i64) -> bool {
        &&& self.request_id == id
        &&& self.label == l
        &&& self.label_dir@ == label_dir_text(l)
        &&& self.filename@ == image_name_text(s, id)
        &&& self.file_path@ == label_dir_text(l) + "/"@ + image_name_text(s, id)
    }
}

/// Validates the label and, for a valid one, says where the image received
/// at `s` goes.
pub fn plan_training_at(label: &Option<String>, ctx: RequestContext, s: &UtcStamp) -> (r: Result<
    TrainingPlan,
    Failure,
>)
    requires
        s.wf(),
    ensures
        match label {
            Some(t) => match label_named(t@) {
                Some(l) => r matches Ok(p) && p.places(l, *s, ctx.request_id),
                None => r matches Err(e) && e.spec_status() == 400 && e.spec_message()
                    == "Label must be either 'match_ready' or 'not_match_ready'"@,
            },
            None => r matches Err(e) && e.spec_status() == 400 && e.spec_message()
                == "Label is required for training data"@,
        },
{
    let l = match validate_label(label) {
        Ok(l) => l,
        Err(e) => {
            return Err(e);
        },
    };
    let dir = label_dir(l);
    let filename = image_file_name(s, ctx.request_id);
    let mut file_path = label_dir(l);
    file_path.append("/");
    file_path.append(filename.as_str());
    Ok(TrainingPlan { request_id: ctx.request_id, label: l, label_dir: dir, filename, file_path })
}

/// [`plan_training_at`] with the clock read now. The label is checked
/// first; a valid one gets a plan, or a 500 failure where the clock cannot
/// be read.
pub fn plan_training(label: &Option<String>, ctx: RequestContext) -> (r: Result<
    TrainingPlan,
    Failure,
>)
    ensures
        match label {
            Some(t) => match label_named(t@) {
                Some(l) => match r {
                    Ok(p) => exists|s: UtcStamp| s.wf() && p.places(l, s, ctx.request_id),
                    Err(e) => e.spec_status() == 500 && e.spec_message()
                        == "Failed to read the system clock"@,
                },
                None => r matches Err(e) && e.spec_status() == 400 && e.spec_message()
                    == "Label must be either 'match_ready' or 'not_match_ready'"@,
            },
            None => r matches Err(e) && e.spec_status() == 400 && e.spec_message()
                == "Label is required for training data"@,
        },
{
    if let Err(e) = validate_label(label) {
        return Err(e);
    }
    match stamp_now() {
        Some(s) => plan_training_at(label, ctx, &s),
        None => Err(clock_failure()),
    }
}

/// One line of the audit log.
#[derive(Debug)]
pub struct TrainingRecord {
    /// RFC 3339 time of the record.
    pub timestamp: String,
    pub request_id: i64,
    pub label: Label,
    pub filename: String,
    pub file_path: String,
    pub image_size_bytes: usize,
}

/// The audit record of a saved image, stamped `timestamp`.
pub fn record_at(plan: &TrainingPlan, image_size_bytes: usize, timestamp: String) -> (r:
    TrainingRecord)
    ensures
        r.timestamp@ == timestamp@,
        r.request_id == plan.request_id,
        r.label == plan.label,
        r.filename@ == plan.filename@,
        r.file_path@ == plan.file_path@,
        r.image_size_bytes == image_size_bytes,
{
    TrainingRecord {
        timestamp,
        request_id: plan.request_id,
        label: plan.label,
        filename: String::from_str(plan.filename.as_str()),
        file_path: String::from_str(plan.file_path.as_str()),
        image_size_bytes,
    }
}

/// `rec` records `plan`'s image of `size` bytes at the moment `m`.
pub open spec fn records(rec: TrainingRecord, plan: TrainingPlan, size: usize, m: Moment) -> bool {
    &&& rec.timestamp@ == rfc3339_text(m.secs as int, m.nanos as nat)
    &&& rec.timestamp@.len() >= 6
    &&& rec.timestamp@.subrange(rec.timestamp@.len() - 6, rec.timestamp@.len() as int)
        == "+00:00"@
    &&& rec.request_id == plan.request_id
    &&& rec.label == plan.label
    &&& rec.filename@ == plan.filename@
    &&& rec.file_path@ == plan.file_path@
    &&& rec.image_size_bytes == size
}

/// The audit record of a saved image, stamped with the RFC 3339 time of
/// `m`; `None` where chrono cannot represent `m`.
pub fn record_at_moment(plan: &TrainingPlan, image_size_bytes: usize, m: Moment) -> (r: Option<
    TrainingRecord,
>)
    requires
        m.wf(),
    ensures
        r is Some <==> calendar_of(m.secs as int, m.nanos as nat) is Some,
        r matches Some(rec) ==> records(rec, *plan, image_size_bytes, m),
{
    match rfc3339_of(m.secs, m.nanos) {
        Some(t) => Some(record_at(plan, image_size_bytes, t)),
        None => None,
    }
}

/// The audit record of a saved image, stamped with the time now; `None`
/// where the clock cannot be read, which costs the log line only.
pub fn record_now(plan: &TrainingPlan, image_size_bytes: usize) -> (r: Option<TrainingRecord>)
    ensures
        r matches Some(rec) ==> exists|m: Moment| m.wf() && records(rec, *plan, image_size_bytes, m),
{
    match read_clock() {
        Some(m) => record_at_moment(plan, image_size_bytes, m),
        None => None,
    }
}

/// The storage steps of an accepted submission, in order.
#[derive(Clone, Copy, Debug, PartialEq, Eq, Structural)]
pub enum TrainingStep {
    /// Create the label's directory and any missing parents.
    CreateDir,
    /// Write the image to the planned path.
    WriteImage,
    /// Append the audit record to the log.
    AppendLog,
}

impl TrainingPlan {
    /// Storage starts from a plan, which only a valid label gets: the
    /// directory is created first.
    pub fn first_step(&self) -> (r: TrainingStep)
        ensures
            r == TrainingStep::CreateDir,
    {
        TrainingStep::CreateDir
    }
}

/// What comes after `step` finished with `result`: the next step, `None`
/// when the submission has succeeded, or the failure to answer with. A
/// failed directory or image write stops the submission; a failed log
/// append does not, since the image is already saved.
pub fn after_step(step: TrainingStep, result: Result<(), String>) -> (r: Result<
    Option<TrainingStep>,
    Failure,
>)
    ensures
        match (step, result) {
            (TrainingStep::CreateDir, Ok(())) => r == Ok::<Option<TrainingStep>, Failure>(
                Some(TrainingStep::WriteImage),
            ),
            (TrainingStep::CreateDir, Err(e)) => r matches Err(f) && f.spec_status() == 500
                && f.spec_message() == "Failed to create training directory: "@ + e@,
            (TrainingStep::WriteImage, Ok(())) => r == Ok::<Option<TrainingStep>, Failure>(
                Some(TrainingStep::AppendLog),
            ),
            (TrainingStep::WriteImage, Err(e)) => r matches Err(f) && f.spec_status() == 500
                && f.spec_message() == "Failed to write training image: "@ + e@,
            (TrainingStep::AppendLog, _) => r == Ok::<Option<TrainingStep>, Failure>(None),
        },
{
    match step {
        TrainingStep::CreateDir => match result {
            Ok(()) => Ok(Some(TrainingStep::WriteImage)),
            Err(e) => Err(failure_with(false, "Failed to create training directory: ", e.as_str())),
        },
        TrainingStep::WriteImage => match result {
            Ok(()) => Ok(Some(TrainingStep::AppendLog)),
            Err(e) => Err(failure_with(false, "Failed to write training image: ", e.as_str())),
        },
        TrainingStep::AppendLog => Ok(None),
    }
}

/// Two requests with different identifiers never file their images under
/// the same name or, for the same label, the same path, whatever moments
/// they were received at.
pub proof fn distinct_requests_distinct_files(l: Label, s1: UtcStamp, s2: UtcStamp, id1: i64, id2: i64)
    requires
        id1 != id2,
    ensures
        image_name_text(s1, id1) != image_name_text(s2, id2),
        label_dir_text(l) + "/"@ + image_name_text(s1, id1) != label_dir_text(l) + "/"@
            + image_name_text(s2, id2),
{
    let x1 = stamp_text(s1);
    let x2 = stamp_text(s2);
    lemma_underscore_decimal_distinct(x1, x2, id1 as int, id2 as int, ".jpg"@);
    assert(image_name_text(s1, id1) =~= x1 + "_"@ + decimal(id1 as int) + ".jpg"@);
    assert(image_name_text(s2, id2) =~= x2 + "_"@ + decimal(id2 as int) + ".jpg"@);
    let d = label_dir_text(l) + "/"@;
    if d + image_name_text(s1, id1) == d + image_name_text(s2, id2) {
        assert(image_name_text(s1, id1) =~= (d + image_name_text(s1, id1)).subrange(
            d.len() as int,
            (d + image_name_text(s1, id1)).len() as int,
        ));
        assert(image_name_text(s2, id2) =~= (d + image_name_text(s2, id2)).subrange(
            d.len() as int,
            (d + image_name_text(s2, id2)).len() as int,
        ));
    }
}

} // verus!
