//! A timesheet entry: choosing its start, assembling it, and writing it as
//! the JSON body the service takes.
use vstd::prelude::*;
use vstd::string::StringExecFns;
use crate::model::{option_text, Activity, Project, TimeOfDay, SECONDS_PER_DAY};
use crate::text::{decimal_of, decimal_text};

verus! {

/// An entry to submit. `begin` and `end` are instants in seconds since
/// 1970-01-01T00:00:00Z.
#[derive(Debug)]
pub struct TimesheetEditForm {
    pub begin: i64,
    pub project: i32,
    pub activity: i32,
    pub end: i64,
    pub description: Option<String>,
}

/// The first second that chrono can hold: -262143-01-01T00:00:00Z.
pub const MIN_TIMESTAMP: i64 = -8334601228800;

/// The last second that chrono can hold: 262142-12-31T23:59:59Z.
pub const MAX_TIMESTAMP: i64 = 8210266876799;

pub open spec fn in_timestamp_range(seconds: int) -> bool {
    MIN_TIMESTAMP <= seconds <= MAX_TIMESTAMP
}

/// The ISO-8601 text of an instant in UTC, as chrono writes it.
pub uninterp spec fn utc_text_of(seconds: int) -> Seq<char>;

/// The JSON string literal for a text, as serde_json writes it.
pub uninterp spec fn json_string_of(s: Seq<char>) -> Seq<char>;

/// Relies on chrono's `DateTime::<Utc>::from_timestamp` (`None` outside the
/// years `MIN_YEAR..=MAX_YEAR` of `NaiveDate`, -262143 to 262142) and
/// `to_rfc3339_opts(SecondsFormat::AutoSi, true)`, the form in which chrono
/// serialises a `DateTime<Utc>`.
#[verifier::external_body]
fn utc_timestamp_text(seconds: i64) -> (r: Option<String>)
    ensures
        r is Some <==> in_timestamp_range(seconds as int),
        r matches Some(t) ==> t@ == utc_text_of(seconds as int),
{
    match chrono::DateTime::from_timestamp(seconds, 0) {
        Some(t) => Some(t.to_rfc3339_opts(chrono::SecondsFormat::AutoSi, true)),
        None => None,
    }
}

/// Relies on `serde_json::to_string` of a `str`: a quoted, escaped JSON
/// string. It writes into a `Vec` and does not fail on a `str`.
#[verifier::external_body]
fn json_string(s: &str) -> (r: Option<String>)
    ensures
        r is Some,
        r matches Some(t) ==> t@ == json_string_of(s@),
{
    serde_json::to_string(s).ok()
}

/// The members of an entry's JSON object before the optional description,
/// starting with the opening brace.
pub open spec fn entry_members(begin: Seq<char>, end: Seq<char>, project: int, activity: int) -> Seq<
    char,
> {
    "{\"begin\":\""@ + begin + "\",\"project\":"@ + decimal_text(project) + ",\"activity\":"@
        + decimal_text(activity) + ",\"end\":\""@ + end + "\""@
}

/// The JSON object of an entry; the `description` member is present only
/// when there is a description. `description` is already a JSON string.
pub open spec fn entry_json(
    begin: Seq<char>,
    end: Seq<char>,
    project: int,
    activity: int,
    description: Option<Seq<char>>,
) -> Seq<char> {
    match description {
        Some(d) => entry_members(begin, end, project, activity) + ",\"description\":"@ + d + "}"@,
        None => entry_members(begin, end, project, activity) + "}"@,
    }
}

/// The body of an entry whose timestamps and description are already
/// written as text: `begin_text` and `end_text` bare, `description_json`
/// as a JSON string.
pub fn frame_entry(
    begin_text: &str,
    end_text: &str,
    project: i32,
    activity: i32,
    description_json: Option<&str>,
) -> (r: String)
    ensures
        r@ == entry_json(
            begin_text@,
            end_text@,
            project as int,
            activity as int,
            match description_json {
                Some(d) => Some(d@),
                None => None,
            },
        ),
{
    let mut s = String::new();
    s.append("{\"begin\":\"");
    s.append(begin_text);
    s.append("\",\"project\":");
    s.append(decimal_of(project as i64).as_str());
    s.append(",\"activity\":");
    s.append(decimal_of(activity as i64).as_str());
    s.append(",\"end\":\"");
    s.append(end_text);
    s.append("\"");
    match description_json {
        Some(d) => {
            s.append(",\"description\":");
            s.append(d);
        },
        None => {},
    }
    s.append("}");
    s
}

/// The JSON text that the service takes for `form`, or `None` where a
/// timestamp is out of chrono's range.
pub fn entry_body(form: &TimesheetEditForm) -> (r: Option<String>)
    ensures
        r is Some <==> (in_timestamp_range(form.begin as int) && in_timestamp_range(
            form.end as int,
        )),
        r matches Some(b) ==> b@ == entry_json(
            utc_text_of(form.begin as int),
            utc_text_of(form.end as int),
            form.project as int,
            form.activity as int,
            match form.description {
                Some(d) => Some(json_string_of(d@)),
                None => None,
            },
        ),
{
    let begin = utc_timestamp_text(form.begin);
    let end = utc_timestamp_text(form.end);
    match (begin, end) {
        (Some(b), Some(e)) => match &form.description {
            Some(d) => match json_string(d.as_str()) {
                Some(dj) => Some(
                    frame_entry(b.as_str(), e.as_str(), form.project, form.activity, Some(dj.as_str())),
                ),
                None => None,
            },
            None => Some(frame_entry(b.as_str(), e.as_str(), form.project, form.activity, None)),
        },
        _ => None,
    }
}

/// An entry's JSON object holds a `description` member exactly when a
/// description is given: without one it is the bare members, closed; with
/// one it is the same members followed by the description.
pub proof fn lemma_description_member_only_when_given(
    begin: Seq<char>,
    end: Seq<char>,
    project: int,
    activity: int,
    description: Seq<char>,
)
    ensures
        entry_json(begin, end, project, activity, None) == entry_members(
            begin,
            end,
            project,
            activity,
        ) + "}"@,
        entry_json(begin, end, project, activity, Some(description)) == entry_members(
            begin,
            end,
            project,
            activity,
        ) + ",\"description\":"@ + description + "}"@,
{
}

/// `(a - b) mod 86400`, in `0..86400`.
pub open spec fn wrap_day(a: int, b: int) -> int {
    (a - b) % (SECONDS_PER_DAY as int)
}

/// The start time offered by default: on today's date, the time `now`
/// less the duration, wrapping around midnight; on another date, the
/// configured start time.
pub fn default_start(
    date_is_today: bool,
    now: TimeOfDay,
    duration_seconds: i64,
    configured: TimeOfDay,
) -> (r: TimeOfDay)
    requires
        now.wf(),
        configured.wf(),
    ensures
        r.wf(),
        date_is_today ==> r.seconds == wrap_day(now.seconds as int, duration_seconds as int),
        !date_is_today ==> r == configured,
{
    if date_is_today {
        let back = duration_seconds % (SECONDS_PER_DAY as i64);
        let shifted = now.seconds as i64 - back + SECONDS_PER_DAY as i64;
        let secs = shifted % (SECONDS_PER_DAY as i64);
        TimeOfDay { seconds: secs as u32 }
    } else {
        configured
    }
}

/// The entry for a span of `duration_seconds` from `begin`, for the chosen
/// project and activity; `None` where the end is beyond the range of `i64`.
pub fn assemble_entry(
    begin: i64,
    duration_seconds: i64,
    project: &Project,
    activity: &Activity,
    description: Option<String>,
) -> (r: Option<TimesheetEditForm>)
    ensures
        r is Some <==> i64::MIN <= begin + duration_seconds <= i64::MAX,
        r matches Some(f) ==> {
            &&& f.begin == begin
            &&& f.end == begin + duration_seconds
            &&& f.project == project.id
            &&& f.activity == activity.id
            &&& option_text(f.description) == option_text(description)
        },
{
    match begin.checked_add(duration_seconds) {
        Some(end) => Some(
            TimesheetEditForm {
                begin,
                project: project.id,
                activity: activity.id,
                end,
                description,
            },
        ),
        None => None,
    }
}

} // verus!
