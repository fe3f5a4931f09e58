use kimai_timesheet::api::{get_activities_by_project, get_projects, Reply};
use kimai_timesheet::duration::parse_duration;
use kimai_timesheet::entry::{
    assemble_entry, default_start, entry_body, frame_entry, TimesheetEditForm, MAX_TIMESTAMP, MIN_TIMESTAMP,
};
use kimai_timesheet::json::JsonValue;
use kimai_timesheet::model::{Activity, Project, TimeOfDay};

fn form(description: Option<&str>) -> TimesheetEditForm {
    TimesheetEditForm {
        begin: 1_704_099_600,
        project: 1,
        activity: 10,
        end: 1_704_107_700,
        description: description.map(|d| d.to_string()),
    }
}

#[test]
fn body_without_description_has_no_description_key() {
    let body = entry_body(&form(None)).unwrap();
    assert_eq!(
        body,
        "{\"begin\":\"2024-01-01T09:00:00Z\",\"project\":1,\"activity\":10,\"end\":\"2024-01-01T11:15:00Z\"}"
    );
    assert!(!body.contains("description"));
}

#[test]
fn body_with_description_is_escaped() {
    let body = entry_body(&form(Some("fix \"bug\""))).unwrap();
    assert!(body.ends_with(",\"description\":\"fix \\\"bug\\\"\"}"));
}

#[test]
fn body_out_of_range_is_none() {
    let mut f = form(None);
    f.end = i64::MAX;
    assert!(entry_body(&f).is_none());
}

#[test]
fn body_at_the_range_limits() {
    let mut f = form(None);
    f.begin = MIN_TIMESTAMP;
    f.end = MAX_TIMESTAMP;
    let body = entry_body(&f).unwrap();
    assert!(body.contains("\"begin\":\"-262143-01-01T00:00:00Z\""));
    assert!(body.contains("\"end\":\"+262142-12-31T23:59:59Z\""));
    f.begin = MIN_TIMESTAMP - 1;
    assert!(entry_body(&f).is_none());
    f.begin = MIN_TIMESTAMP;
    f.end = MAX_TIMESTAMP + 1;
    assert!(entry_body(&f).is_none());
}

#[test]
fn framing_is_exact() {
    assert_eq!(
        frame_entry("B", "E", -3, 42, Some("\"d\"")),
        "{\"begin\":\"B\",\"project\":-3,\"activity\":42,\"end\":\"E\",\"description\":\"d\"}"
    );
}

#[test]
fn default_start_on_another_day_is_configured() {
    let now = TimeOfDay::from_hms(10, 0, 0).unwrap();
    let conf = TimeOfDay::from_hms(9, 0, 0).unwrap();
    assert_eq!(default_start(false, now, 8100, conf), conf);
}

#[test]
fn default_start_today_is_now_less_duration() {
    let now = TimeOfDay::from_hms(10, 0, 0).unwrap();
    let conf = TimeOfDay::from_hms(9, 0, 0).unwrap();
    assert_eq!(default_start(true, now, 8100, conf), TimeOfDay::from_hms(7, 45, 0).unwrap());
    let early = TimeOfDay::from_hms(1, 0, 0).unwrap();
    assert_eq!(default_start(true, early, 7200, conf), TimeOfDay::from_hms(23, 0, 0).unwrap());
    assert_eq!(default_start(true, early, 3 * 86400, conf), early);
    assert_eq!(default_start(true, early, -7200, conf), TimeOfDay::from_hms(3, 0, 0).unwrap());
    assert_eq!(default_start(true, early, i64::MIN, conf).seconds, ((3600i128 - i64::MIN as i128).rem_euclid(86400)) as u32);
}

#[test]
fn assemble_entry_adds_duration() {
    let p = Project { id: 1, name: "Acme".to_string() };
    let a = Activity { id: 10, parent_title: None, name: "Dev".to_string() };
    let f = assemble_entry(100, 8100, &p, &a, Some(String::new())).unwrap();
    assert_eq!((f.begin, f.end, f.project, f.activity), (100, 8200, 1, 10));
    assert_eq!(f.description.as_deref(), Some(""));
    assert!(assemble_entry(i64::MAX, 1, &p, &a, None).is_none());
}

#[test]
fn create_entry_end_to_end() {
    let projects = JsonValue::Array(vec![JsonValue::Object(vec![
        ("id".to_string(), JsonValue::Int(1)),
        ("name".to_string(), JsonValue::Str("Acme".to_string())),
    ])]);
    let activities = JsonValue::Array(vec![JsonValue::Object(vec![
        ("id".to_string(), JsonValue::Int(10)),
        ("name".to_string(), JsonValue::Str("Dev".to_string())),
        ("parentTitle".to_string(), JsonValue::Null),
    ])]);
    let ps = get_projects(Reply::Status { code: 200, body: String::new(), json: Some(projects) }).unwrap();
    let acts =
        get_activities_by_project(Reply::Status { code: 200, body: String::new(), json: Some(activities) })
            .unwrap();
    let duration = parse_duration("2:15").unwrap();
    assert_eq!(duration, 8100);
    // 2024-01-01 09:00 in a zone at UTC+00:00
    let begin = 1_704_099_600;
    let f = assemble_entry(begin, duration, &ps[0], &acts[0], None).unwrap();
    assert_eq!((f.project, f.activity), (1, 10));
    assert_eq!(f.end - f.begin, 8100);
    let body = entry_body(&f).unwrap();
    assert!(body.contains("\"begin\":\"2024-01-01T09:00:00Z\""));
    assert!(body.contains("\"end\":\"2024-01-01T11:15:00Z\""));
}
