use kimai_timesheet::api::{
    activities_request, get_activities_by_project, get_projects, insert_timesheet_entry,
    projects_request, timesheet_request, ApiError, Method, Reply,
};
use kimai_timesheet::json::JsonValue;
use kimai_timesheet::model::{default_start_time, Config};

fn config() -> Config {
    Config {
        endpoint: "https://kimai.example".to_string(),
        token: "t0ken-42".to_string(),
        default_start_time: default_start_time(),
    }
}

fn object(fields: Vec<(&str, JsonValue)>) -> JsonValue {
    JsonValue::Object(fields.into_iter().map(|(k, v)| (k.to_string(), v)).collect())
}

fn ok_reply(json: JsonValue) -> Reply {
    Reply::Status { code: 200, body: "[]".to_string(), json: Some(json) }
}

fn headers(h: &[(String, String)]) -> Vec<(&str, &str)> {
    h.iter().map(|(k, v)| (k.as_str(), v.as_str())).collect()
}

#[test]
fn projects_request_is_an_authenticated_get() {
    let r = projects_request(&config());
    assert!(r.method == Method::Get);
    assert_eq!(r.url, "https://kimai.example/api/projects?visible=1");
    assert_eq!(
        headers(&r.headers),
        vec![("Accept", "application/json"), ("Authorization", "Bearer t0ken-42")]
    );
    assert!(r.body.is_none());
}

#[test]
fn activities_request_names_the_project() {
    let r = activities_request(&config(), 10);
    assert!(r.method == Method::Get);
    assert_eq!(r.url, "https://kimai.example/api/activities?visible=1&projects[]=10");
    let r = activities_request(&config(), -7);
    assert_eq!(r.url, "https://kimai.example/api/activities?visible=1&projects[]=-7");
}

#[test]
fn timesheet_request_is_a_post_with_body() {
    let r = timesheet_request(&config(), "{}".to_string());
    assert!(r.method == Method::Post);
    assert_eq!(r.url, "https://kimai.example/api/timesheets");
    assert_eq!(r.body.as_deref(), Some("{}"));
    assert_eq!(headers(&r.headers).len(), 2);
}

#[test]
fn server_error_keeps_code_and_body() {
    let reply = Reply::Status { code: 422, body: "validation failed".to_string(), json: None };
    match insert_timesheet_entry(reply) {
        Err(ApiError::Server { code, body }) => {
            assert_eq!(code, 422);
            assert_eq!(body, "validation failed");
        }
        _ => panic!("expected a server error"),
    }
}

#[test]
fn transport_failure_is_reported() {
    let reply = Reply::Transport { reason: "connection refused".to_string() };
    match get_projects(reply) {
        Err(ApiError::Transport { reason }) => assert_eq!(reason, "connection refused"),
        _ => panic!("expected a transport error"),
    }
}

#[test]
fn success_discards_body() {
    let reply = Reply::Status { code: 200, body: "{\"id\":5}".to_string(), json: None };
    assert!(insert_timesheet_entry(reply).is_ok());
}

#[test]
fn projects_are_decoded_in_order() {
    let json = JsonValue::Array(vec![
        object(vec![("id", JsonValue::Int(1)), ("name", JsonValue::Str("Acme".to_string()))]),
        object(vec![
            ("name", JsonValue::Str("Beta".to_string())),
            ("visible", JsonValue::Bool(true)),
            ("id", JsonValue::Int(2)),
        ]),
    ]);
    let ps = get_projects(ok_reply(json)).unwrap();
    assert_eq!(ps.len(), 2);
    assert_eq!((ps[0].id, ps[0].name.as_str()), (1, "Acme"));
    assert_eq!((ps[1].id, ps[1].name.as_str()), (2, "Beta"));
}

#[test]
fn malformed_projects_are_a_decode_error() {
    let missing_name = JsonValue::Array(vec![object(vec![("id", JsonValue::Int(1))])]);
    assert!(matches!(get_projects(ok_reply(missing_name)), Err(ApiError::Decode { .. })));
    let big_id = JsonValue::Array(vec![object(vec![
        ("id", JsonValue::Int(1 << 40)),
        ("name", JsonValue::Str("x".to_string())),
    ])]);
    assert!(matches!(get_projects(ok_reply(big_id)), Err(ApiError::Decode { .. })));
    let not_array = object(vec![]);
    assert!(matches!(get_projects(ok_reply(not_array)), Err(ApiError::Decode { .. })));
    let not_json = Reply::Status { code: 200, body: "<html>".to_string(), json: None };
    assert!(matches!(get_projects(not_json), Err(ApiError::Decode { .. })));
}

#[test]
fn activities_decode_parent_title() {
    let json = JsonValue::Array(vec![
        object(vec![
            ("id", JsonValue::Int(10)),
            ("name", JsonValue::Str("Dev".to_string())),
            ("parentTitle", JsonValue::Null),
        ]),
        object(vec![("id", JsonValue::Int(11)), ("name", JsonValue::Str("Ops".to_string()))]),
        object(vec![
            ("id", JsonValue::Int(12)),
            ("parentTitle", JsonValue::Str("Engineering".to_string())),
            ("name", JsonValue::Str("Coding".to_string())),
        ]),
    ]);
    let acts = get_activities_by_project(ok_reply(json)).unwrap();
    assert_eq!(acts.len(), 3);
    assert_eq!(acts[0].display(), "Dev");
    assert!(acts[1].parent_title.is_none());
    assert_eq!(acts[2].display(), "Engineering | Coding");
    let bad = JsonValue::Array(vec![object(vec![
        ("id", JsonValue::Int(10)),
        ("name", JsonValue::Str("Dev".to_string())),
        ("parentTitle", JsonValue::Int(3)),
    ])]);
    assert!(matches!(get_activities_by_project(ok_reply(bad)), Err(ApiError::Decode { .. })));
}
