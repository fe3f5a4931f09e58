//! The exchange with the time-tracking service: what to send, and what a
//! reply means. Sending is left to the caller, which hands back a `Reply`.
use vstd::prelude::*;
use vstd::string::StringExecFns;
use crate::json::{
    activities_match, decode_activities, decode_projects, is_activity_list, is_project_list,
    projects_match, JsonValue,
};
use crate::model::{Activity, Config, Project};
use crate::text::{decimal_of, decimal_text};

verus! {

#[derive(Debug, PartialEq, Eq, Structural)]
pub enum Method {
    Get,
    Post,
}

/// An authenticated HTTP request to the service.
#[derive(Debug)]
pub struct ApiRequest {
    pub method: Method,
    pub url: String,
    /// Header names and values, in the order they are set.
    pub headers: Vec<(String, String)>,
    /// A JSON body; reads carry none.
    pub body: Option<String>,
}

/// What came of sending a request.
#[derive(Debug)]
pub enum Reply {
    /// The exchange completed with this status and body; `json` is the body
    /// read as a JSON document, where it is one.
    Status { code: u16, body: String, json: Option<JsonValue> },
    /// The exchange did not complete.
    Transport { reason: String },
}

#[derive(Debug)]
pub enum ApiError {
    /// The exchange did not complete.
    Transport { reason: String },
    /// The service answered with a status outside 200..=299.
    Server { code: u16, body: String },
    /// The body did not have the expected shape.
    Decode { reason: String },
}

pub open spec fn headers_view(h: Seq<(String, String)>) -> Seq<(Seq<char>, Seq<char>)> {
    h.map_values(|p: (String, String)| (p.0@, p.1@))
}

/// `Accept: application/json` and `Authorization: Bearer <token>`.
pub open spec fn auth_headers(token: Seq<char>) -> Seq<(Seq<char>, Seq<char>)> {
    seq![("Accept"@, "application/json"@), ("Authorization"@, "Bearer "@ + token)]
}

/// `r` is the request for `path` on the service of `config`, carrying `body`.
pub open spec fn request_for(
    config: Config,
    path: Seq<char>,
    body: Option<String>,
    r: ApiRequest,
) -> bool {
    &&& r.url@ == config.endpoint@ + path
    &&& headers_view(r.headers@) == auth_headers(config.token@)
    &&& r.method == if body is Some {
        Method::Post
    } else {
        Method::Get
    }
    &&& r.body == body
}

pub open spec fn projects_path() -> Seq<char> {
    "/api/projects?visible=1"@
}

pub open spec fn activities_path(project_id: int) -> Seq<char> {
    "/api/activities?visible=1&projects[]="@ + decimal_text(project_id)
}

pub open spec fn timesheets_path() -> Seq<char> {
    "/api/timesheets"@
}

pub open spec fn is_success(code: u16) -> bool {
    200 <= code <= 299
}

fn owned(s: &str) -> (r: String)
    ensures
        r@ == s@,
{
    let mut r = String::new();
    r.append(s);
    assert(r@ =~= s@);
    r
}

/// A request to `config.endpoint` followed by `path`, with the accept and
/// bearer-token headers; a POST where there is a body, else a GET.
pub fn build_request(config: &Config, path: &str, body: Option<String>) -> (r: ApiRequest)
    ensures
        request_for(*config, path@, body, r),
{
    let mut url = config.endpoint.clone();
    url.append(path);
    let mut bearer = owned("Bearer ");
    bearer.append(config.token.as_str());
    let mut headers: Vec<(String, String)> = Vec::new();
    headers.push((owned("Accept"), owned("application/json")));
    headers.push((owned("Authorization"), bearer));
    assert(headers_view(headers@) =~= auth_headers(config.token@));
    let method = match body {
        Some(_) => Method::Post,
        None => Method::Get,
    };
    ApiRequest { method, url, headers, body }
}

/// The request that lists the visible projects.
pub fn projects_request(config: &Config) -> (r: ApiRequest)
    ensures
        request_for(*config, projects_path(), None, r),
{
    build_request(config, "/api/projects?visible=1", None)
}

/// The request that lists the visible activities of a project.
pub fn activities_request(config: &Config, project_id: i32) -> (r: ApiRequest)
    ensures
        request_for(*config, activities_path(project_id as int), None, r),
{
    let mut path = owned("/api/activities?visible=1&projects[]=");
    let id = decimal_of(project_id as i64);
    path.append(id.as_str());
    build_request(config, path.as_str(), None)
}

/// The request that submits a timesheet entry whose JSON text is `body`.
pub fn timesheet_request(config: &Config, body: String) -> (r: ApiRequest)
    ensures
        request_for(*config, timesheets_path(), Some(body), r),
{
    build_request(config, "/api/timesheets", Some(body))
}

/// What a reply says apart from its body's shape: the JSON document of a
/// successful reply, or the failure.
pub open spec fn reply_outcome(reply: Reply) -> Result<Option<JsonValue>, ApiError> {
    match reply {
        Reply::Status { code, body, json } => if is_success(code) {
            Ok(json)
        } else {
            Err(ApiError::Server { code, body })
        },
        Reply::Transport { reason } => Err(ApiError::Transport { reason }),
    }
}

fn decode_error() -> (r: ApiError)
    ensures
        r is Decode,
{
    ApiError::Decode { reason: owned("response body does not have the expected shape") }
}

fn successful_json(reply: Reply) -> (r: Result<Option<JsonValue>, ApiError>)
    ensures
        r == reply_outcome(reply),
{
    match reply {
        Reply::Status { code, body, json } => if 200 <= code && code <= 299 {
            Ok(json)
        } else {
            Err(ApiError::Server { code, body })
        },
        Reply::Transport { reason } => Err(ApiError::Transport { reason }),
    }
}

/// The projects that a reply to `projects_request` lists.
pub fn get_projects(reply: Reply) -> (r: Result<Vec<Project>, ApiError>)
    ensures
        match reply_outcome(reply) {
            Err(e) => r == Err::<Vec<Project>, ApiError>(e),
            Ok(None) => r matches Err(e) && e is Decode,
            Ok(Some(j)) => {
                &&& r is Ok <==> is_project_list(j)
                &&& r matches Ok(ps) ==> projects_match(j, ps@)
                &&& r matches Err(e) ==> e is Decode
            },
        },
{
    match successful_json(reply) {
        Err(e) => Err(e),
        Ok(None) => Err(decode_error()),
        Ok(Some(j)) => match decode_projects(&j) {
            Some(ps) => Ok(ps),
            None => Err(decode_error()),
        },
    }
}

/// The activities that a reply to `activities_request` lists.
pub fn get_activities_by_project(reply: Reply) -> (r: Result<Vec<Activity>, ApiError>)
    ensures
        match reply_outcome(reply) {
            Err(e) => r == Err::<Vec<Activity>, ApiError>(e),
            Ok(None) => r matches Err(e) && e is Decode,
            Ok(Some(j)) => {
                &&& r is Ok <==> is_activity_list(j)
                &&& r matches Ok(acts) ==> activities_match(j, acts@)
                &&& r matches Err(e) ==> e is Decode
            },
        },
{
    match successful_json(reply) {
        Err(e) => Err(e),
        Ok(None) => Err(decode_error()),
        Ok(Some(j)) => match decode_activities(&j) {
            Some(acts) => Ok(acts),
            None => Err(decode_error()),
        },
    }
}

/// The outcome of a reply to `timesheet_request`; a successful reply's body
/// is not read.
pub fn insert_timesheet_entry(reply: Reply) -> (r: Result<(), ApiError>)
    ensures
        match reply_outcome(reply) {
            Err(e) => r == Err::<(), ApiError>(e),
            Ok(_) => r is Ok,
        },
{
    match successful_json(reply) {
        Err(e) => Err(e),
        Ok(_) => Ok(()),
    }
}

} // verus!
