//! A JSON document as plain values, and typed decoding of the service's
//! project and activity lists from it.
use vstd::prelude::*;
use crate::model::{Activity, Project};
use crate::text::same_text;

verus! {

/// A JSON value. Integers that fit an `i64` are kept; any other number is
/// only known to be a number.
#[derive(Debug)]
pub enum JsonValue {
    Null,
    Bool(bool),
    Int(i64),
    OtherNumber,
    Str(String),
    Array(Vec<JsonValue>),
    Object(Vec<(String, JsonValue)>),
}

/// The value of the first member of an object named `key`.
pub open spec fn member(fields: Seq<(String, JsonValue)>, key: Seq<char>) -> Option<JsonValue>
    decreases fields.len(),
{
    if fields.len() == 0 {
        None
    } else if fields[0].0@ == key {
        Some(fields[0].1)
    } else {
        member(fields.drop_first(), key)
    }
}

pub open spec fn id_key() -> Seq<char> {
    seq!['i', 'd']
}

pub open spec fn name_key() -> Seq<char> {
    seq!['n', 'a', 'm', 'e']
}

pub open spec fn parent_title_key() -> Seq<char> {
    seq!['p', 'a', 'r', 'e', 'n', 't', 'T', 'i', 't', 'l', 'e']
}

/// An identifier: an integer within the range of `i32`.
pub open spec fn id_of(v: Option<JsonValue>) -> Option<i32> {
    match v {
        Some(JsonValue::Int(n)) => if i32::MIN <= n <= i32::MAX {
            Some(n as i32)
        } else {
            None
        },
        _ => None,
    }
}

pub open spec fn text_of(v: Option<JsonValue>) -> Option<Seq<char>> {
    match v {
        Some(JsonValue::Str(s)) => Some(s@),
        _ => None,
    }
}

/// A project record: an object with an `id` and a `name`; other members are ignored.
pub open spec fn project_fields(v: JsonValue) -> Option<(i32, Seq<char>)> {
    match v {
        JsonValue::Object(fields) => match (id_of(member(fields@, id_key())), text_of(
            member(fields@, name_key()),
        )) {
            (Some(id), Some(name)) => Some((id, name)),
            _ => None,
        },
        _ => None,
    }
}

/// An optional title: absent, `null`, or a string. `Some(None)` means no title.
pub open spec fn optional_text_of(v: Option<JsonValue>) -> Option<Option<Seq<char>>> {
    match v {
        None => Some(None),
        Some(JsonValue::Null) => Some(None),
        Some(JsonValue::Str(s)) => Some(Some(s@)),
        _ => None,
    }
}

/// An activity record: an object with an `id`, a `name` and an optional
/// `parentTitle`; other members are ignored.
pub open spec fn activity_fields(v: JsonValue) -> Option<(i32, Option<Seq<char>>, Seq<char>)> {
    match v {
        JsonValue::Object(fields) => match (
            id_of(member(fields@, id_key())),
            optional_text_of(member(fields@, parent_title_key())),
            text_of(member(fields@, name_key())),
        ) {
            (Some(id), Some(parent), Some(name)) => Some((id, parent, name)),
            _ => None,
        },
        _ => None,
    }
}

pub open spec fn is_project_list(v: JsonValue) -> bool {
    match v {
        JsonValue::Array(items) => forall|i: int|
            0 <= i < items@.len() ==> (#[trigger] project_fields(items@[i])) is Some,
        _ => false,
    }
}

pub open spec fn is_activity_list(v: JsonValue) -> bool {
    match v {
        JsonValue::Array(items) => forall|i: int|
            0 <= i < items@.len() ==> (#[trigger] activity_fields(items@[i])) is Some,
        _ => false,
    }
}

/// `ps` are the projects that the array `v` lists, in its order.
pub open spec fn projects_match(v: JsonValue, ps: Seq<Project>) -> bool {
    match v {
        JsonValue::Array(items) => items@.len() == ps.len() && forall|i: int|
            0 <= i < ps.len() ==> project_fields(#[trigger] items@[i]) == Some(
                (ps[i].id, ps[i].name@),
            ),
        _ => false,
    }
}

/// `acts` are the activities that the array `v` lists, in its order.
pub open spec fn activities_match(v: JsonValue, acts: Seq<Activity>) -> bool {
    match v {
        JsonValue::Array(items) => items@.len() == acts.len() && forall|i: int|
            0 <= i < acts.len() ==> activity_fields(#[trigger] items@[i]) == Some(
                (
                    acts[i].id,
                    crate::model::option_text(acts[i].parent_title),
                    acts[i].name@,
                ),
            ),
        _ => false,
    }
}

/// The first member of `fields` named `key`.
fn find_member<'a>(fields: &'a Vec<(String, JsonValue)>, key: &str) -> (r: Option<&'a JsonValue>)
    ensures
        match r {
            Some(v) => member(fields@, key@) == Some(*v),
            None => member(fields@, key@) is None,
        },
{
    let mut i: usize = 0;
    assert(fields@.subrange(0, fields@.len() as int) =~= fields@);
    while i < fields.len()
        invariant
            i <= fields.len(),
            member(fields@, key@) == member(fields@.subrange(i as int, fields@.len() as int), key@),
        decreases fields.len() - i,
    {
        let ghost rest = fields@.subrange(i as int, fields@.len() as int);
        assert(rest.drop_first() =~= fields@.subrange(i + 1, fields@.len() as int));
        assert(rest[0] == fields@[i as int]);
        if same_text(fields[i].0.as_str(), key) {
            return Some(&fields[i].1);
        }
        i = i + 1;
    }
    None
}

fn decode_id(v: Option<&JsonValue>) -> (r: Option<i32>)
    ensures
        r == id_of(
            match v {
                Some(x) => Some(*x),
                None => None,
            },
        ),
{
    match v {
        Some(JsonValue::Int(n)) => if i32::MIN as i64 <= *n && *n <= i32::MAX as i64 {
            Some(*n as i32)
        } else {
            None
        },
        _ => None,
    }
}

fn decode_text(v: Option<&JsonValue>) -> (r: Option<String>)
    ensures
        crate::model::option_text(r) == text_of(
            match v {
                Some(x) => Some(*x),
                None => None,
            },
        ),
{
    match v {
        Some(JsonValue::Str(s)) => Some(s.clone()),
        _ => None,
    }
}

/// The project that a record describes, if it is well formed.
pub fn decode_project(v: &JsonValue) -> (r: Option<Project>)
    ensures
        match r {
            Some(p) => project_fields(*v) == Some((p.id, p.name@)),
            None => project_fields(*v) is None,
        },
{
    match v {
        JsonValue::Object(fields) => {
            let id = decode_id(find_member(fields, "id"));
            let name = decode_text(find_member(fields, "name"));
            proof {
                reveal_strlit("id");
                reveal_strlit("name");
                assert("id"@ =~= id_key());
                assert("name"@ =~= name_key());
            }
            match (id, name) {
                (Some(id), Some(name)) => Some(Project { id, name }),
                _ => None,
            }
        },
        _ => None,
    }
}

/// The activity that a record describes, if it is well formed.
pub fn decode_activity(v: &JsonValue) -> (r: Option<Activity>)
    ensures
        match r {
            Some(a) => activity_fields(*v) == Some(
                (a.id, crate::model::option_text(a.parent_title), a.name@),
            ),
            None => activity_fields(*v) is None,
        },
{
    match v {
        JsonValue::Object(fields) => {
            let id = decode_id(find_member(fields, "id"));
            let name = decode_text(find_member(fields, "name"));
            let parent = find_member(fields, "parentTitle");
            proof {
                reveal_strlit("id");
                reveal_strlit("name");
                reveal_strlit("parentTitle");
                assert("id"@ =~= id_key());
                assert("name"@ =~= name_key());
                assert("parentTitle"@ =~= parent_title_key());
            }
            let parent_title: Option<Option<String>> = match parent {
                None => Some(None),
                Some(JsonValue::Null) => Some(None),
                Some(JsonValue::Str(s)) => Some(Some(s.clone())),
                _ => None,
            };
            match (id, parent_title, name) {
                (Some(id), Some(parent_title), Some(name)) => Some(
                    Activity { id, parent_title, name },
                ),
                _ => None,
            }
        },
        _ => None,
    }
}

/// The projects that a JSON array lists, or `None` where `v` is not an
/// array of project records.
pub fn decode_projects(v: &JsonValue) -> (r: Option<Vec<Project>>)
    ensures
        r is Some <==> is_project_list(*v),
        r matches Some(ps) ==> projects_match(*v, ps@),
{
    match v {
        JsonValue::Array(items) => {
            let mut out: Vec<Project> = Vec::new();
            let mut i: usize = 0;
            while i < items.len()
                invariant
                    *v == JsonValue::Array(*items),
                    i <= items.len(),
                    out@.len() == i,
                    forall|k: int|
                        0 <= k < i ==> project_fields(#[trigger] items@[k]) == Some(
                            (out@[k].id, out@[k].name@),
                        ),
                decreases items.len() - i,
            {
                match decode_project(&items[i]) {
                    Some(p) => out.push(p),
                    None => {
                        assert(project_fields(items@[i as int]) is None);
                        assert(!is_project_list(*v));
                        return None;
                    },
                }
                i = i + 1;
            }
            Some(out)
        },
        _ => None,
    }
}

/// The activities that a JSON array lists, or `None` where `v` is not an
/// array of activity records.
pub fn decode_activities(v: &JsonValue) -> (r: Option<Vec<Activity>>)
    ensures
        r is Some <==> is_activity_list(*v),
        r matches Some(acts) ==> activities_match(*v, acts@),
{
    match v {
        JsonValue::Array(items) => {
            let mut out: Vec<Activity> = Vec::new();
            let mut i: usize = 0;
            while i < items.len()
                invariant
                    *v == JsonValue::Array(*items),
                    i <= items.len(),
                    out@.len() == i,
                    forall|k: int|
                        0 <= k < i ==> activity_fields(#[trigger] items@[k]) == Some(
                            (
                                out@[k].id,
                                crate::model::option_text(out@[k].parent_title),
                                out@[k].name@,
                            ),
                        ),
                decreases items.len() - i,
            {
                match decode_activity(&items[i]) {
                    Some(a) => out.push(a),
                    None => {
                        assert(activity_fields(items@[i as int]) is None);
                        assert(!is_activity_list(*v));
                        return None;
                    },
                }
                i = i + 1;
            }
            Some(out)
        },
        _ => None,
    }
}

} // verus!
