use crate::json::{int_of, member, str_of, Json};
use vstd::prelude::*;
use vstd::string::StringExecFns;

verus! {

/// The text of one element of a description's `extra` array: the element
/// itself where it is a string, else its `text` member, else nothing.
pub open spec fn element_text(e: Json) -> Seq<char> {
    match e {
        Json::Str(s) => s@,
        _ => match str_of(member(Some(e), "text"@)) {
            Some(t) => t,
            None => Seq::empty(),
        },
    }
}

/// The texts of the elements of `items`, one after another.
pub open spec fn extra_text(items: Seq<Json>) -> Seq<char>
    decreases items.len(),
{
    if items.len() == 0 {
        Seq::empty()
    } else {
        extra_text(items.drop_last()) + element_text(items.last())
    }
}

/// The message of the day held in a status `description`: the texts of its
/// `extra` array where it has one, else the description itself where it is a
/// string, else its `text` member, else nothing.
pub open spec fn description_text(d: Option<Json>) -> Seq<char> {
    match member(d, "extra"@) {
        Some(Json::Array(items)) => extra_text(items@),
        _ => match str_of(d) {
            Some(t) => t,
            None => match str_of(member(d, "text"@)) {
                Some(t) => t,
                None => Seq::empty(),
            },
        },
    }
}

/// The text of `v` where it is a string, else `default`.
pub open spec fn text_or(v: Option<Json>, default: Seq<char>) -> Seq<char> {
    match str_of(v) {
        Some(t) => t,
        None => default,
    }
}

/// The integer `v` where it is one that fits `i64`, else `default`.
pub open spec fn int_or(v: Option<Json>, default: i64) -> i64 {
    match int_of(v) {
        Some(i) => i,
        None => default,
    }
}

/// The protocol version that a server's status document announces, 765 where
/// it announces none.
pub open spec fn protocol_spec(status: Json) -> i64 {
    int_or(member(member(Some(status), "version"@), "protocol"@), 765)
}

/// The fields of a discovered server's record that the console shows.
pub struct StatusWrap {
    pub ip: String,
    pub port: String,
    pub license: i64,
    pub version: String,
    pub description: String,
    pub online: i64,
    pub max_online: i64,
}

/// The text of `v` where it is a string, else a copy of `default`.
fn text_or_default(v: Option<&Json>, default: &str) -> (r: String)
    ensures
        r@ == text_or(
            match v {
                Some(j) => Some(*j),
                None => None,
            },
            default@,
        ),
{
    match v {
        Some(Json::Str(s)) => s.clone(),
        _ => default.to_owned(),
    }
}

/// The integer `v` where it is one that fits `i64`, else `default`.
fn int_or_default(v: Option<&Json>, default: i64) -> (r: i64)
    ensures
        r == int_or(
            match v {
                Some(j) => Some(*j),
                None => None,
            },
            default,
        ),
{
    match v {
        Some(Json::Int(i)) => *i,
        _ => default,
    }
}

/// The member `key` of `v`, where `v` is an object that has one.
fn get_in<'a>(v: Option<&'a Json>, key: &str) -> (r: Option<&'a Json>)
    ensures
        match r {
            Some(x) => member(
                match v {
                    Some(j) => Some(*j),
                    None => None,
                },
                key@,
            ) == Some(*x),
            None => member(
                match v {
                    Some(j) => Some(*j),
                    None => None,
                },
                key@,
            ) is None,
        },
{
    match v {
        Some(j) => j.get(key),
        None => None,
    }
}

/// The message of the day of a status document, normalised to one string. Any
/// document gives a string, possibly empty.
pub fn description_of(status: &Json) -> (r: String)
    ensures
        r@ == description_text(member(Some(*status), "description"@)),
{
    let description = status.get("description");
    let mut result = String::new();
    match get_in(description, "extra") {
        Some(Json::Array(items)) => {
            let mut i: usize = 0;
            while i < items.len()
                invariant
                    i <= items@.len(),
                    result@ == extra_text(items@.take(i as int)),
                decreases items@.len() - i,
            {
                let element = &items[i];
                match element {
                    Json::Str(s) => result.append(s.as_str()),
                    _ => match element.get("text") {
                        Some(Json::Str(t)) => result.append(t.as_str()),
                        _ => {},
                    },
                }
                assert(items@.take(i as int + 1).drop_last() =~= items@.take(i as int));
                i = i + 1;
                assert(result@ =~= extra_text(items@.take(i as int)));
            }
            assert(items@.take(i as int) =~= items@);
        },
        _ => {
            match description {
                Some(Json::Str(t)) => result.append(t.as_str()),
                _ => match get_in(description, "text") {
                    Some(Json::Str(t)) => result.append(t.as_str()),
                    _ => {},
                },
            }
            assert(result@ =~= description_text(member(Some(*status), "description"@)));
        },
    }
    result
}

/// The protocol version that a status document announces, 765 where it
/// announces none.
pub fn protocol_of(status: &Json) -> (r: i64)
    ensures
        r == protocol_spec(*status),
{
    int_or_default(get_in(status.get("version"), "protocol"), 765)
}

impl StatusWrap {
    /// Reads a server record: `ip`, `port` and `license` at the top, the status
    /// document under `status`. Missing texts read as `"err"`, missing numbers
    /// as -1.
    pub fn from_value(value: &Json) -> (r: StatusWrap)
        ensures
            r.ip@ == text_or(member(Some(*value), "ip"@), "err"@),
            r.port@ == text_or(member(Some(*value), "port"@), "err"@),
            r.license == int_or(member(Some(*value), "license"@), -1i64),
            r.version@ == text_or(
                member(member(member(Some(*value), "status"@), "version"@), "name"@),
                "err"@,
            ),
            r.description@ == match member(Some(*value), "status"@) {
                Some(s) => description_text(member(Some(s), "description"@)),
                None => Seq::<char>::empty(),
            },
            r.online == int_or(
                member(member(member(Some(*value), "status"@), "players"@), "online"@),
                -1i64,
            ),
            r.max_online == int_or(
                member(member(member(Some(*value), "status"@), "players"@), "max"@),
                -1i64,
            ),
    {
        let status = value.get("status");
        let players = get_in(status, "players");
        let description = match status {
            Some(s) => description_of(s),
            None => String::new(),
        };
        StatusWrap {
            ip: text_or_default(value.get("ip"), "err"),
            port: text_or_default(value.get("port"), "err"),
            license: int_or_default(value.get("license"), -1),
            version: text_or_default(get_in(get_in(status, "version"), "name"), "err"),
            description,
            online: int_or_default(get_in(players, "online"), -1),
            max_online: int_or_default(get_in(players, "max"), -1),
        }
    }
}

} // verus!
