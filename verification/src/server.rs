//! Telling the packets of a JSON-RPC session apart.
use vstd::prelude::*;

verus! {

#[verifier::external_type_specification]
#[verifier::external_body]
pub struct ExValue(serde_json::Value);

/// A number of a JSON text, as far as it is told apart here: an integer,
/// or a number that is none.
pub enum NumberModel {
    Integer(int),
    Fraction,
}

/// What a JSON value holds.
pub enum JsonModel {
    Null,
    Boolean(bool),
    Number(NumberModel),
    Text(Seq<char>),
    List(Seq<JsonModel>),
    Object(Map<Seq<char>, JsonModel>),
}

/// What a `serde_json::Value` holds.
pub uninterp spec fn json_view(value: serde_json::Value) -> JsonModel;

/// What `serde_json::from_str` makes of a text: what the value holds that
/// the text denotes, if it is well-formed JSON.
pub uninterp spec fn parsed(text: Seq<char>) -> Option<JsonModel>;

/// The member of the name `key` of a JSON value, if the value is an object
/// that has one.
pub open spec fn member_of(json: JsonModel, key: Seq<char>) -> Option<JsonModel> {
    match json {
        JsonModel::Object(members) => if members.contains_key(key) {
            Some(members[key])
        } else {
            None
        },
        _ => None,
    }
}

/// Identifies a request: a number or a text.
#[derive(Debug, PartialEq, Clone, Hash, Eq)]
pub enum Id {
    Number(i64),
    String(String),
}

pub enum IdModel {
    Number(i64),
    String(Seq<char>),
}

impl Id {
    pub open spec fn model(&self) -> IdModel {
        match self {
            Id::Number(n) => IdModel::Number(*n),
            Id::String(s) => IdModel::String(s@),
        }
    }
}

/// What an incoming packet is.
pub enum Incoming {
    /// A request, which is to be answered under its identifier.
    Request { method: String, id: Id, params: serde_json::Value },
    /// A notification, which is not answered.
    Notification { method: String, params: serde_json::Value },
    /// The answer to a request that was sent under `id`.
    Response { id: Id, result: serde_json::Value },
    /// A request or an answer whose identifier is neither a number nor a text.
    BadId,
    /// The `exit` notification, or a packet that is none of the above:
    /// the session ends.
    Stop,
}

pub enum IncomingModel {
    Request { method: Seq<char>, id: IdModel, params: JsonModel },
    Notification { method: Seq<char>, params: JsonModel },
    Response { id: IdModel, result: JsonModel },
    BadId,
    Stop,
}

impl Incoming {
    pub open spec fn model(&self) -> IncomingModel {
        match self {
            Incoming::Request { method, id, params } => IncomingModel::Request {
                method: method@,
                id: id.model(),
                params: json_view(*params),
            },
            Incoming::Notification { method, params } => IncomingModel::Notification {
                method: method@,
                params: json_view(*params),
            },
            Incoming::Response { id, result } => IncomingModel::Response {
                id: id.model(),
                result: json_view(*result),
            },
            Incoming::BadId => IncomingModel::BadId,
            Incoming::Stop => IncomingModel::Stop,
        }
    }
}

/// The identifier member of a packet: absent, unusable, or an identifier.
pub enum IdMember {
    Absent,
    Unusable,
    Usable(Id),
}

pub enum IdMemberModel {
    Absent,
    Unusable,
    Usable(IdModel),
}

impl IdMember {
    pub open spec fn model(&self) -> IdMemberModel {
        match self {
            IdMember::Absent => IdMemberModel::Absent,
            IdMember::Unusable => IdMemberModel::Unusable,
            IdMember::Usable(id) => IdMemberModel::Usable(id.model()),
        }
    }
}

/// What a packet is that is an object with the text member `method`, if it
/// has one, the identifier member `id`, the member `params`, or null in
/// its place, and the member `result`, if it has one. With a method it is
/// the `exit` notification, which ends the session, a request, if it has
/// an identifier, or a notification; without one it is the answer to a
/// request, if it has a result and an identifier, and ends the session
/// otherwise.
pub open spec fn message_of(
    method: Option<Seq<char>>,
    id: IdMemberModel,
    params: JsonModel,
    result: Option<JsonModel>,
) -> IncomingModel {
    match method {
        Some(name) => if name == "exit"@ {
            IncomingModel::Stop
        } else {
            match id {
                IdMemberModel::Absent => IncomingModel::Notification { method: name, params },
                IdMemberModel::Unusable => IncomingModel::BadId,
                IdMemberModel::Usable(id) => IncomingModel::Request { method: name, id, params },
            }
        },
        None => match result {
            Some(result) => match id {
                IdMemberModel::Absent => IncomingModel::Stop,
                IdMemberModel::Unusable => IncomingModel::BadId,
                IdMemberModel::Usable(id) => IncomingModel::Response { id, result },
            },
            None => IncomingModel::Stop,
        },
    }
}

/// The identifier member of a JSON object: an integer in the range of
/// `i64` or a text is an identifier, any other value is unusable.
pub open spec fn id_of(json: JsonModel) -> IdMemberModel {
    match member_of(json, "id"@) {
        None => IdMemberModel::Absent,
        Some(JsonModel::Number(NumberModel::Integer(n))) => if i64::MIN <= n <= i64::MAX {
            IdMemberModel::Usable(IdModel::Number(n as i64))
        } else {
            IdMemberModel::Unusable
        },
        Some(JsonModel::Text(s)) => IdMemberModel::Usable(IdModel::String(s)),
        Some(_) => IdMemberModel::Unusable,
    }
}

/// The text member `method` of a JSON object, if it has one.
pub open spec fn method_of(json: JsonModel) -> Option<Seq<char>> {
    match member_of(json, "method"@) {
        Some(JsonModel::Text(s)) => Some(s),
        _ => None,
    }
}

/// What a packet is, given what its text denotes: a text that is no
/// well-formed JSON, or denotes no object, ends the session; an object is
/// told by its members `method`, `id`, `params` and `result`.
pub open spec fn incoming_of(json: Option<JsonModel>) -> IncomingModel {
    match json {
        Some(JsonModel::Object(members)) => message_of(
            method_of(JsonModel::Object(members)),
            id_of(JsonModel::Object(members)),
            match member_of(JsonModel::Object(members), "params"@) {
                Some(params) => params,
                None => JsonModel::Null,
            },
            member_of(JsonModel::Object(members), "result"@),
        ),
        _ => IncomingModel::Stop,
    }
}

/// What a packet is, as far as it does not depend on the values it carries.
pub enum Class {
    Request,
    Notification,
    Response,
    BadId,
    Stop,
}

/// The class of a packet that is an object with the text member `method`,
/// if it has one, an identifier member `id` and a member `result` or none.
pub open spec fn class_of(method: Option<Seq<char>>, id: IdMember, has_result: bool) -> Class {
    match method {
        Some(name) => if name == "exit"@ {
            Class::Stop
        } else {
            match id {
                IdMember::Absent => Class::Notification,
                IdMember::Unusable => Class::BadId,
                IdMember::Usable(_) => Class::Request,
            }
        },
        None => if has_result {
            match id {
                IdMember::Absent => Class::Stop,
                IdMember::Unusable => Class::BadId,
                IdMember::Usable(_) => Class::Response,
            }
        } else {
            Class::Stop
        },
    }
}

impl Incoming {
    pub open spec fn class(&self) -> Class {
        match self {
            Incoming::Request { .. } => Class::Request,
            Incoming::Notification { .. } => Class::Notification,
            Incoming::Response { .. } => Class::Response,
            Incoming::BadId => Class::BadId,
            Incoming::Stop => Class::Stop,
        }
    }
}

/// Tells what a packet is that is an object with the given members.
pub fn classify(
    method: Option<String>,
    id: IdMember,
    params: serde_json::Value,
    result: Option<serde_json::Value>,
) -> (r: Incoming)
    ensures
        r.class() == class_of(
            match method {
                Some(m) => Some(m@),
                None => None,
            },
            id,
            result is Some,
        ),
        r.model() == message_of(
            match method {
                Some(m) => Some(m@),
                None => None,
            },
            id.model(),
            json_view(params),
            match result {
                Some(x) => Some(json_view(x)),
                None => None,
            },
        ),
        match r {
            Incoming::Request { method: m, id: i, params: p } => method == Some(m) && id
                == IdMember::Usable(i) && p == params,
            Incoming::Notification { method: m, params: p } => method == Some(m) && p == params,
            Incoming::Response { id: i, result: x } => id == IdMember::Usable(i) && result == Some(
                x,
            ),
            _ => true,
        },
{
    match method {
        Some(name) => {
            if crate::text::same_text(name.as_str(), "exit") {
                return Incoming::Stop;
            }
            match id {
                IdMember::Absent => Incoming::Notification { method: name, params: params },
                IdMember::Unusable => Incoming::BadId,
                IdMember::Usable(id) => Incoming::Request { method: name, id: id, params: params },
            }
        },
        None => match result {
            Some(result) => match id {
                IdMember::Absent => Incoming::Stop,
                IdMember::Unusable => Incoming::BadId,
                IdMember::Usable(id) => Incoming::Response { id: id, result: result },
            },
            None => Incoming::Stop,
        },
    }
}

/// `serde_json::from_str`: the value that a text denotes, if it is
/// well-formed JSON. What the value holds is a function of the text
/// alone; nothing more is claimed of it.
#[verifier::external_body]
fn parse_json(packet: &str) -> (r: Option<serde_json::Value>)
    ensures
        match r {
            Some(value) => parsed(packet@) == Some(json_view(value)),
            None => parsed(packet@) is None,
        },
{
    serde_json::from_str(packet).ok()
}

/// `serde_json::Value::is_object`: whether the value is an object.
#[verifier::external_body]
fn is_object(value: &serde_json::Value) -> (r: bool)
    ensures
        r == (json_view(*value) is Object),
{
    value.is_object()
}

/// `serde_json::Value::get` with a text key: a copy of the member of that
/// name, if the value is an object that has one, and nothing otherwise.
#[verifier::external_body]
fn member(value: &serde_json::Value, key: &str) -> (r: Option<serde_json::Value>)
    ensures
        match r {
            Some(found) => member_of(json_view(*value), key@) == Some(json_view(found)),
            None => member_of(json_view(*value), key@) is None,
        },
{
    value.get(key).cloned()
}

/// Indexing a `serde_json::Value` by a text key: a copy of the member of
/// that name, if the value is an object that has one, and null otherwise.
#[verifier::external_body]
fn member_or_null(value: &serde_json::Value, key: &str) -> (r: serde_json::Value)
    ensures
        json_view(r) == match member_of(json_view(*value), key@) {
            Some(found) => found,
            None => JsonModel::Null,
        },
{
    value[key].clone()
}

/// `serde_json::Value::as_str`: the text, if the value is one, and nothing otherwise.
#[verifier::external_body]
fn as_text(value: &serde_json::Value) -> (r: Option<String>)
    ensures
        match r {
            Some(s) => json_view(*value) == JsonModel::Text(s@),
            None => !(json_view(*value) is Text),
        },
{
    match value.as_str() {
        Some(s) => Some(s.to_string()),
        None => None,
    }
}

/// `serde_json::Value::as_i64`: the number, if the value is an integer in
/// the range of `i64`, and nothing otherwise.
#[verifier::external_body]
fn as_integer(value: &serde_json::Value) -> (r: Option<i64>)
    ensures
        match r {
            Some(n) => json_view(*value) == JsonModel::Number(NumberModel::Integer(n as int)),
            None => !(json_view(*value) matches JsonModel::Number(NumberModel::Integer(n))
                && i64::MIN <= n <= i64::MAX),
        },
{
    value.as_i64()
}

/// The identifier member of the object `value`.
fn id_member(value: &serde_json::Value) -> (r: IdMember)
    ensures
        r.model() == id_of(json_view(*value)),
{
    match member(value, "id") {
        None => IdMember::Absent,
        Some(id) => match as_integer(&id) {
            Some(n) => IdMember::Usable(Id::Number(n)),
            None => match as_text(&id) {
                Some(s) => IdMember::Usable(Id::String(s)),
                None => IdMember::Unusable,
            },
        },
    }
}

/// Tells what an incoming packet is. A packet that is no JSON object ends
/// the session; one that is, is classified by its members.
pub fn decode(packet: &str) -> (r: Incoming)
    ensures
        r.model() == incoming_of(parsed(packet@)),
        match r {
            Incoming::Request { method, .. } => method@ != "exit"@,
            Incoming::Notification { method, .. } => method@ != "exit"@,
            _ => true,
        },
{
    let json = match parse_json(packet) {
        Some(value) => value,
        None => return Incoming::Stop,
    };
    if !is_object(&json) {
        return Incoming::Stop;
    }
    let method = match member(&json, "method") {
        Some(m) => as_text(&m),
        None => None,
    };
    let id = id_member(&json);
    let params = member_or_null(&json, "params");
    let result = member(&json, "result");
    classify(method, id, params, result)
}

/// Numbers the requests of a session from 1.
pub struct Counter {
    id: i64,
}

impl Counter {
    /// The number that was given out last, or 0.
    pub closed spec fn last(&self) -> int {
        self.id as int
    }

    pub fn new() -> (r: Counter)
        ensures
            r.last() == 0,
    {
        Counter { id: 0 }
    }

    /// The number that was given out last, or 0.
    pub fn given(&self) -> (r: i64)
        ensures
            r == self.last(),
    {
        self.id
    }

    pub fn next(&mut self) -> (r: i64)
        requires
            old(self).last() < i64::MAX,
        ensures
            r == old(self).last() + 1,
            final(self).last() == r,
    {
        self.id += 1;
        return self.id;
    }
}

} // verus!
