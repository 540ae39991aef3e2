//! JSON values and the JSON-RPC 2.0 envelope of the tool-call server.

use vstd::prelude::*;
use crate::text::str_eq;

verus! {

/// A JSON number: a non-negative integer, a negative integer, or a
/// floating-point number held as the 64 bits of its IEEE 754 form.
#[derive(Clone, Copy, Debug)]
pub enum JsonNumber {
    PosInt(u64),
    NegInt(i64),
    Float(u64),
}

/// A JSON value. An object holds its members in the order they were given.
#[derive(Debug)]
pub enum Json {
    Null,
    Bool(bool),
    Number(JsonNumber),
    Text(String),
    Array(Vec<Json>),
    Object(Vec<(String, Json)>),
}

/// A JSON value as plain sequences.
pub ghost enum JsonView {
    Null,
    Bool(bool),
    Number(JsonNumber),
    Text(Seq<char>),
    Array(Seq<JsonView>),
    Object(Seq<(Seq<char>, JsonView)>),
}

/// What a JSON value holds, as plain sequences.
pub open spec fn json_view(value: Json) -> JsonView
    decreases value,
{
    match value {
        Json::Null => JsonView::Null,
        Json::Bool(b) => JsonView::Bool(b),
        Json::Number(n) => JsonView::Number(n),
        Json::Text(s) => JsonView::Text(s@),
        Json::Array(items) => JsonView::Array(
            Seq::new(
                items@.len(),
                |i: int|
                    if 0 <= i < items@.len() {
                        json_view(items@[i])
                    } else {
                        JsonView::Null
                    },
            ),
        ),
        Json::Object(members) => JsonView::Object(
            Seq::new(
                members@.len(),
                |i: int|
                    if 0 <= i < members@.len() {
                        (members@[i].0@, json_view(members@[i].1))
                    } else {
                        (Seq::empty(), JsonView::Null)
                    },
            ),
        ),
    }
}

impl View for Json {
    type V = JsonView;

    open spec fn view(&self) -> JsonView {
        json_view(*self)
    }
}

/// The view of an object is the views of its members, in order.
pub proof fn lemma_object_view(members: Vec<(String, Json)>)
    ensures
        Json::Object(members)@ == JsonView::Object(members_view(members@)),
{
    reveal_with_fuel(json_view, 2);
    assert(Json::Object(members)@->Object_0 =~= members_view(members@));
}

/// The view of an array is the views of its items, in order.
pub proof fn lemma_array_view(items: Vec<Json>)
    ensures
        Json::Array(items)@ == JsonView::Array(items_view(items@)),
{
    reveal_with_fuel(json_view, 2);
    assert(Json::Array(items)@->Array_0 =~= items_view(items@));
}

/// The views of the members of an object.
pub open spec fn members_view(members: Seq<(String, Json)>) -> Seq<(Seq<char>, JsonView)> {
    Seq::new(members.len(), |i: int| (members[i].0@, members[i].1@))
}

/// The views of the items of an array.
pub open spec fn items_view(items: Seq<Json>) -> Seq<JsonView> {
    Seq::new(items.len(), |i: int| items[i]@)
}

/// The view of an optional value.
pub open spec fn opt_json_view(value: Option<Json>) -> Option<JsonView> {
    match value {
        Some(v) => Some(v@),
        None => None,
    }
}

/// The value of the first member named `key`.
pub open spec fn lookup(members: Seq<(Seq<char>, JsonView)>, key: Seq<char>) -> Option<JsonView>
    decreases members.len(),
{
    if members.len() == 0 {
        None
    } else if members[0].0 == key {
        Some(members[0].1)
    } else {
        lookup(members.drop_first(), key)
    }
}

/// The member `key` of a value: `None` unless the value is an object that
/// has such a member.
pub open spec fn member(value: JsonView, key: Seq<char>) -> Option<JsonView> {
    match value {
        JsonView::Object(members) => lookup(members, key),
        _ => None,
    }
}

/// The text of a value: `None` unless the value is a string.
pub open spec fn text_of(value: Option<JsonView>) -> Option<Seq<char>> {
    match value {
        Some(JsonView::Text(s)) => Some(s),
        _ => None,
    }
}

impl Json {
    /// The JSON string `s`.
    pub fn text(s: &str) -> (r: Json)
        ensures
            r@ == JsonView::Text(s@),
    {
        Json::Text(s.to_owned())
    }

    /// The JSON object with the given members.
    pub fn object(members: Vec<(String, Json)>) -> (r: Json)
        ensures
            r@ == JsonView::Object(members_view(members@)),
    {
        proof {
            lemma_object_view(members);
        }
        Json::Object(members)
    }

    /// The JSON array with the given items.
    pub fn array(items: Vec<Json>) -> (r: Json)
        ensures
            r@ == JsonView::Array(items_view(items@)),
    {
        proof {
            lemma_array_view(items);
        }
        Json::Array(items)
    }

    /// The JSON object without members, `{}`.
    pub fn empty_object() -> (r: Json)
        ensures
            r@ == JsonView::Object(Seq::empty()),
    {
        let members: Vec<(String, Json)> = Vec::new();
        assert(members_view(members@) =~= Seq::empty());
        Json::object(members)
    }

    /// The first member named `key`, where this value is an object that has
    /// one.
    pub fn get(&self, key: &str) -> (r: Option<&Json>)
        ensures
            match r {
                Some(v) => member(self@, key@) == Some(v@),
                None => member(self@, key@) is None,
            },
    {
        match self {
            Json::Object(members) => {
                let ghost all = members_view(members@);
                proof {
                    lemma_object_view(*members);
                }
                let mut i: usize = 0;
                assert(all.skip(0) =~= all);
                while i < members.len()
                    invariant
                        i <= members.len(),
                        all == members_view(members@),
                        member(self@, key@) == lookup(all, key@),
                        lookup(all, key@) == lookup(all.skip(i as int), key@),
                    decreases members.len() - i,
                {
                    let ghost rest = all.skip(i as int);
                    assert(rest[0] == all[i as int]);
                    if str_eq(members[i].0.as_str(), key) {
                        return Some(&members[i].1);
                    }
                    assert(rest.drop_first() =~= all.skip(i + 1));
                    i += 1;
                }
                None
            },
            _ => None,
        }
    }

    /// The text of this value, where it is a string.
    pub fn as_text(&self) -> (r: Option<&str>)
        ensures
            match r {
                Some(s) => text_of(Some(self@)) == Some(s@),
                None => text_of(Some(self@)) is None,
            },
    {
        match self {
            Json::Text(s) => Some(s.as_str()),
            _ => None,
        }
    }

    /// Takes the first member named `key` out of this value, where it is an
    /// object that has one.
    pub fn take(self, key: &str) -> (r: Option<Json>)
        ensures
            opt_json_view(r) == member(self@, key@),
    {
        match self {
            Json::Object(members) => {
                let ghost all = members_view(members@);
                proof {
                    lemma_object_view(members);
                }
                let mut members = members;
                let mut found: Option<Json> = None;
                assert(all.skip(all.len() as int) =~= Seq::empty());
                while members.len() > 0
                    invariant
                        members.len() <= all.len(),
                        members_view(members@) == all.take(members.len() as int),
                        opt_json_view(found) == lookup(all.skip(members.len() as int), key@),
                    decreases members.len(),
                {
                    let ghost before = members@;
                    let ghost n = members.len() as int;
                    let last = members.pop();
                    proof {
                        assert(members_view(before)[n - 1] == all.take(n)[n - 1]);
                        assert(members_view(members@) =~= all.take(n - 1)) by {
                            assert forall|i: int| 0 <= i < n - 1 implies members_view(
                                members@,
                            )[i] == all.take(n - 1)[i] by {
                                assert(members_view(before)[i] == all.take(n)[i]);
                            }
                        }
                        assert(all.skip(n - 1).drop_first() =~= all.skip(n));
                        assert(all.skip(n - 1)[0] == all[n - 1]);
                    }
                    match last {
                        Some(pair) => {
                            if str_eq(pair.0.as_str(), key) {
                                found = Some(pair.1);
                            }
                        },
                        None => {},
                    }
                }
                assert(all.skip(0) =~= all);
                found
            },
            _ => None,
        }
    }
}

/// Appends the member `key: value` to the members of an object.
pub fn push_member(members: &mut Vec<(String, Json)>, key: &str, value: Json)
    ensures
        members_view(final(members)@) == members_view(old(members)@).push((key@, value@)),
{
    let ghost before = members@;
    members.push((key.to_owned(), value));
    assert(members_view(members@) =~= members_view(before).push((key@, value@)));
}

/// Appends an item to the items of an array.
pub fn push_item(items: &mut Vec<Json>, value: Json)
    ensures
        items_view(final(items)@) == items_view(old(items)@).push(value@),
{
    let ghost before = items@;
    items.push(value);
    assert(items_view(items@) =~= items_view(before).push(value@));
}

/// The request could not be parsed as JSON.
pub const PARSE_ERROR: i32 = -32700;

/// The request is not a JSON-RPC request.
pub const INVALID_REQUEST: i32 = -32600;

/// The method, or the tool, is not known.
pub const METHOD_NOT_FOUND: i32 = -32601;

/// The parameters of the request are missing or wrong.
pub const INVALID_PARAMS: i32 = -32602;

/// The server failed while it handled the request.
pub const INTERNAL_ERROR: i32 = -32603;

/// A JSON-RPC request.
#[derive(Debug)]
pub struct JsonRpcRequest {
    pub jsonrpc: String,
    pub id: Option<Json>,
    pub method: String,
    pub params: Option<Json>,
}

/// The error member of a JSON-RPC response.
#[derive(Debug)]
pub struct JsonRpcError {
    pub code: i32,
    pub message: String,
    pub data: Option<Json>,
}

/// A JSON-RPC response: it carries a result or an error, never both.
#[derive(Debug)]
pub struct JsonRpcResponse {
    pub jsonrpc: String,
    pub id: Option<Json>,
    pub result: Option<Json>,
    pub error: Option<JsonRpcError>,
}

/// A JSON-RPC error as plain values.
pub ghost struct JsonRpcErrorView {
    pub code: i32,
    pub message: Seq<char>,
    pub data: Option<JsonView>,
}

/// A JSON-RPC response as plain values.
pub ghost struct JsonRpcResponseView {
    pub jsonrpc: Seq<char>,
    pub id: Option<JsonView>,
    pub result: Option<JsonView>,
    pub error: Option<JsonRpcErrorView>,
}

impl View for JsonRpcError {
    type V = JsonRpcErrorView;

    open spec fn view(&self) -> JsonRpcErrorView {
        JsonRpcErrorView { code: self.code, message: self.message@, data: opt_json_view(self.data) }
    }
}

impl View for JsonRpcResponse {
    type V = JsonRpcResponseView;

    open spec fn view(&self) -> JsonRpcResponseView {
        JsonRpcResponseView {
            jsonrpc: self.jsonrpc@,
            id: opt_json_view(self.id),
            result: opt_json_view(self.result),
            error: match self.error {
                Some(e) => Some(e@),
                None => None,
            },
        }
    }
}

/// The successful response to the request `id`.
pub open spec fn success_response(id: Option<JsonView>, result: JsonView) -> JsonRpcResponseView {
    JsonRpcResponseView { jsonrpc: "2.0"@, id, result: Some(result), error: None }
}

/// The error response to the request `id`.
pub open spec fn error_response(id: Option<JsonView>, code: i32, message: Seq<char>) -> JsonRpcResponseView {
    JsonRpcResponseView {
        jsonrpc: "2.0"@,
        id,
        result: None,
        error: Some(JsonRpcErrorView { code, message, data: None }),
    }
}

impl JsonRpcResponse {
    /// A response that carries `result`.
    pub fn success(id: Option<Json>, result: Json) -> (r: Self)
        ensures
            r@ == success_response(opt_json_view(id), result@),
    {
        JsonRpcResponse { jsonrpc: "2.0".to_owned(), id, result: Some(result), error: None }
    }

    /// A response that carries the error `code` with `message`.
    pub fn error(id: Option<Json>, code: i32, message: &str) -> (r: Self)
        ensures
            r@ == error_response(opt_json_view(id), code, message@),
    {
        JsonRpcResponse {
            jsonrpc: "2.0".to_owned(),
            id,
            result: None,
            error: Some(JsonRpcError { code, message: message.to_owned(), data: None }),
        }
    }
}

} // verus!
