use mcp_hybrid_search::protocol::{
    Json, JsonNumber, JsonRpcRequest, JsonRpcResponse, INTERNAL_ERROR, INVALID_PARAMS,
    INVALID_REQUEST, METHOD_NOT_FOUND, PARSE_ERROR,
};

fn to_value(j: &Json) -> serde_json::Value {
    match j {
        Json::Null => serde_json::Value::Null,
        Json::Bool(b) => serde_json::Value::Bool(*b),
        Json::Number(JsonNumber::PosInt(n)) => serde_json::Value::from(*n),
        Json::Number(JsonNumber::NegInt(n)) => serde_json::Value::from(*n),
        Json::Number(JsonNumber::Float(bits)) => serde_json::Value::from(f64::from_bits(*bits)),
        Json::Text(s) => serde_json::Value::String(s.clone()),
        Json::Array(items) => serde_json::Value::Array(items.iter().map(to_value).collect()),
        Json::Object(members) => {
            let mut map = serde_json::Map::new();
            for (k, v) in members {
                map.insert(k.clone(), to_value(v));
            }
            serde_json::Value::Object(map)
        }
    }
}

fn from_value(v: &serde_json::Value) -> Json {
    match v {
        serde_json::Value::Null => Json::Null,
        serde_json::Value::Bool(b) => Json::Bool(*b),
        serde_json::Value::Number(n) => {
            if let Some(u) = n.as_u64() {
                Json::Number(JsonNumber::PosInt(u))
            } else if let Some(i) = n.as_i64() {
                Json::Number(JsonNumber::NegInt(i))
            } else {
                Json::Number(JsonNumber::Float(n.as_f64().unwrap().to_bits()))
            }
        }
        serde_json::Value::String(s) => Json::Text(s.clone()),
        serde_json::Value::Array(items) => Json::Array(items.iter().map(from_value).collect()),
        serde_json::Value::Object(map) => {
            Json::Object(map.iter().map(|(k, v)| (k.clone(), from_value(v))).collect())
        }
    }
}

fn response_value(r: &JsonRpcResponse) -> serde_json::Value {
    let mut map = serde_json::Map::new();
    map.insert("jsonrpc".to_string(), serde_json::Value::String(r.jsonrpc.clone()));
    if let Some(id) = &r.id {
        map.insert("id".to_string(), to_value(id));
    }
    if let Some(result) = &r.result {
        map.insert("result".to_string(), to_value(result));
    }
    if let Some(e) = &r.error {
        let mut error = serde_json::Map::new();
        error.insert("code".to_string(), serde_json::Value::from(e.code));
        error.insert("message".to_string(), serde_json::Value::String(e.message.clone()));
        if let Some(data) = &e.data {
            error.insert("data".to_string(), to_value(data));
        }
        map.insert("error".to_string(), serde_json::Value::Object(error));
    }
    serde_json::Value::Object(map)
}

fn request_from(v: &serde_json::Value) -> JsonRpcRequest {
    let field = |key: &str| match v.get(key) {
        None | Some(serde_json::Value::Null) => None,
        Some(x) => Some(from_value(x)),
    };
    JsonRpcRequest {
        jsonrpc: v["jsonrpc"].as_str().unwrap().to_string(),
        id: field("id"),
        method: v["method"].as_str().unwrap().to_string(),
        params: field("params"),
    }
}

#[test]
fn test_success_response_serialization() {
    let resp = JsonRpcResponse::success(
        Some(Json::Number(JsonNumber::PosInt(1))),
        Json::Object(vec![("status".to_string(), Json::Text("ok".to_string()))]),
    );
    let json_str = serde_json::to_string(&response_value(&resp)).unwrap();
    let parsed: serde_json::Value = serde_json::from_str(&json_str).unwrap();
    assert_eq!(parsed["jsonrpc"], "2.0");
    assert_eq!(parsed["id"], 1);
    assert_eq!(parsed["result"]["status"], "ok");
    assert!(parsed.get("error").is_none());
}

#[test]
fn test_error_response_serialization() {
    let resp = JsonRpcResponse::error(
        Some(Json::Number(JsonNumber::PosInt(2))),
        METHOD_NOT_FOUND,
        "not found",
    );
    let json_str = serde_json::to_string(&response_value(&resp)).unwrap();
    let parsed: serde_json::Value = serde_json::from_str(&json_str).unwrap();
    assert_eq!(parsed["error"]["code"], -32601);
    assert_eq!(parsed["error"]["message"], "not found");
    assert!(parsed.get("result").is_none());
}

#[test]
fn test_request_deserialization() {
    let json_str = r#"{
            "jsonrpc": "2.0",
            "id": 1,
            "method": "tools/list",
            "params": null
        }"#;
    let value: serde_json::Value = serde_json::from_str(json_str).unwrap();
    let req: JsonRpcRequest = request_from(&value);
    assert_eq!(req.method, "tools/list");
    assert_eq!(req.id.as_ref().map(to_value), Some(serde_json::Value::from(1)));
    assert!(req.params.is_none());
}

#[test]
fn error_codes_are_the_standard_ones() {
    assert_eq!(PARSE_ERROR, -32700);
    assert_eq!(INVALID_REQUEST, -32600);
    assert_eq!(METHOD_NOT_FOUND, -32601);
    assert_eq!(INVALID_PARAMS, -32602);
    assert_eq!(INTERNAL_ERROR, -32603);
}

#[test]
fn get_finds_the_first_member_of_that_name() {
    let obj = Json::Object(vec![
        ("a".to_string(), Json::Bool(true)),
        ("b".to_string(), Json::text("x")),
        ("a".to_string(), Json::Null),
    ]);
    assert!(matches!(obj.get("a"), Some(Json::Bool(true))));
    assert_eq!(obj.get("b").and_then(|v| v.as_text()), Some("x"));
    assert!(obj.get("c").is_none());
    assert!(Json::text("a").get("a").is_none());
    assert!(Json::Null.as_text().is_none());
}

#[test]
fn take_moves_the_first_member_out() {
    let obj = Json::Object(vec![
        ("k".to_string(), Json::text("first")),
        ("other".to_string(), Json::Null),
        ("k".to_string(), Json::text("second")),
    ]);
    let taken = obj.take("k");
    assert_eq!(taken.as_ref().and_then(|v| v.as_text()), Some("first"));
    assert!(Json::empty_object().take("k").is_none());
    assert!(Json::Array(vec![]).take("k").is_none());
}

#[test]
fn constructors_build_what_they_say() {
    assert_eq!(to_value(&Json::empty_object()), serde_json::Value::Object(Default::default()));
    let arr = Json::array(vec![Json::Bool(false), Json::text("t")]);
    assert_eq!(serde_json::to_string(&to_value(&arr)).unwrap(), r#"[false,"t"]"#);
    let mut members = Vec::new();
    mcp_hybrid_search::protocol::push_member(&mut members, "n", Json::Number(JsonNumber::NegInt(-3)));
    let mut items = Vec::new();
    mcp_hybrid_search::protocol::push_item(&mut items, Json::object(members));
    assert_eq!(serde_json::to_string(&to_value(&Json::array(items))).unwrap(), r#"[{"n":-3}]"#);
}

#[test]
fn response_without_id_omits_it() {
    let resp = JsonRpcResponse::success(None, Json::empty_object());
    let v = response_value(&resp);
    assert!(v.get("id").is_none());
    assert_eq!(v["result"], serde_json::Value::Object(Default::default()));
}
