use steersman_core::auth::{pool_of, rfc3339_utc, set_pool, set_provider_pool, stamp_store};
use steersman_core::json::{set_member, Json};

fn conv(v: &serde_json::Value) -> Json {
    match v {
        serde_json::Value::Null => Json::Null,
        serde_json::Value::Bool(b) => Json::Bool(*b),
        serde_json::Value::Number(n) => Json::Number(n.to_string()),
        serde_json::Value::String(s) => Json::Str(s.clone()),
        serde_json::Value::Array(a) => Json::Array(a.iter().map(conv).collect()),
        serde_json::Value::Object(o) => {
            Json::Object(o.iter().map(|(k, v)| (k.clone(), conv(v))).collect())
        }
    }
}

fn back(j: &Json) -> serde_json::Value {
    match j {
        Json::Null => serde_json::Value::Null,
        Json::Bool(b) => serde_json::Value::Bool(*b),
        Json::Number(t) => serde_json::from_str(t).unwrap(),
        Json::Str(s) => serde_json::Value::String(s.clone()),
        Json::Array(a) => serde_json::Value::Array(a.iter().map(back).collect()),
        Json::Object(o) => serde_json::Value::Object(o.iter().map(|(k, v)| (k.clone(), back(v))).collect()),
    }
}

fn parse(t: &str) -> Json {
    conv(&serde_json::from_str(t).unwrap())
}

fn value(t: &str) -> serde_json::Value {
    serde_json::from_str(t).unwrap()
}

#[test]
fn member_is_replaced_in_place_or_added() {
    let j = set_member(parse(r#"{"a":1,"b":2}"#), "a", parse("3"));
    assert_eq!(back(&j), value(r#"{"a":3,"b":2}"#));
    match &j {
        Json::Object(es) => assert_eq!(es[0].0, "a"),
        _ => panic!("not an object"),
    }
    let j = set_member(parse(r#"{"a":1}"#), "c", parse("true"));
    assert_eq!(back(&j), value(r#"{"a":1,"c":true}"#));
    assert_eq!(back(&set_member(Json::Null, "k", parse("[]"))), value(r#"{"k":[]}"#));
}

#[test]
fn provider_pool_is_written_into_the_auth_store() {
    let store = parse(r#"{"providers":{"x":1},"active_provider":"x"}"#);
    let entries = parse(r#"[{"id":"abc123","priority":0}]"#);
    let updated = set_provider_pool(store, "openai", entries);
    assert_eq!(
        back(&updated),
        value(r#"{"providers":{"x":1},"active_provider":"x","credential_pool":{"openai":[{"id":"abc123","priority":0}]}}"#)
    );
    let again = set_provider_pool(updated, "groq", parse("[]"));
    assert_eq!(back(&pool_of(&again)), value(r#"{"openai":[{"id":"abc123","priority":0}],"groq":[]}"#));
    let replaced = set_provider_pool(again, "openai", parse("[]"));
    assert_eq!(back(&pool_of(&replaced)), value(r#"{"openai":[],"groq":[]}"#));
}

#[test]
fn pool_defaults_to_empty_and_can_be_replaced_whole() {
    assert_eq!(back(&pool_of(&parse("{}"))), value("{}"));
    let s = set_pool(parse(r#"{"credential_pool":{"a":[]},"v":1}"#), parse("{}"));
    assert_eq!(back(&s), value(r#"{"credential_pool":{},"v":1}"#));
    let stamped = stamp_store(parse(r#"{"v":1}"#), 1700000000);
    assert_eq!(back(&stamped), value(r#"{"v":1,"updated_at":"2023-11-14T22:13:20Z"}"#));
}

#[test]
fn rfc3339_text_of_known_moments() {
    assert_eq!(rfc3339_utc(0), "1970-01-01T00:00:00Z");
    assert_eq!(rfc3339_utc(951782400), "2000-02-29T00:00:00Z");
    assert_eq!(rfc3339_utc(4102444799), "2099-12-31T23:59:59Z");
}
