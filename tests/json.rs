use tungsten_workspace::json::{json_merge_with, merge_non_null_json_value_into, merged, JsonMember, JsonValue};

fn num(n: i64) -> JsonValue {
    JsonValue::Other(serde_json::Value::from(n))
}

fn obj(members: Vec<(&str, JsonValue)>) -> JsonValue {
    JsonValue::Object(members.into_iter().map(|(k, v)| JsonMember { key: k.to_string(), value: v }).collect())
}

/// A readable rendering of a value, keys in member order.
fn show(v: &JsonValue) -> String {
    match v {
        JsonValue::Null => "null".to_string(),
        JsonValue::Other(o) => o.to_string(),
        JsonValue::Object(ms) => {
            let inner: Vec<String> = ms.iter().map(|m| format!("{}:{}", m.key, show(&m.value))).collect();
            format!("{{{}}}", inner.join(","))
        }
    }
}

#[test]
fn null_source_leaves_the_target() {
    assert_eq!(show(&merged(JsonValue::Null, num(3))), "3");
}

#[test]
fn scalar_source_replaces_the_target() {
    assert_eq!(show(&merged(num(4), obj(vec![("a", num(1))]))), "4");
}

#[test]
fn objects_merge_member_by_member() {
    let target = obj(vec![("a", num(1)), ("b", obj(vec![("x", num(1)), ("y", num(2))]))]);
    let source = obj(vec![
        ("b", obj(vec![("y", num(20)), ("z", JsonValue::Null)])),
        ("c", num(3)),
        ("d", JsonValue::Null),
        ("a", JsonValue::Null),
    ]);
    assert_eq!(show(&merged(source, target)), "{a:1,b:{x:1,y:20},c:3}");
}

#[test]
fn object_source_over_a_non_object_starts_empty() {
    let source = obj(vec![("k", num(1)), ("n", JsonValue::Null)]);
    assert_eq!(show(&merged(source, num(9))), "{k:1}");
}

#[test]
fn merge_into_updates_in_place() {
    let mut target = obj(vec![("font", num(12))]);
    merge_non_null_json_value_into(obj(vec![("font", num(14))]), &mut target);
    assert_eq!(show(&target), "{font:14}");
}

#[test]
fn later_customizations_win() {
    let defaults = obj(vec![("size", num(14)), ("family", JsonValue::Other(serde_json::Value::from("Courier")))]);
    let user = obj(vec![("size", num(16)), ("family", JsonValue::Null)]);
    assert_eq!(show(&json_merge_with(vec![defaults, user])), "{size:16,family:\"Courier\"}");
    assert_eq!(show(&json_merge_with(vec![])), "null");
}
