use pasua::json::{find_member, json_eq, member, Json, JsonNumber, Member};

fn m(k: &str, v: Json) -> Member {
    Member { key: k.to_string(), value: v }
}

#[test]
fn json_equality_is_structural() {
    let a = Json::Object(vec![m("x", Json::Array(vec![Json::Bool(true), Json::Null]))]);
    let b = Json::Object(vec![m("x", Json::Array(vec![Json::Bool(true), Json::Null]))]);
    let c = Json::Object(vec![m("y", Json::Array(vec![Json::Bool(true), Json::Null]))]);
    assert!(json_eq(&a, &b));
    assert!(!json_eq(&a, &c));
    assert!(!json_eq(&Json::Number(JsonNumber::PosInt(1)), &Json::Number(JsonNumber::Float("1.0".into()))));
    assert!(json_eq(&Json::Number(JsonNumber::NegInt(-3)), &Json::Number(JsonNumber::NegInt(-3))));
}

#[test]
fn first_member_of_a_key_is_found() {
    let members = vec![m("a", Json::Null), m("b", Json::Bool(false))];
    assert_eq!(find_member(&members, "b"), Some(1));
    assert_eq!(find_member(&members, "c"), None);
    assert!(matches!(member(&members, "b"), Some(Json::Bool(false))));
}
