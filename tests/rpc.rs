use porta::ctx::Ctx;
use porta::json::JsonValue;
use porta::model::ModelManager;
use porta::web::rpc::rpc_handler;

fn s(t: &str) -> JsonValue {
    JsonValue::Str(t.to_string())
}

fn obj(entries: Vec<(&str, JsonValue)>) -> JsonValue {
    JsonValue::Object(entries.into_iter().map(|(k, v)| (k.to_string(), v)).collect())
}

fn member<'a>(v: &'a JsonValue, key: &str) -> Option<&'a JsonValue> {
    match v {
        JsonValue::Object(fields) => fields.iter().find(|(k, _)| k == key).map(|(_, v)| v),
        _ => None,
    }
}

fn text(v: Option<&JsonValue>) -> Option<&str> {
    match v {
        Some(JsonValue::Str(s)) => Some(s.as_str()),
        _ => None,
    }
}

fn integer(v: Option<&JsonValue>) -> Option<i64> {
    match v {
        Some(JsonValue::Number(n)) => Some(*n),
        _ => None,
    }
}

fn error_type(resp: &JsonValue) -> Option<&str> {
    text(member(member(resp, "error")?, "type"))
}

fn bounty_data(title: &str) -> JsonValue {
    obj(vec![
        ("bounty_title", s(title)),
        ("bounty_assignee", s("assignee")),
        ("bounty_reward", s("100 USDC")),
        ("bounty_deliverables", s("code")),
        ("bounty_description", s("desc")),
    ])
}

fn call(mm: &mut ModelManager, id: &str, method: &str, params: Option<JsonValue>) -> JsonValue {
    let mut entries = vec![("id", s(id)), ("method", s(method))];
    if let Some(p) = params {
        entries.push(("params", p));
    }
    rpc_handler(Ctx::root_ctx(), mm, obj(entries))
}

#[test]
fn list_bounty_on_empty_store() {
    let mut mm = ModelManager::new();
    let resp = call(&mut mm, "1", "list_bounty", None);
    assert_eq!(text(member(&resp, "id")), Some("1"));
    match member(&resp, "result") {
        Some(JsonValue::Array(items)) => assert!(items.is_empty()),
        other => panic!("expected an empty result array, got {:?}", other),
    }
    assert!(member(&resp, "error").is_none());
}

#[test]
fn update_bounty_on_missing_id() {
    let mut mm = ModelManager::new();
    let params = obj(vec![
        ("id", JsonValue::Number(1000)),
        ("data", obj(vec![("bounty_title", s("AUX-02"))])),
    ]);
    let resp = call(&mut mm, "1", "update_bounty", Some(params));
    assert_eq!(text(member(&resp, "id")), Some("1"));
    assert!(member(&resp, "result").is_none());
    let err = member(&resp, "error").unwrap();
    assert_eq!(text(member(err, "type")), Some("EntityNotFound"));
    let data = member(err, "data").unwrap();
    assert_eq!(text(member(data, "entity")), Some("bounty"));
    assert_eq!(integer(member(data, "id")), Some(1000));
}

#[test]
fn unknown_method_is_an_error() {
    let mut mm = ModelManager::new();
    let resp = call(&mut mm, "7", "drop_everything", None);
    assert_eq!(text(member(&resp, "id")), Some("7"));
    assert!(member(&resp, "result").is_none());
    assert_eq!(error_type(&resp), Some("MethodUnknown"));
    let data = member(member(&resp, "error").unwrap(), "data").unwrap();
    assert_eq!(text(member(data, "method")), Some("drop_everything"));
}

#[test]
fn envelope_without_method_fails_to_parse() {
    let mut mm = ModelManager::new();
    let resp = rpc_handler(Ctx::root_ctx(), &mut mm, obj(vec![("id", s("3"))]));
    assert_eq!(text(member(&resp, "id")), Some("3"));
    assert_eq!(error_type(&resp), Some("RpcRequestParsingFail"));
    let resp = rpc_handler(Ctx::root_ctx(), &mut mm, s("not an object"));
    assert!(matches!(member(&resp, "id"), Some(JsonValue::Null)));
    assert_eq!(error_type(&resp), Some("RpcRequestParsingFail"));
}

#[test]
fn create_with_incomplete_params_fails() {
    let mut mm = ModelManager::new();
    let params = obj(vec![("data", obj(vec![("bounty_title", s("only title"))]))]);
    let resp = call(&mut mm, "2", "create_bounty", Some(params));
    assert_eq!(error_type(&resp), Some("ParamsParsingFail"));
    let resp = call(&mut mm, "2", "create_bounty", None);
    assert_eq!(error_type(&resp), Some("ParamsParsingFail"));
    let resp = call(&mut mm, "3", "list_bounty", None);
    assert!(matches!(member(&resp, "result"), Some(JsonValue::Array(items)) if items.is_empty()));
}

#[test]
fn create_update_delete_bounty_through_rpc() {
    let mut mm = ModelManager::new();
    let resp = call(
        &mut mm,
        "1",
        "create_bounty",
        Some(obj(vec![("data", bounty_data("AUX-01"))])),
    );
    let created = member(&resp, "result").unwrap();
    assert_eq!(integer(member(created, "id")), Some(1));
    assert_eq!(text(member(created, "bounty_title")), Some("AUX-01"));
    assert_eq!(text(member(created, "bounty_reward")), Some("100 USDC"));

    let resp = call(
        &mut mm,
        "2",
        "create_bounty",
        Some(obj(vec![("data", bounty_data("AUX-01"))])),
    );
    assert_eq!(error_type(&resp), Some("EntityAlreadyExists"));

    let resp = call(
        &mut mm,
        "3",
        "update_bounty",
        Some(obj(vec![
            ("id", JsonValue::Number(1)),
            ("data", obj(vec![("bounty_title", s("AUX-02")), ("bounty_assignee", JsonValue::Null)])),
        ])),
    );
    let updated = member(&resp, "result").unwrap();
    assert_eq!(text(member(updated, "bounty_title")), Some("AUX-02"));
    assert_eq!(text(member(updated, "bounty_assignee")), Some("assignee"));

    let resp = call(&mut mm, "4", "list_bounty", None);
    match member(&resp, "result") {
        Some(JsonValue::Array(items)) => {
            assert_eq!(items.len(), 1);
            assert_eq!(text(member(&items[0], "bounty_title")), Some("AUX-02"));
        }
        other => panic!("expected a result array, got {:?}", other),
    }

    let resp = call(&mut mm, "5", "delete_bounty", Some(obj(vec![("id", JsonValue::Number(1))])));
    assert_eq!(text(member(member(&resp, "result").unwrap(), "bounty_title")), Some("AUX-02"));
    let resp = call(&mut mm, "6", "delete_bounty", Some(obj(vec![("id", JsonValue::Number(1))])));
    assert_eq!(error_type(&resp), Some("EntityNotFound"));
}

#[test]
fn project_methods_through_rpc() {
    let mut mm = ModelManager::new();
    let data = obj(vec![
        ("project_id", s("AUX4")),
        ("project_name", s("Pecunia Inception")),
        ("project_lead_address", s("12345iawjejioj")),
        ("project_budget", s("10")),
        ("project_denom", s("USDC")),
        ("project_type", s("AUX")),
        ("project_description", s("Inception pecunia finance")),
    ]);
    let resp = call(&mut mm, "1", "create_project", Some(obj(vec![("data", data)])));
    let created = member(&resp, "result").unwrap();
    assert_eq!(text(member(created, "project_id")), Some("AUX4"));
    let resp = call(
        &mut mm,
        "2",
        "update_project",
        Some(obj(vec![
            ("id", JsonValue::Number(1)),
            ("data", obj(vec![("project_denom", s("XMR"))])),
        ])),
    );
    let updated = member(&resp, "result").unwrap();
    assert_eq!(text(member(updated, "project_denom")), Some("XMR"));
    assert_eq!(text(member(updated, "project_name")), Some("Pecunia Inception"));
    let resp = call(&mut mm, "3", "list_project", None);
    assert!(matches!(member(&resp, "result"), Some(JsonValue::Array(items)) if items.len() == 1));
    let resp = call(&mut mm, "4", "delete_project", Some(obj(vec![("id", s("1"))])));
    assert_eq!(error_type(&resp), Some("ParamsParsingFail"));
    let resp = call(&mut mm, "5", "delete_project", Some(obj(vec![("id", JsonValue::Number(1))])));
    assert!(member(&resp, "result").is_some());
}
