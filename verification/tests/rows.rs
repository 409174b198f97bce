use doc_fn::decimal::decimal_string;
use doc_fn::json::JsonValue;
use doc_fn::table::{
    statement_request, StatementResponse, Warehouse, WarehousesResponse, STATEMENTS_PATH,
    WAREHOUSES_PATH,
};

fn from_serde(v: serde_json::Value) -> JsonValue {
    match v {
        serde_json::Value::Null => JsonValue::Null,
        serde_json::Value::Bool(b) => JsonValue::Bool(b),
        serde_json::Value::Number(n) => JsonValue::Number(n.to_string()),
        serde_json::Value::String(s) => JsonValue::Str(s),
        serde_json::Value::Array(items) => JsonValue::Array(items.into_iter().map(from_serde).collect()),
        serde_json::Value::Object(map) => {
            JsonValue::Object(map.into_iter().map(|(k, v)| (k, from_serde(v))).collect())
        }
    }
}

fn to_serde(v: JsonValue) -> serde_json::Value {
    match v {
        JsonValue::Null => serde_json::Value::Null,
        JsonValue::Bool(b) => serde_json::Value::Bool(b),
        JsonValue::Number(n) => serde_json::Value::Number(n.parse().unwrap()),
        JsonValue::Str(s) => serde_json::Value::String(s),
        JsonValue::Array(items) => serde_json::Value::Array(items.into_iter().map(to_serde).collect()),
        JsonValue::Object(members) => {
            let mut map = serde_json::Map::new();
            for (k, v) in members {
                map.insert(k, to_serde(v));
            }
            serde_json::Value::Object(map)
        }
    }
}

fn parse(text: &str) -> JsonValue {
    from_serde(serde_json::from_str(text).unwrap())
}

fn response(manifest: Option<&str>, result: Option<&str>) -> StatementResponse {
    StatementResponse {
        statement_id: Some("01ef-abc".to_string()),
        status: Some(parse(r#"{"state":"SUCCEEDED"}"#)),
        manifest: manifest.map(parse),
        result: result.map(parse),
    }
}

fn expect(resp: &StatementResponse, expected: &str) {
    let rows = to_serde(resp.rows_as_json());
    let expected: serde_json::Value = serde_json::from_str(expected).unwrap();
    assert_eq!(rows, expected);
}

const DIAMONDS_MANIFEST: &str = r#"{"format":"JSON_ARRAY","schema":{"column_count":4,"columns":[
    {"name":"carat","type_name":"DOUBLE","position":0},
    {"name":"cut","type_name":"STRING","position":1},
    {"name":"color","type_name":"STRING","position":2},
    {"name":"clarity","type_name":"STRING","position":3}]}}"#;

#[test]
fn rows_combine_columns_and_data() {
    let resp = response(
        Some(DIAMONDS_MANIFEST),
        Some(r#"{"chunk_index":0,"data_array":[["0.23","Ideal","J","SI2"],["0.21","Premium","E","SI1"]]}"#),
    );
    expect(
        &resp,
        r#"[{"carat":"0.23","cut":"Ideal","color":"J","clarity":"SI2"},
            {"carat":"0.21","cut":"Premium","color":"E","clarity":"SI1"}]"#,
    );
}

#[test]
fn rows_keep_the_column_order() {
    let resp = response(Some(DIAMONDS_MANIFEST), Some(r#"{"data_array":[["0.23","Ideal","J","SI2"]]}"#));
    match resp.rows_as_json() {
        JsonValue::Array(rows) => match &rows[0] {
            JsonValue::Object(members) => {
                let keys: Vec<&str> = members.iter().map(|(k, _)| k.as_str()).collect();
                assert_eq!(keys, vec!["carat", "cut", "color", "clarity"]);
            }
            other => panic!("not an object: {other:?}"),
        },
        other => panic!("not an array: {other:?}"),
    }
}

#[test]
fn rows_name_extra_values_by_position() {
    let resp = response(
        Some(r#"{"schema":{"columns":[{"name":"a"},{"name":"b"}]}}"#),
        Some(r#"{"data_array":[[1,2,3,null,true]]}"#),
    );
    expect(&resp, r#"[{"a":1,"b":2,"col_2":3,"col_3":null,"col_4":true}]"#);
}

#[test]
fn rows_without_manifest_use_positions() {
    let resp = response(None, Some(r#"{"data_array":[["x","y"],[]]}"#));
    expect(&resp, r#"[{"col_0":"x","col_1":"y"},{}]"#);
}

#[test]
fn rows_skip_columns_without_a_string_name() {
    let resp = response(
        Some(r#"{"schema":{"columns":[{"name":"a"},{"type":"INT"},{"name":7},{"name":"b"}]}}"#),
        Some(r#"{"data_array":[[1,2,3]]}"#),
    );
    expect(&resp, r#"[{"a":1,"b":2,"col_2":3}]"#);
}

#[test]
fn rows_skip_data_that_is_not_an_array() {
    let resp = response(
        Some(DIAMONDS_MANIFEST),
        Some(r#"{"data_array":[["0.3"],"oops",{"carat":1},null,["0.4"]]}"#),
    );
    expect(&resp, r#"[{"carat":"0.3"},{"carat":"0.4"}]"#);
}

#[test]
fn rows_of_an_answer_without_data_are_empty() {
    expect(&response(Some(DIAMONDS_MANIFEST), None), "[]");
    expect(&response(Some(DIAMONDS_MANIFEST), Some(r#"{"row_count":0}"#)), "[]");
    expect(&response(Some(DIAMONDS_MANIFEST), Some(r#"{"data_array":"none"}"#)), "[]");
    expect(&response(None, None), "[]");
}

#[test]
fn rows_are_always_an_array() {
    let resp = response(Some("42"), Some("[1,2]"));
    assert!(to_serde(resp.rows_as_json()).is_array());
}

#[test]
fn rows_with_a_repeated_column_keep_the_last_value() {
    let resp = response(
        Some(r#"{"schema":{"columns":[{"name":"a"},{"name":"a"}]}}"#),
        Some(r#"{"data_array":[[1,2]]}"#),
    );
    match resp.rows_as_json() {
        JsonValue::Array(rows) => {
            assert_eq!(
                rows[0],
                JsonValue::Object(vec![("a".to_string(), JsonValue::Number("2".to_string()))])
            );
        }
        other => panic!("not an array: {other:?}"),
    }
}

#[test]
fn rows_do_not_change_the_response() {
    let resp = response(Some(DIAMONDS_MANIFEST), Some(r#"{"data_array":[["0.23","Ideal","J","SI2"]]}"#));
    let before = to_serde(resp.result.as_ref().unwrap().deep_copy());
    let _ = resp.rows_as_json();
    assert_eq!(to_serde(resp.result.as_ref().unwrap().deep_copy()), before);
}

#[test]
fn json_get_and_views() {
    let v = parse(r#"{"a":{"b":[1,"two"]},"s":"text"}"#);
    let b = v.get("a").unwrap().get("b").unwrap();
    let items = b.as_array().unwrap();
    assert_eq!(items.len(), 2);
    assert_eq!(items[1].as_str(), Some("two"));
    assert_eq!(items[0].as_str(), None);
    assert!(v.get("missing").is_none());
    assert!(b.get("a").is_none());
    assert!(v.as_array().is_none());
    assert_eq!(v.get("s").unwrap().as_str(), Some("text"));
}

#[test]
fn json_insert_member_replaces_in_place() {
    let mut members = Vec::new();
    JsonValue::insert_member(&mut members, "x".to_string(), JsonValue::Null);
    JsonValue::insert_member(&mut members, "y".to_string(), JsonValue::Bool(true));
    JsonValue::insert_member(&mut members, "x".to_string(), JsonValue::Bool(false));
    assert_eq!(
        members,
        vec![
            ("x".to_string(), JsonValue::Bool(false)),
            ("y".to_string(), JsonValue::Bool(true)),
        ]
    );
}

#[test]
fn json_deep_copy_is_equal() {
    let v = parse(r#"{"a":[1,2.5,{"b":null}],"c":"d","e":false}"#);
    assert_eq!(v.deep_copy(), v);
}

#[test]
fn decimal_text_of_numbers() {
    assert_eq!(decimal_string(0), "0");
    assert_eq!(decimal_string(7), "7");
    assert_eq!(decimal_string(10), "10");
    assert_eq!(decimal_string(1234567890), "1234567890");
    assert_eq!(decimal_string(u64::MAX), u64::MAX.to_string());
}

#[test]
fn statement_request_carries_its_arguments() {
    let req = statement_request("SELECT * FROM t LIMIT 100", "1c3b895a4bf16947", "30s");
    assert_eq!(req.statement, "SELECT * FROM t LIMIT 100");
    assert_eq!(req.warehouse_id, "1c3b895a4bf16947");
    assert_eq!(req.wait_timeout, "30s");
    assert_eq!(STATEMENTS_PATH, "/api/2.0/sql/statements/");
    assert_eq!(WAREHOUSES_PATH, "/api/2.0/sql/warehouses");
}

fn warehouse(id: &str) -> Warehouse {
    Warehouse {
        id: Some(id.to_string()),
        name: Some("Starter Warehouse".to_string()),
        cluster_size: Some("Small".to_string()),
        min_num_clusters: Some(1),
        max_num_clusters: Some(1),
        auto_stop_mins: Some(10),
        creator_name: None,
        state: Some("RUNNING".to_string()),
        warehouse_type: Some("PRO".to_string()),
        enable_serverless_compute: Some(true),
        enable_photon: Some(true),
        num_clusters: Some(1),
        num_active_sessions: Some(0),
        extra: vec![("channel".to_string(), JsonValue::Null)],
    }
}

#[test]
fn warehouses_listing() {
    let resp = WarehousesResponse { warehouses: Some(vec![warehouse("a"), warehouse("b")]) };
    let list = resp.into_warehouses();
    assert_eq!(list.len(), 2);
    assert_eq!(list[1].id.as_deref(), Some("b"));
    assert!(WarehousesResponse { warehouses: None }.into_warehouses().is_empty());
}
