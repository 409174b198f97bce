use doc_fn::databricks::{api_settings, DatabricksConfig, MissingVar};
use doc_fn::db::{build_database_url, MISSING_DATABASE_MESSAGE};

fn s(v: &str) -> Option<String> {
    Some(v.to_string())
}

#[test]
fn config_from_all_vars() {
    let cfg = DatabricksConfig::from_vars(
        s("https://adb-1.azuredatabricks.net"),
        s("dapiXXXX"),
        s("1c3b895a4bf16947"),
        s("30s"),
    )
    .unwrap();
    assert_eq!(cfg.base_url, "https://adb-1.azuredatabricks.net");
    assert_eq!(cfg.token, "dapiXXXX");
    assert_eq!(cfg.warehouse_id, "1c3b895a4bf16947");
    assert_eq!(cfg.wait_timeout, "30s");
}

#[test]
fn config_names_the_first_missing_var() {
    let missing = |b: bool, t: bool, w: bool, x: bool| {
        DatabricksConfig::from_vars(
            if b { s("u") } else { None },
            if t { s("t") } else { None },
            if w { s("w") } else { None },
            if x { s("x") } else { None },
        )
        .err()
    };
    assert_eq!(missing(false, false, false, false), Some(MissingVar::BaseUrl));
    assert_eq!(missing(true, false, false, true), Some(MissingVar::Token));
    assert_eq!(missing(true, true, false, false), Some(MissingVar::WarehouseId));
    assert_eq!(missing(true, true, true, false), Some(MissingVar::WaitTimeout));
    assert_eq!(missing(true, true, true, true), None);
}

#[test]
fn missing_var_messages() {
    assert_eq!(MissingVar::BaseUrl.message(), "DATABRICKS_BASE_URL must be set in environment");
    assert_eq!(MissingVar::Token.message(), "DATABRICKS_TOKEN must be set in environment");
    assert_eq!(MissingVar::WarehouseId.var_name(), "DATABRICKS_WAREHOUSE_ID");
    assert_eq!(
        MissingVar::WaitTimeout.message(),
        "DATABRICKS_WAIT_TIMEOUT must be set in environment"
    );
}

#[test]
fn database_url_from_parts() {
    assert_eq!(
        build_database_url(s("db.local"), s("app"), s("pw"), s("files"), s("6543"), s("postgres://other")),
        s("postgres://app:pw@db.local:6543/files")
    );
}

#[test]
fn database_url_default_port() {
    assert_eq!(
        build_database_url(s("db.local"), s("app"), s("pw"), s("files"), None, None),
        s("postgres://app:pw@db.local:5432/files")
    );
}

#[test]
fn database_url_falls_back_to_database_url() {
    assert_eq!(
        build_database_url(s("db.local"), s("app"), None, s("files"), s("1"), s("postgres://x/y")),
        s("postgres://x/y")
    );
    assert_eq!(build_database_url(None, None, None, None, None, None), None);
    assert!(MISSING_DATABASE_MESSAGE.starts_with("Either set PGHOST"));
}

#[test]
fn api_settings_need_only_url_and_token() {
    assert_eq!(
        api_settings(s("https://adb-1.azuredatabricks.net"), s("dapiXXXX")),
        Ok(("https://adb-1.azuredatabricks.net".to_string(), "dapiXXXX".to_string()))
    );
    assert_eq!(api_settings(None, s("t")), Err(MissingVar::BaseUrl));
    assert_eq!(api_settings(None, None), Err(MissingVar::BaseUrl));
    assert_eq!(api_settings(s("u"), None), Err(MissingVar::Token));
}
