//! The settings of the Databricks workspace, as the environment gives them.
use vstd::prelude::*;

verus! {

/// The variable that holds the workspace URL.
pub const BASE_URL_VAR: &'static str = "DATABRICKS_BASE_URL";

/// The variable that holds the access token.
pub const TOKEN_VAR: &'static str = "DATABRICKS_TOKEN";

/// The variable that holds the id of the SQL warehouse.
pub const WAREHOUSE_ID_VAR: &'static str = "DATABRICKS_WAREHOUSE_ID";

/// The variable that holds how long a statement may wait for its result.
pub const WAIT_TIMEOUT_VAR: &'static str = "DATABRICKS_WAIT_TIMEOUT";

/// The settings of the Databricks workspace.
pub struct DatabricksConfig {
    pub base_url: String,
    pub token: String,
    pub warehouse_id: String,
    pub wait_timeout: String,
}

/// A setting whose variable is not set.
#[derive(Debug, Clone, Copy, PartialEq, Eq, Structural)]
pub enum MissingVar {
    BaseUrl,
    Token,
    WarehouseId,
    WaitTimeout,
}

impl MissingVar {
    /// The name of the variable.
    pub fn var_name(&self) -> (r: &'static str)
        ensures
            *self == MissingVar::BaseUrl ==> r@ == BASE_URL_VAR@,
            *self == MissingVar::Token ==> r@ == TOKEN_VAR@,
            *self == MissingVar::WarehouseId ==> r@ == WAREHOUSE_ID_VAR@,
            *self == MissingVar::WaitTimeout ==> r@ == WAIT_TIMEOUT_VAR@,
    {
        match self {
            MissingVar::BaseUrl => BASE_URL_VAR,
            MissingVar::Token => TOKEN_VAR,
            MissingVar::WarehouseId => WAREHOUSE_ID_VAR,
            MissingVar::WaitTimeout => WAIT_TIMEOUT_VAR,
        }
    }

    /// The message given when the variable is not set.
    pub fn message(&self) -> (r: String)
        ensures
            *self == MissingVar::BaseUrl ==> r@ == BASE_URL_VAR@ + " must be set in environment"@,
            *self == MissingVar::Token ==> r@ == TOKEN_VAR@ + " must be set in environment"@,
            *self == MissingVar::WarehouseId ==> r@ == WAREHOUSE_ID_VAR@
                + " must be set in environment"@,
            *self == MissingVar::WaitTimeout ==> r@ == WAIT_TIMEOUT_VAR@
                + " must be set in environment"@,
    {
        let mut r = String::from_str(self.var_name());
        r.append(" must be set in environment");
        r
    }
}

/// The settings made of the variables' values, or the first variable, in the
/// order base URL, token, warehouse id, wait timeout, that is not set.
pub open spec fn config_result(
    base_url: Option<String>,
    token: Option<String>,
    warehouse_id: Option<String>,
    wait_timeout: Option<String>,
) -> Result<DatabricksConfig, MissingVar> {
    match (base_url, token, warehouse_id, wait_timeout) {
        (Some(b), Some(t), Some(w), Some(x)) => Ok(
            DatabricksConfig { base_url: b, token: t, warehouse_id: w, wait_timeout: x },
        ),
        _ => Err(
            if base_url is None {
                MissingVar::BaseUrl
            } else if token is None {
                MissingVar::Token
            } else if warehouse_id is None {
                MissingVar::WarehouseId
            } else {
                MissingVar::WaitTimeout
            },
        ),
    }
}

/// The address and token of the workspace, or the first of their two variables
/// that is not set.
pub open spec fn api_settings_result(base_url: Option<String>, token: Option<String>) -> Result<
    (String, String),
    MissingVar,
> {
    match (base_url, token) {
        (Some(b), Some(t)) => Ok((b, t)),
        (None, _) => Err(MissingVar::BaseUrl),
        (Some(_), None) => Err(MissingVar::Token),
    }
}

/// The settings that a client of the workspace API needs, the workspace URL and
/// the access token, from the values of their two variables (`None` where a
/// variable is not set). Listing the warehouses needs only these.
pub fn api_settings(base_url: Option<String>, token: Option<String>) -> (r: Result<
    (String, String),
    MissingVar,
>)
    ensures
        r == api_settings_result(base_url, token),
{
    match (base_url, token) {
        (Some(b), Some(t)) => Ok((b, t)),
        (None, _) => Err(MissingVar::BaseUrl),
        (Some(_), None) => Err(MissingVar::Token),
    }
}

/// The settings are made exactly when all four variables are set, and then hold
/// their values unchanged; otherwise the error names the first unset variable in
/// the order base URL, token, warehouse id, wait timeout.
pub proof fn lemma_config_result(
    base_url: Option<String>,
    token: Option<String>,
    warehouse_id: Option<String>,
    wait_timeout: Option<String>,
)
    ensures
        config_result(base_url, token, warehouse_id, wait_timeout) is Ok <==> (base_url is Some
            && token is Some && warehouse_id is Some && wait_timeout is Some),
        config_result(base_url, token, warehouse_id, wait_timeout) matches Ok(c) ==> (Some(
            c.base_url,
        ) == base_url && Some(c.token) == token && Some(c.warehouse_id) == warehouse_id && Some(
            c.wait_timeout,
        ) == wait_timeout),
        base_url is None ==> config_result(base_url, token, warehouse_id, wait_timeout) == Err::<
            DatabricksConfig,
            MissingVar,
        >(MissingVar::BaseUrl),
        base_url is Some && token is None ==> config_result(
            base_url,
            token,
            warehouse_id,
            wait_timeout,
        ) == Err::<DatabricksConfig, MissingVar>(MissingVar::Token),
        base_url is Some && token is Some && warehouse_id is None ==> config_result(
            base_url,
            token,
            warehouse_id,
            wait_timeout,
        ) == Err::<DatabricksConfig, MissingVar>(MissingVar::WarehouseId),
        base_url is Some && token is Some && warehouse_id is Some && wait_timeout is None
            ==> config_result(base_url, token, warehouse_id, wait_timeout) == Err::<
            DatabricksConfig,
            MissingVar,
        >(MissingVar::WaitTimeout),
{
}

/// The workspace settings are made exactly when the URL and the token are set,
/// and then hold them unchanged; otherwise the error names the first unset one.
pub proof fn lemma_api_settings_result(base_url: Option<String>, token: Option<String>)
    ensures
        api_settings_result(base_url, token) is Ok <==> (base_url is Some && token is Some),
        api_settings_result(base_url, token) matches Ok(p) ==> (Some(p.0) == base_url && Some(p.1)
            == token),
        base_url is None ==> api_settings_result(base_url, token) == Err::<(String, String), MissingVar>(
            MissingVar::BaseUrl,
        ),
        base_url is Some && token is None ==> api_settings_result(base_url, token) == Err::<
            (String, String),
            MissingVar,
        >(MissingVar::Token),
{
}

impl DatabricksConfig {
    /// The settings from the values of the four variables (`None` where a
    /// variable is not set).
    pub fn from_vars(
        base_url: Option<String>,
        token: Option<String>,
        warehouse_id: Option<String>,
        wait_timeout: Option<String>,
    ) -> (r: Result<DatabricksConfig, MissingVar>)
        ensures
            r == config_result(base_url, token, warehouse_id, wait_timeout),
    {
        let base_url = match base_url {
            Some(v) => v,
            None => return Err(MissingVar::BaseUrl),
        };
        let token = match token {
            Some(v) => v,
            None => return Err(MissingVar::Token),
        };
        let warehouse_id = match warehouse_id {
            Some(v) => v,
            None => return Err(MissingVar::WarehouseId),
        };
        let wait_timeout = match wait_timeout {
            Some(v) => v,
            None => return Err(MissingVar::WaitTimeout),
        };
        Ok(DatabricksConfig { base_url, token, warehouse_id, wait_timeout })
    }
}

} // verus!
