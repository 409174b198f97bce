//! A client of the Databricks SQL API and of Azure AD, with its logic verified:
//! the rows of a statement's answer as JSON objects, the bearer token cache of
//! the API client, the settings read from the environment, and the decimal
//! numbers of the token endpoint's answers. Sending requests, reading the
//! environment and the database pool are left to the caller.

pub mod databricks;
pub mod db;
pub mod decimal;
pub mod http;
pub mod json;
pub mod table;
