# doc_fn

A client of the Databricks SQL API (statements and warehouses) that can
authenticate with an API key or as an Azure AD service principal, verified with
Verus.

- `src/` is the verified library:
  - `json.rs`: JSON values as plain data, with member lookup and insertion;
  - `table.rs`: statement and warehouse bodies, and `rows_as_json`, which turns a
    statement's answer into an array of row objects;
  - `http.rs`: the API client, its authentication steps and its token cache;
  - `databricks.rs`, `db.rs`: the settings and the database URL from the values of
    environment variables;
  - `decimal.rs`: decimal text of integers, written and read.
- `app/` builds the HTTP client and sends the requests (reqwest, tokio), reads the environment (dotenvy),
  holds the PostgreSQL pool (diesel) and converts between `serde_json` and the
  library's types.
- `tests/` runs the library on concrete values.
