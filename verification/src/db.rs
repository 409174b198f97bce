//! The address of the PostgreSQL database, as the environment gives it.
use vstd::prelude::*;

verus! {

/// The variable that holds the database host.
pub const PGHOST_VAR: &'static str = "PGHOST";

/// The variable that holds the database user.
pub const PGUSER_VAR: &'static str = "PGUSER";

/// The variable that holds the user's password.
pub const PGPASSWORD_VAR: &'static str = "PGPASSWORD";

/// The variable that holds the database name.
pub const PGDATABASE_VAR: &'static str = "PGDATABASE";

/// The variable that holds the database port.
pub const PGPORT_VAR: &'static str = "PGPORT";

/// The variable that holds a complete database URL.
pub const DATABASE_URL_VAR: &'static str = "DATABASE_URL";

/// The port used when `PGPORT` is not set.
pub const DEFAULT_PGPORT: &'static str = "5432";

/// The most connections that the pool holds.
pub const POOL_MAX_SIZE: u32 = 10;

/// The idle connections that the pool keeps open.
pub const POOL_MIN_IDLE: u32 = 2;

/// The message given when neither way of naming the database is set.
pub const MISSING_DATABASE_MESSAGE: &'static str =
    "Either set PGHOST + PGUSER + PGPASSWORD + PGDATABASE, or set DATABASE_URL";

/// The PostgreSQL URL of `database` at `host:port`, logged in as `user`.
pub open spec fn postgres_url(
    user: Seq<char>,
    password: Seq<char>,
    host: Seq<char>,
    port: Seq<char>,
    database: Seq<char>,
) -> Seq<char> {
    "postgres://"@ + user + ":"@ + password + "@"@ + host + ":"@ + port + "/"@ + database
}

/// The database URL from the variables: when host, user, password and database
/// name are all set, the URL made of them (with the default port when the
/// port is not set); otherwise the complete URL, if it is set.
pub open spec fn database_url_spec(
    host: Option<Seq<char>>,
    user: Option<Seq<char>>,
    password: Option<Seq<char>>,
    database: Option<Seq<char>>,
    port: Option<Seq<char>>,
    database_url: Option<Seq<char>>,
) -> Option<Seq<char>> {
    match (host, user, password, database) {
        (Some(h), Some(u), Some(p), Some(d)) => Some(
            postgres_url(
                u,
                p,
                h,
                match port {
                    Some(x) => x,
                    None => DEFAULT_PGPORT@,
                },
                d,
            ),
        ),
        _ => database_url,
    }
}

/// How the database URL comes from the variables: a URL is built from parts
/// only when host, user, password and database name are all set, and then it
/// holds each of them, the port (5432 when unset) and nothing else; when any of
/// the four is unset, the result is the complete URL variable, as it is.
pub proof fn lemma_database_url(
    host: Option<Seq<char>>,
    user: Option<Seq<char>>,
    password: Option<Seq<char>>,
    database: Option<Seq<char>>,
    port: Option<Seq<char>>,
    database_url: Option<Seq<char>>,
)
    ensures
        host is Some && user is Some && password is Some && database is Some ==> database_url_spec(
            host,
            user,
            password,
            database,
            port,
            database_url,
        ) == Some(
            "postgres://"@ + user->0 + ":"@ + password->0 + "@"@ + host->0 + ":"@ + match port {
                Some(p) => p,
                None => "5432"@,
            } + "/"@ + database->0,
        ),
        !(host is Some && user is Some && password is Some && database is Some)
            ==> database_url_spec(host, user, password, database, port, database_url)
            == database_url,
{
}

/// The view of an optional string.
pub open spec fn opt_str(s: Option<String>) -> Option<Seq<char>> {
    match s {
        Some(v) => Some(v@),
        None => None,
    }
}

/// The database URL from the values of the variables (`None` where a variable
/// is not set); `None` when neither way of naming the database is set.
pub fn build_database_url(
    host: Option<String>,
    user: Option<String>,
    password: Option<String>,
    database: Option<String>,
    port: Option<String>,
    database_url: Option<String>,
) -> (r: Option<String>)
    ensures
        host is Some && user is Some && password is Some && database is Some ==> {
            &&& r is Some
            &&& r->0@ == "postgres://"@ + user->0@ + ":"@ + password->0@ + "@"@ + host->0@ + ":"@
                + match port {
                Some(p) => p@,
                None => "5432"@,
            } + "/"@ + database->0@
        },
        !(host is Some && user is Some && password is Some && database is Some) ==> match database_url {
            Some(u) => r is Some && r->0@ == u@,
            None => r is None,
        },
        opt_str(r) == database_url_spec(
            opt_str(host),
            opt_str(user),
            opt_str(password),
            opt_str(database),
            opt_str(port),
            opt_str(database_url),
        ),
{
    match (host, user, password, database) {
        (Some(host), Some(user), Some(password), Some(database)) => {
            let port = match port {
                Some(p) => p,
                None => String::from_str(DEFAULT_PGPORT),
            };
            let mut url = String::from_str("postgres://");
            url.append(user.as_str());
            url.append(":");
            url.append(password.as_str());
            url.append("@");
            url.append(host.as_str());
            url.append(":");
            url.append(port.as_str());
            url.append("/");
            url.append(database.as_str());
            Some(url)
        },
        _ => database_url,
    }
}

} // verus!
