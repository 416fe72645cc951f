//! What the commands the interface calls decide around the database work:
//! the one live connection, the defaults of a page request, and how the
//! outcome of connecting is reported.

use vstd::prelude::*;

use crate::text::{push_str, string_from_chars};
use crate::types::{ConnectionConfig, ConnectionResult, SortDirection};

verus! {

/// Rows per page where the request names no limit.
pub const DEFAULT_PAGE_SIZE: i64 = 100;

/// The error of every command that needs a connection when there is none.
pub open spec fn not_connected_text() -> Seq<char> {
    "Not connected to database"@
}

/// `Not connected to database`.
pub fn not_connected() -> (r: String)
    ensures
        r@ == not_connected_text(),
{
    "Not connected to database".to_owned()
}

/// The outcome of connecting, reported in-band so that the form can show
/// it: success with `success_message`, or failure with the error's message.
pub fn outcome(result: Result<(), String>, success_message: &str) -> (r: ConnectionResult)
    ensures
        match result {
            Ok(()) => r.success && r.message@ == success_message@,
            Err(m) => !r.success && r.message@ == m@,
        },
{
    match result {
        Ok(()) => ConnectionResult { success: true, message: success_message.to_owned() },
        Err(message) => ConnectionResult { success: false, message },
    }
}

/// The driver's connection string for `config`.
pub open spec fn connection_string_spec(c: ConnectionConfig) -> Seq<char> {
    "host="@ + c.host@ + " port="@ + c.port@ + " dbname="@ + c.database@ + " user="@ + c.username@
        + " password="@ + c.password@
}

/// `host={} port={} dbname={} user={} password={}`.
pub fn connection_string(config: &ConnectionConfig) -> (r: String)
    ensures
        r@ == connection_string_spec(*config),
{
    let mut v: Vec<char> = Vec::new();
    push_str(&mut v, "host=");
    push_str(&mut v, config.host.as_str());
    push_str(&mut v, " port=");
    push_str(&mut v, config.port.as_str());
    push_str(&mut v, " dbname=");
    push_str(&mut v, config.database.as_str());
    push_str(&mut v, " user=");
    push_str(&mut v, config.username.as_str());
    push_str(&mut v, " password=");
    push_str(&mut v, config.password.as_str());
    string_from_chars(v.as_slice())
}

/// `{prefix}{e}`: a driver error with what failed in front.
pub fn failure(prefix: &str, e: &str) -> (r: String)
    ensures
        r@ == prefix@ + e@,
{
    let mut v: Vec<char> = Vec::new();
    push_str(&mut v, prefix);
    push_str(&mut v, e);
    string_from_chars(v.as_slice())
}

/// `Connection failed: {e}`.
pub fn connection_failed(e: &str) -> (r: String)
    ensures
        r@ == "Connection failed: "@ + e@,
{
    failure("Connection failed: ", e)
}

/// `Query failed: {e}`.
pub fn query_failed(e: &str) -> (r: String)
    ensures
        r@ == "Query failed: "@ + e@,
{
    failure("Query failed: ", e)
}

/// What testing a connection reports: `Connection successful`, or the
/// probe's error.
pub fn test_connection(probe: Result<(), String>) -> (r: ConnectionResult)
    ensures
        match probe {
            Ok(()) => r.success && r.message@ == "Connection successful"@,
            Err(m) => !r.success && r.message@ == m@,
        },
{
    outcome(probe, "Connection successful")
}

/// The limit, offset and direction of a page request, with the defaults
/// filled in: a page of 100 rows, from the start, ascending.
pub fn page_params(
    limit: Option<i64>,
    offset: Option<i64>,
    sort_direction: Option<SortDirection>,
) -> (r: (i64, i64, SortDirection))
    ensures
        r.0 == match limit {
            Some(l) => l,
            None => DEFAULT_PAGE_SIZE,
        },
        r.1 == match offset {
            Some(o) => o,
            None => 0,
        },
        r.2 == match sort_direction {
            Some(d) => d,
            None => SortDirection::Asc,
        },
{
    let l = match limit {
        Some(l) => l,
        None => DEFAULT_PAGE_SIZE,
    };
    let o = match offset {
        Some(o) => o,
        None => 0,
    };
    let d = match sort_direction {
        Some(d) => d,
        None => SortDirection::Asc,
    };
    (l, o, d)
}

/// The application's state: the one live connection, if any, and the
/// settings it was made with.
pub struct DbState<C> {
    pub connection: Option<C>,
    pub config: Option<ConnectionConfig>,
}

impl<C> DbState<C> {
    /// No connection.
    pub fn new() -> (r: DbState<C>)
        ensures
            r.connection is None,
            r.config is None,
    {
        DbState { connection: None, config: None }
    }

    /// Records the outcome of connecting with `config`. A new connection
    /// replaces the old one and is reported as `Connected successfully`; a
    /// failure changes nothing and is reported with its message.
    pub fn connect(&mut self, result: Result<C, String>, config: ConnectionConfig) -> (r:
        ConnectionResult)
        ensures
            match result {
                Ok(c) => final(self).connection == Some(c) && final(self).config == Some(config)
                    && r.success && r.message@ == "Connected successfully"@,
                Err(m) => final(self).connection == old(self).connection && final(self).config
                    == old(self).config && !r.success && r.message@ == m@,
            },
    {
        match result {
            Ok(c) => {
                self.connection = Some(c);
                self.config = Some(config);
                outcome(Ok(()), "Connected successfully")
            },
            Err(message) => outcome(Err(message), ""),
        }
    }

    /// Drops the connection and its settings.
    pub fn disconnect(&mut self)
        ensures
            final(self).connection is None,
            final(self).config is None,
    {
        self.connection = None;
        self.config = None;
    }

    /// The live connection, or `Not connected to database`.
    pub fn connection(&self) -> (r: Result<&C, String>)
        ensures
            match self.connection {
                Some(c) => r == Ok::<&C, String>(&c),
                None => r matches Err(e) && e@ == not_connected_text(),
            },
    {
        match &self.connection {
            Some(c) => Ok(c),
            None => Err(not_connected()),
        }
    }
}

} // verus!
