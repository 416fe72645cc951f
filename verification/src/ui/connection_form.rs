//! The connection form: its fields, and what testing or connecting shows.

use vstd::prelude::*;

use crate::text::{push_str, string_from_chars};
use crate::types::{ConnectionConfig, ConnectionResult};

verus! {

/// Where the form stands.
pub enum Status {
    Idle,
    Testing,
    Connecting,
    Success(String),
    Error(String),
}

/// Which request the form made.
#[derive(Clone, Copy, Debug, PartialEq, Eq, Structural)]
pub enum Attempt {
    Test,
    Connect,
}

/// The connection form.
pub struct ConnectionForm {
    pub host: String,
    pub port: String,
    pub database: String,
    pub username: String,
    pub password: String,
    pub status: Status,
}

/// The prefix of the message for a request that failed to run.
pub open spec fn failure_prefix(a: Attempt) -> Seq<char> {
    match a {
        Attempt::Test => "Failed to test: "@,
        Attempt::Connect => "Failed to connect: "@,
    }
}

impl ConnectionForm {
    /// A fresh form: `localhost`, port `5432`, everything else empty, idle.
    pub fn new() -> (r: ConnectionForm)
        ensures
            r.host@ == "localhost"@,
            r.port@ == "5432"@,
            r.database@.len() == 0,
            r.username@.len() == 0,
            r.password@.len() == 0,
            r.status is Idle,
    {
        proof {
            reveal_strlit("");
        }
        ConnectionForm {
            host: "localhost".to_owned(),
            port: "5432".to_owned(),
            database: "".to_owned(),
            username: "".to_owned(),
            password: "".to_owned(),
            status: Status::Idle,
        }
    }

    /// Whether a request is under way, which disables both buttons.
    pub fn is_loading(&self) -> (r: bool)
        ensures
            r == (self.status is Testing || self.status is Connecting),
    {
        match self.status {
            Status::Testing | Status::Connecting => true,
            _ => false,
        }
    }

    /// The settings the fields hold.
    pub fn build_config(&self) -> (r: ConnectionConfig)
        ensures
            r.host@ == self.host@,
            r.port@ == self.port@,
            r.database@ == self.database@,
            r.username@ == self.username@,
            r.password@ == self.password@,
    {
        ConnectionConfig {
            host: self.host.clone(),
            port: self.port.clone(),
            database: self.database.clone(),
            username: self.username.clone(),
            password: self.password.clone(),
        }
    }

    /// Starts testing or connecting with the fields' settings.
    pub fn start(&mut self, attempt: Attempt) -> (r: ConnectionConfig)
        ensures
            match attempt {
                Attempt::Test => final(self).status is Testing,
                Attempt::Connect => final(self).status is Connecting,
            },
            r.host@ == old(self).host@,
            r.port@ == old(self).port@,
            r.database@ == old(self).database@,
            r.username@ == old(self).username@,
            r.password@ == old(self).password@,
            final(self).host == old(self).host,
            final(self).port == old(self).port,
            final(self).database == old(self).database,
            final(self).username == old(self).username,
            final(self).password == old(self).password,
    {
        let config = self.build_config();
        self.status = match attempt {
            Attempt::Test => Status::Testing,
            Attempt::Connect => Status::Connecting,
        };
        config
    }

    /// Takes the answer: a reported success or failure shows its message;
    /// a request that failed to run shows `Failed to test: {e}` or
    /// `Failed to connect: {e}`.
    pub fn finish(&mut self, attempt: Attempt, result: Result<ConnectionResult, String>)
        ensures
            match result {
                Ok(res) => if res.success {
                    final(self).status matches Status::Success(m) && m@ == res.message@
                } else {
                    final(self).status matches Status::Error(m) && m@ == res.message@
                },
                Err(e) => final(self).status matches Status::Error(m) && m@ == failure_prefix(
                    attempt,
                ) + e@,
            },
            final(self).host == old(self).host,
            final(self).port == old(self).port,
            final(self).database == old(self).database,
            final(self).username == old(self).username,
            final(self).password == old(self).password,
    {
        self.status = match result {
            Ok(res) => if res.success {
                Status::Success(res.message)
            } else {
                Status::Error(res.message)
            },
            Err(e) => {
                let mut m: Vec<char> = Vec::new();
                match attempt {
                    Attempt::Test => push_str(&mut m, "Failed to test: "),
                    Attempt::Connect => push_str(&mut m, "Failed to connect: "),
                }
                push_str(&mut m, e.as_str());
                Status::Error(string_from_chars(m.as_slice()))
            },
        };
    }
}

} // verus!
