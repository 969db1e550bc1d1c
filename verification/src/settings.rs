//! Application and database settings, and the connection strings built
//! from them.

use vstd::prelude::*;
use vstd::string::StringExecFns;

use crate::numbers::{spec_decimal, u64_to_string};

verus! {

/// Everything the application reads from its configuration file.
#[derive(Debug)]
pub struct Settings {
    pub application: ApplicationSettings,
    pub database: DatabaseSettings,
}

/// The ports and buffer sizes the listeners bind with.
#[derive(Debug)]
pub struct ApplicationSettings {
    pub udp_port: u16,
    pub udp_buffer_size: usize,
    pub http_port: u16,
    pub http_host: String,
}

/// The database server coordinates and credentials.
#[derive(Debug)]
pub struct DatabaseSettings {
    pub username: String,
    pub password: String,
    pub port: u16,
    pub host: String,
    pub database_name: String,
}

impl DatabaseSettings {
    /// The connection string naming the database.
    pub fn connection_string(&self) -> (r: String)
        ensures
            r@ == "postgres://"@ + self.username@ + ":"@ + self.password@ + "@"@ + self.host@
                + ":"@ + spec_decimal(self.port as int) + "/"@ + self.database_name@,
    {
        let mut r = self.connection_string_without_db();
        r.append("/");
        r.append(self.database_name.as_str());
        r
    }

    /// The connection string of the server alone, without a database name.
    pub fn connection_string_without_db(&self) -> (r: String)
        ensures
            r@ == "postgres://"@ + self.username@ + ":"@ + self.password@ + "@"@ + self.host@
                + ":"@ + spec_decimal(self.port as int),
    {
        let mut r = String::from_str("postgres://");
        r.append(self.username.as_str());
        r.append(":");
        r.append(self.password.as_str());
        r.append("@");
        r.append(self.host.as_str());
        r.append(":");
        let port = u64_to_string(self.port as u64);
        r.append(port.as_str());
        r
    }
}

} // verus!
