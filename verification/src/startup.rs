//! The application builder: gathers the addresses and verbosity the
//! runtime glue starts the listeners with.

use vstd::prelude::*;
use vstd::string::StringExecFns;

use crate::numbers::{spec_decimal, u64_to_string};

verus! {

/// How verbose the application's diagnostics are.
#[derive(Clone, Copy, Debug, PartialEq, Eq, Structural)]
pub enum TraceLevel {
    Error,
    Warn,
    Info,
    Debug,
    Trace,
}

/// The application's build-time choices: where the database is, and which
/// listeners to start where.
#[derive(Debug)]
pub struct AppBuilder {
    pub tracing_level: TraceLevel,
    pub database_url: String,
    pub udp_addr: Option<String>,
    pub udp_buffer_size: Option<usize>,
    pub http_addr: Option<String>,
}

impl AppBuilder {
    /// A builder with no listeners and the quietest diagnostics.
    pub fn new(database_url: String) -> (r: AppBuilder)
        ensures
            r.tracing_level == TraceLevel::Error,
            r.database_url == database_url,
            r.udp_addr is None,
            r.udp_buffer_size is None,
            r.http_addr is None,
    {
        AppBuilder {
            tracing_level: TraceLevel::Error,
            database_url,
            udp_addr: None,
            udp_buffer_size: None,
            http_addr: None,
        }
    }

    /// Adds the ingestion listener on the loopback interface at a port.
    pub fn with_udp_listener(self, port: u16, buffer_size: usize) -> (r: AppBuilder)
        ensures
            (r.udp_addr matches Some(a) && a@ == "127.0.0.1:"@ + spec_decimal(port as int)),
            r.udp_buffer_size == Some(buffer_size),
            r.tracing_level == self.tracing_level,
            r.database_url == self.database_url,
            r.http_addr == self.http_addr,
    {
        let mut addr = String::from_str("127.0.0.1:");
        let port_str = u64_to_string(port as u64);
        addr.append(port_str.as_str());
        AppBuilder { udp_addr: Some(addr), udp_buffer_size: Some(buffer_size), ..self }
    }

    /// Adds the control interface at a host and port.
    pub fn with_web_server(self, http_host: &str, http_port: u16) -> (r: AppBuilder)
        ensures
            (r.http_addr matches Some(a) && a@ == http_host@ + ":"@ + spec_decimal(
                http_port as int,
            )),
            r.tracing_level == self.tracing_level,
            r.database_url == self.database_url,
            r.udp_addr == self.udp_addr,
            r.udp_buffer_size == self.udp_buffer_size,
    {
        let mut addr = String::from_str(http_host);
        addr.append(":");
        let port_str = u64_to_string(http_port as u64);
        addr.append(port_str.as_str());
        AppBuilder { http_addr: Some(addr), ..self }
    }

    /// Chooses how verbose the diagnostics are.
    pub fn with_tracing_level(self, level: TraceLevel) -> (r: AppBuilder)
        ensures
            r.tracing_level == level,
            r.database_url == self.database_url,
            r.udp_addr == self.udp_addr,
            r.udp_buffer_size == self.udp_buffer_size,
            r.http_addr == self.http_addr,
    {
        AppBuilder { tracing_level: level, ..self }
    }
}

} // verus!
