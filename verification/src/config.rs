//! The configuration data the two programs run on: the server's section
//! (worker count and bind addresses) and the client's (server address and
//! connect-retry policy).
//!
//! Loading the data from a configuration file is the surrounding program's
//! work; it hands the plain values over and this module holds the accessor
//! rules.

use vstd::prelude::*;

verus! {

/// A configuration section that was asked for is not present.
#[derive(Debug, PartialEq, Eq, Structural, Clone, Copy)]
pub enum ConfigError {
    MissingServer,
    MissingClient,
}

/// The whole configuration: either section may be absent.
#[derive(Debug)]
pub struct Config {
    pub server: Option<Server>,
    pub client: Option<Client>,
}

/// The server's configuration.
#[derive(Debug)]
pub struct Server {
    pub thread_count: usize,
    pub ips: Vec<String>,
    pub max_share_size_without_file: Option<u64>,
    pub max_file_size: Option<u64>,
    pub return_on_success: Option<String>,
    pub return_on_help: Option<String>,
}

/// The client's configuration.
#[derive(Debug)]
pub struct Client {
    pub server: String,
    pub retry_delay: u64,
    pub retry_amount: usize,
}

impl Config {
    /// The server section, or the error naming its absence.
    pub fn server(self) -> (r: Result<Server, ConfigError>)
        ensures
            r is Ok <==> self.server is Some,
            r is Ok ==> r->Ok_0 == self.server->0,
            r is Err ==> r->Err_0 == ConfigError::MissingServer,
    {
        match self.server {
            Some(server) => Ok(server),
            None => Err(ConfigError::MissingServer),
        }
    }

    /// The client section, or the error naming its absence.
    pub fn client(self) -> (r: Result<Client, ConfigError>)
        ensures
            r is Ok <==> self.client is Some,
            r is Ok ==> r->Ok_0 == self.client->0,
            r is Err ==> r->Err_0 == ConfigError::MissingClient,
    {
        match self.client {
            Some(client) => Ok(client),
            None => Err(ConfigError::MissingClient),
        }
    }
}

impl Server {
    /// The configured worker count.
    pub fn thread_count(&self) -> (r: usize)
        ensures
            r == self.thread_count,
    {
        self.thread_count
    }

    /// The primary bind address: the first of the configured list, which
    /// must not be empty.
    pub fn ip(&self) -> (r: &str)
        requires
            self.ips@.len() >= 1,
        ensures
            r@ == self.ips@[0]@,
    {
        self.ips[0].as_str()
    }

    /// All configured addresses, the backups included.
    pub fn ip_backups(&self) -> (r: &Vec<String>)
        ensures
            r == self.ips,
    {
        &self.ips
    }
}

impl Client {
    /// The server address to connect to.
    pub fn server(&self) -> (r: &str)
        ensures
            r@ == self.server@,
    {
        self.server.as_str()
    }

    /// How many retries follow the first connection attempt: one less than
    /// the configured number of attempts, which must be at least one.
    pub fn retry_amount(&self) -> (r: usize)
        requires
            self.retry_amount >= 1,
        ensures
            r == self.retry_amount - 1,
    {
        self.retry_amount - 1
    }

    /// The delay between connection attempts, in milliseconds.
    pub fn retry_delay(&self) -> (r: u64)
        ensures
            r == self.retry_delay,
    {
        self.retry_delay
    }
}

} // verus!
