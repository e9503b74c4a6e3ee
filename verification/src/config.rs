//! Node configuration values. Reading and writing configuration files
//! is the embedding's concern; only the values and their construction
//! rules live here.

use vstd::prelude::*;
use vstd::string::StringExecFns;

use crate::crypto::sec_ok;
use crate::error::Error;
use crate::session::DelegatedSession;

verus! {

/// Default JSON-RPC bind address.
pub const DEFAULT_BIND_ADDRESS: &'static str = "127.0.0.1:50000";

/// Default endpoint a client dials.
pub const DEFAULT_ENDPOINT_URL: &'static str = "http://127.0.0.1:50000";

/// Default STUN server list.
pub const DEFAULT_ICE_SERVERS: &'static str = "stun://stun.l.google.com:19302";

/// Default stabilization interval, in seconds.
pub const DEFAULT_STABILIZE_TIMEOUT: usize = 3;

/// Default blob-store capacity, in bytes.
pub const DEFAULT_STORAGE_CAPACITY: usize = 200000000;

/// Where a store directory lives: under the home directory when one is
/// known, else under a local `data` directory.
pub open spec fn storage_location_of(
    home: Option<Seq<char>>,
    prefix: Seq<char>,
    path: Seq<char>,
) -> Seq<char> {
    (match home {
        Some(h) => h,
        None => "data"@,
    }) + "/"@ + prefix + "/"@ + path
}

/// Joins a store location from the home directory handed in by the
/// embedding (reading the environment is its concern).
pub fn get_storage_location(home: Option<&String>, prefix: &str, path: &str) -> (r: String)
    ensures
        r@ == storage_location_of(
            (match home {
                Some(h) => Some(h@),
                None => None,
            }),
            prefix@,
            path@,
        ),
{
    let mut out: String = match home {
        Some(h) => h.clone(),
        None => "data".to_owned(),
    };
    out.append("/");
    out.append(prefix);
    out.append("/");
    out.append(path);
    out
}

/// Where a blob store lives and how much it may hold.
#[derive(Clone, Debug)]
pub struct StorageConfig {
    /// Directory of the store.
    pub path: String,
    /// Capacity in bytes.
    pub capacity: usize,
}

impl StorageConfig {
    /// A store at a path with a capacity.
    pub fn new(path: &str, capacity: usize) -> (r: StorageConfig)
        ensures
            r.path@ == path@,
            r.capacity == capacity,
    {
        StorageConfig { path: path.to_owned(), capacity }
    }
}

/// An embedded HTTP service a node exposes through tunnels.
#[derive(Clone, Debug)]
pub struct HttpServerConfig {
    /// Local port the service listens on.
    pub port: u16,
}

/// The backend services behind a node.
#[derive(Clone, Debug)]
pub struct BackendConfig {
    /// The HTTP service, if one is exposed.
    pub http_server: Option<HttpServerConfig>,
}

/// A node's startup configuration.
#[derive(Debug)]
pub struct Config {
    /// A raw identity key; superseded by `delegatee_sk`.
    pub ecdsa_key: Option<Vec<u8>>,
    /// An old name for a dumped session; superseded by `delegatee_sk`.
    pub session_manager: Option<String>,
    /// The dumped delegated session the node signs with.
    pub delegatee_sk: Option<String>,
    /// The JSON-RPC bind address.
    pub http_addr: String,
    /// The endpoint clients dial.
    pub endpoint_url: String,
    /// Comma-separated STUN/TURN list.
    pub ice_servers: String,
    /// Seconds between stabilization rounds.
    pub stabilize_timeout: usize,
    /// A fixed external address, when not discovered.
    pub external_ip: Option<String>,
    /// Exposed backend services; empty when none are configured.
    pub backend: Vec<HttpServerConfig>,
    /// Where data blobs persist.
    pub data_storage: StorageConfig,
    /// Where measures persist.
    pub measure_storage: StorageConfig,
}

impl Config {
    /// The dumped session a node signs with, by the precedence the
    /// configuration defines: a raw identity key is dumped into a fresh
    /// session, an old-style `session_manager` string comes next, then
    /// `delegatee_sk`. Fails when the key is rejected, the random source
    /// fails, or no source is set.
    pub fn delegatee_sk_string(&self) -> (r: Result<String, Error>)
        ensures
            self.ecdsa_key matches Some(k) ==> ((!sec_ok(k@) ==> r is Err) && (r matches Ok(v)
                ==> crate::session::load_ok(v@))),
            self.ecdsa_key is None ==> (self.session_manager matches Some(sm) ==> (r matches Ok(v)
                && v@ == sm@)),
            self.ecdsa_key is None && self.session_manager is None ==> (self.delegatee_sk matches
                Some(d) ==> (r matches Ok(v) && v@ == d@)),
            self.ecdsa_key is None && self.session_manager is None && self.delegatee_sk is None
                ==> r is Err,
    {
        match &self.ecdsa_key {
            Some(k) => {
                let session = match DelegatedSession::new(k, u64::MAX) {
                    Some(s) => s,
                    None => {
                        return Err(Error::InvalidKey);
                    },
                };
                Ok(session.dump())
            },
            None => match &self.session_manager {
                Some(sm) => Ok(sm.clone()),
                None => match &self.delegatee_sk {
                    Some(d) => Ok(d.clone()),
                    None => Err(Error::InvalidKey),
                },
            },
        }
    }

    /// A configuration around a fresh delegated session derived from the
    /// given identity key, with every other field at its default.
    /// Fails when the key is invalid or the random source fails.
    pub fn new_with_key(key: &Vec<u8>) -> (r: Result<Config, Error>)
        ensures
            !sec_ok(key@) ==> r is Err,
            r matches Ok(c) ==> c.delegatee_sk is Some && c.ecdsa_key is None
                && c.session_manager is None && c.stabilize_timeout == DEFAULT_STABILIZE_TIMEOUT
                && c.external_ip is None && c.backend@.len() == 0 && c.data_storage.capacity
                == DEFAULT_STORAGE_CAPACITY && c.measure_storage.capacity
                == DEFAULT_STORAGE_CAPACITY && c.http_addr@ == DEFAULT_BIND_ADDRESS@
                && c.endpoint_url@ == DEFAULT_ENDPOINT_URL@ && c.ice_servers@
                == DEFAULT_ICE_SERVERS@,
    {
        let session = match DelegatedSession::new(key, u64::MAX) {
            Some(s) => s,
            None => {
                return Err(Error::InvalidKey);
            },
        };
        let dump = session.dump();
        Ok(
            Config {
                ecdsa_key: None,
                session_manager: None,
                delegatee_sk: Some(dump),
                http_addr: DEFAULT_BIND_ADDRESS.to_owned(),
                endpoint_url: DEFAULT_ENDPOINT_URL.to_owned(),
                ice_servers: DEFAULT_ICE_SERVERS.to_owned(),
                stabilize_timeout: DEFAULT_STABILIZE_TIMEOUT,
                external_ip: None,
                backend: Vec::new(),
                data_storage: StorageConfig {
                    path: "".to_owned(),
                    capacity: DEFAULT_STORAGE_CAPACITY,
                },
                measure_storage: StorageConfig {
                    path: "".to_owned(),
                    capacity: DEFAULT_STORAGE_CAPACITY,
                },
            },
        )
    }
}

} // verus!
