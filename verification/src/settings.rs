use crate::ident::{is_key_text, new_key};
use vstd::prelude::*;
use vstd::string::StringExecFns;

verus! {

/// Address that a node binds to when its settings name no other.
pub const DEFAULT_HOST_ADDRESS: &'static str = "127.0.0.1:0";

/// What the name of every instance begins with.
pub const DEFAULT_INSTANCE_PREFIX: &'static str = "multiverse9";

/// Version that a node writes into its settings.
pub const VERSION: &'static str = "0.1.0";

/// What another node may do on this one.
#[derive(Clone, Copy, Debug, PartialEq, Eq, Structural)]
pub struct Permissions {
    /// Whether anyone may ask for the instance's metadata.
    pub open_metadata: bool,
    /// Whether any other instance may interact with this one.
    pub open_interactions: bool,
}

impl Default for Permissions {
    /// Nothing is allowed.
    fn default() -> (perms: Permissions)
        ensures
            perms == (Permissions { open_metadata: false, open_interactions: false }),
    {
        Permissions { open_metadata: false, open_interactions: false }
    }
}

/// The configuration of one node.
#[derive(Debug, PartialEq)]
pub struct Settings {
    /// Name of the instance, for people to read.
    pub name: String,
    /// Connection string of the storage backend.
    pub redis_uri: String,
    /// Version of the node.
    pub version: String,
    /// What other nodes may do on this one.
    pub perms: Permissions,
    /// Address that the node binds to, as `host:port`.
    pub addr: String,
    /// Addresses of the nodes that this one is joined to.
    pub nodes: Vec<String>,
}

/// `std::io::Error`, the failure of a stream or of reading a file. It is
/// only carried: nothing is known of what it holds.
#[verifier::external_type_specification]
#[verifier::external_body]
pub struct ExIoError(std::io::Error);

/// `redis::RedisError`, the failure of the storage backend or of the check
/// of its connection string. It is only carried: nothing is known of what it
/// holds.
#[verifier::external_type_specification]
#[verifier::external_body]
pub struct ExRedisError(redis::RedisError);

/// Why settings could not be made or loaded.
#[derive(Debug)]
pub enum Error {
    /// The file could not be read.
    Io(std::io::Error),
    /// The connection string of the storage backend was refused.
    Redis(redis::RedisError),
    /// The file does not hold settings; the text says what the parser found.
    Parsing(String),
}

/// Has `redis::Client::open` check a connection string. It parses the string
/// as a URL of the backend and connects to nothing. Which strings it accepts
/// depends on how the crate was built, so nothing is claimed of the result.
#[verifier::external_body]
fn check_redis_uri(redis_uri: &str) -> (checked: Result<(), redis::RedisError>) {
    redis::Client::open(redis_uri).map(|_| ())
}

/// Name of the instance whose identifier is `hash`.
pub open spec fn instance_name(hash: Seq<char>) -> Seq<char> {
    DEFAULT_INSTANCE_PREFIX@ + seq!['_'] + hash
}

impl Settings {
    /// The settings of a new instance on `redis_uri` whose identifier is
    /// `hash`: joined to no node, with nothing allowed, on the default
    /// address.
    pub fn fresh(redis_uri: String, hash: String) -> (settings: Settings)
        ensures
            settings.name@ == instance_name(hash@),
            settings.redis_uri@ == redis_uri@,
            settings.version@ == VERSION@,
            settings.perms == (Permissions { open_metadata: false, open_interactions: false }),
            settings.addr@ == DEFAULT_HOST_ADDRESS@,
            settings.nodes@.len() == 0,
    {
        proof {
            reveal_strlit("_");
        }
        let mut name = String::from_str(DEFAULT_INSTANCE_PREFIX);
        name.append("_");
        name.append(hash.as_str());
        Settings {
            name,
            redis_uri,
            nodes: Vec::new(),
            perms: Permissions::default(),
            version: String::from_str(VERSION),
            addr: String::from_str(DEFAULT_HOST_ADDRESS),
        }
    }

    /// The settings of a new instance on `redis_uri`, given what the check
    /// of that connection string found: its error is handed on, and a string
    /// that passed gets settings with a name of their own.
    pub fn checked(redis_uri: String, found: Result<(), redis::RedisError>) -> (result: Result<
        Settings,
        Error,
    >)
        ensures
            match found {
                Ok(_) => result matches Ok(settings) && {
                    &&& exists|hash: Seq<char>|
                        is_key_text(hash) && settings.name@ == instance_name(hash)
                    &&& settings.redis_uri@ == redis_uri@
                    &&& settings.version@ == VERSION@
                    &&& settings.perms == (Permissions {
                        open_metadata: false,
                        open_interactions: false,
                    })
                    &&& settings.addr@ == DEFAULT_HOST_ADDRESS@
                    &&& settings.nodes@.len() == 0
                },
                Err(e) => result matches Err(Error::Redis(cause)) && cause == e,
            },
    {
        match found {
            Ok(_) => {
                let hash = new_key();
                Ok(Settings::fresh(redis_uri, hash))
            },
            Err(e) => Err(Error::Redis(e)),
        }
    }

    /// Makes the settings of a new instance. The connection string is checked
    /// first, and the error of that check is handed on; then the instance gets
    /// a name of its own.
    pub fn new(redis_uri: String) -> (result: Result<Settings, Error>)
        ensures
            result matches Ok(settings) ==> {
                &&& exists|hash: Seq<char>|
                    is_key_text(hash) && settings.name@ == instance_name(hash)
                &&& settings.redis_uri@ == redis_uri@
                &&& settings.version@ == VERSION@
                &&& settings.perms == (Permissions {
                    open_metadata: false,
                    open_interactions: false,
                })
                &&& settings.addr@ == DEFAULT_HOST_ADDRESS@
                &&& settings.nodes@.len() == 0
            },
            result matches Err(e) ==> e is Redis,
    {
        let found = check_redis_uri(redis_uri.as_str());
        Settings::checked(redis_uri, found)
    }
}

} // verus!
