//! The fixed settings of the server, gathered in one injectable value so
//! that a test can point the pipeline elsewhere.

use vstd::prelude::*;

verus! {

/// How long clients may cache a successful answer, in seconds.
pub const CACHE_TIMEOUT: u32 = 300;

/// The settings of one server.
pub struct Config {
    /// Where the joy document is fetched from.
    pub url: String,
    /// Where the listener binds.
    pub listen_addr: String,
    /// The cache TTL communicated to clients, in seconds.
    pub cache_ttl: u32,
}

impl Config {
    /// The settings the server ships with.
    pub fn standard() -> (c: Config)
        ensures
            c.url@ == "https://raw.githubusercontent.com/squidpickles/slippybot/master/joy.json"@,
            c.listen_addr@ == "127.0.0.1:4707"@,
            c.cache_ttl == CACHE_TIMEOUT,
    {
        Config {
            url: "https://raw.githubusercontent.com/squidpickles/slippybot/master/joy.json"
                .to_owned(),
            listen_addr: "127.0.0.1:4707".to_owned(),
            cache_ttl: CACHE_TIMEOUT,
        }
    }
}

} // verus!
