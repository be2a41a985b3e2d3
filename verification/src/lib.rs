//! Request handling logic of a scriptable HTTP mock server: the key/value
//! store that scripts use between requests, path and query parsing, the
//! decisions made when proxying to an upstream server, the mapping of a
//! script's reply to an HTTP response, the script cache, and the random
//! helpers that scripts call.

pub mod helper;
pub mod text;
pub mod entries;
pub mod cache;
pub mod storage;
pub mod routing;
pub mod proxy;
pub mod response;
pub mod script;
pub mod rng;
pub mod generate;
