use vstd::prelude::*;

verus! {

/// One configured relay relationship, as read from configuration:
/// a source server, an account handle on it, and a destination webhook.
#[derive(Clone, Debug)]
pub struct Link {
    pub mastodon_server_url: String,
    pub mastodon_user: String,
    pub webhook_url: String,
}

/// The whole configuration: the poll interval in seconds, the group size
/// for notification batches, and the ordered list of links.
#[derive(Debug)]
pub struct Config {
    pub interval: u64,
    pub chunk_size: usize,
    pub links: Vec<Link>,
}

/// Why a configuration is rejected at startup.
#[derive(PartialEq, Eq, Structural, Clone, Copy, Debug)]
pub enum ConfigError {
    ChunkSizeOutOfRange,
}

impl Config {
    /// A configuration is accepted exactly when its chunk size lies in
    /// [1, 10]; anything else is a fatal startup error, found before any
    /// link is constructed.
    pub fn validate(&self) -> (r: Result<(), ConfigError>)
        ensures
            r is Ok <==> 1 <= self.chunk_size <= 10,
            r is Err ==> r == Err::<(), ConfigError>(ConfigError::ChunkSizeOutOfRange),
    {
        if 1 <= self.chunk_size && self.chunk_size <= 10 {
            Ok(())
        } else {
            Err(ConfigError::ChunkSizeOutOfRange)
        }
    }
}

} // verus!
