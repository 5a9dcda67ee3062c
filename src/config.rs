//! Process settings handed to the engine's host at start-up.
use vstd::prelude::*;

verus! {

/// Where the host listens.
#[derive(Debug, Clone)]
pub struct ServerSettings {
    pub port: u16,
    pub host: String,
}

/// Where payment records are stored.
#[derive(Debug, Clone)]
pub struct DatabaseSettings {
    pub url: String,
}

/// Which broker and exchange accepted payments are published to.
#[derive(Debug, Clone)]
pub struct MessagingSettings {
    pub url: String,
    pub exchange: String,
}

/// All settings of the process.
#[derive(Debug, Clone)]
pub struct Settings {
    pub server: ServerSettings,
    pub database: DatabaseSettings,
    pub messaging: MessagingSettings,
}

} // verus!
