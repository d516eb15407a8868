//! A command line client for a key-value store that holds secrets: the rules of
//! the client, apart from the terminal, the file system and the network.

pub mod text;
pub mod urlencode;
pub mod encoding;
pub mod cipher;
pub mod crypto;
pub mod json;
pub mod secret_display;
pub mod config;
pub mod client;
pub mod session;
pub mod bearer;
pub mod qr;
pub mod fzf;
pub mod agent_detect;
pub mod recipients;
pub mod commands;
pub mod management_keys;
pub mod messages;
