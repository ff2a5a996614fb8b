//! Verified core of an SSH and SFTP client: connection profiles, host
//! identity, authentication decisions, proxies, transfers, tunnels, encrypted
//! backups and the local automation bridge.
pub mod crypto;
pub mod encoding;
pub mod error;
pub mod profile;
pub mod text;
pub mod hostkey;
pub mod keys;
pub mod release;
pub mod backup;
pub mod bridge;
pub mod auth;
pub mod transfer;
pub mod terminal;
pub mod tunnel;
pub mod proxy;
pub mod editor;
pub mod listing;
pub mod vault;
pub mod clock;
pub mod pump;
