//! The encrypted archive of FEED Desktop.
//!
//! An archive is two encrypted databases and an envelope that holds their keys, wrapped under a
//! password. This library decides; whoever calls it reads and writes files, runs statements and
//! opens windows, and says how that went.

pub mod crypto;
pub mod database;
pub mod envelope;
pub mod files;
pub mod messages;
pub mod secret;
pub mod steps;
pub mod store;
pub mod text;
pub mod window;
