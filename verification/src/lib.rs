//! A file-backup library: a binary wire protocol for shipping archives to a
//! peer server, the handler state machines on both ends of that protocol, and
//! the planning and validation rules of the backup orchestrator.

pub mod backer;
pub mod config;
pub mod consts;
pub mod errors;
pub mod message;
pub mod packet;
pub mod server;
pub mod strmap;
pub mod transfer;
pub mod utils;
pub mod version;
