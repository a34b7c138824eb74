//! The decisions behind LocalSend transfers over iroh.

pub mod address;
pub mod blob;
pub mod collection;
pub mod download;
pub mod file_name;
pub mod peer_resolver;
pub mod provider;
pub mod receiver;
pub mod saf;
pub mod text;
pub mod ticket;
pub mod transfer;
