//! Identity directory core of a mail server: the principal record and its
//! compact binary encoding, field-level updates, lookup lists, the directory
//! registry and the cache placed in front of every backend.

pub mod auth;
pub mod cache;
pub mod codec;
pub mod codec_laws;
pub mod glob;
pub mod jmap;
pub mod lookup;
pub mod memory;
pub mod pool;
pub mod principal;
pub mod registry;
pub mod registry_laws;
pub mod settings;
pub mod text;
pub mod update;
pub mod varint;
