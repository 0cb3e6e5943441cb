//! Verified core of a desktop image-generation backend.
//!
//! The library holds the logic of the application: a key/value settings
//! store with exact read/write semantics, provider adapters that build the
//! JSON wire requests for the Doubao, Zhipu and OpenAI-compatible image
//! APIs and interpret their responses, the planning of output filenames for
//! a generation batch, CRUD over the persisted resource list, and the
//! gallery listing (filter and sort). The surrounding binary performs the
//! HTTP calls and the filesystem work and hands this library plain values.

pub mod gallery;
pub mod generate;
pub mod jsontext;
pub mod models;
pub mod outside;
pub mod resources;
pub mod response;
pub mod settings;
pub mod store;
pub mod strutil;
pub mod wire;
