//! Field-gateway core for an industrial measurement site.
//!
//! The crate models the acquisition pipeline of a Modbus TCP gateway: a typed
//! register schema compiled to byte-exact parsing of holding-register
//! responses, the retry and batching decisions of a connection worker, the
//! discovery and measurement rules that turn parsed registers into device
//! rows and measurement rows, and the bookkeeping of pushes towards a cloud
//! endpoint. Everything here is executable logic with verified contracts;
//! the sockets, channels, store and HTTP transport that drive it live in the
//! surrounding application.

pub mod cloud;
pub mod codec;
pub mod config;
pub mod decimal;
pub mod discover;
pub mod measure;
pub mod push;
pub mod register;
pub mod retry;
pub mod scan;
pub mod schema;
pub mod services;
pub mod store;
pub mod text;
pub mod update;
pub mod worker;
