//! A self-contained container platform: an image registry with
//! content-addressed storage, a deployment controller that restarts
//! containers when a production tag is pushed, and the routing table of the
//! reverse proxy in front of them.
//!
//! Nothing here touches the disk, the network or the container engine: a
//! function takes what was observed (a request, a file's contents, the
//! outcome of an engine command) and returns what is to be done next.
//! Performing it is left to the caller.

pub mod address;
pub mod auth;
pub mod basic;
pub mod config;
pub mod container;
pub mod digest;
pub mod http;
pub mod location;
pub mod manifest;
pub mod orchestrator;
pub mod proxy;
pub mod registry;
pub mod secret;
pub mod storage;
pub mod text;
