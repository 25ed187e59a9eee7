//! The decisions behind a local HTTP transcription API.
//!
//! Everything here is plain data in, plain data out: binding rules, bearer
//! tokens, uploads, audio containers, and the life of a streaming session.
//! Sockets, engines and windows belong to the program around this library.

pub mod audio;
pub mod auth;
pub mod base64;
pub mod commands;
pub mod config;
pub mod error;
pub mod handle;
pub mod host;
pub mod message;
pub mod routes;
pub mod session;
pub mod session_laws;
pub mod session_steps;
pub mod stream;
pub mod text;
pub mod transcription;
