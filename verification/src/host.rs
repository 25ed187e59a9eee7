//! What the library asks of the program around it.

use std::sync::Arc;
use vstd::prelude::*;

verus! {

/// The settings that the server reads.
#[derive(Debug)]
pub struct AppSettings {
    pub server_enabled: bool,
    pub server_port: u16,
    pub server_token: Option<String>,
    pub server_allow_lan: bool,
    pub selected_model: String,
    pub selected_language: String,
}

/// A model of the catalogue, as the server sees it.
#[derive(Debug)]
pub struct ModelInfo {
    pub id: String,
    pub is_downloaded: bool,
    pub supports_streaming: bool,
}

/// A partial transcript: what the engine has settled on, and what it may still
/// rewrite.
#[derive(Debug)]
pub struct StreamTextEvent {
    pub committed: String,
    pub tentative: String,
}

/// The model catalogue.
pub trait Models: Send + Sync + 'static {
    /// Every model there is, downloaded or not.
    fn available(&self) -> Vec<ModelInfo>;

    /// The model of a given id.
    fn info(&self, model_id: &str) -> Option<ModelInfo>;
}

/// What the HTTP layer needs from the application around it.
pub trait ServerHost: Send + Sync + 'static {
    /// The type of the model catalogue.
    type Catalogue: Models;

    /// The settings as they are now.
    fn settings(&self) -> AppSettings;

    /// The model catalogue.
    fn models(&self) -> Arc<Self::Catalogue>;

    fn show_transcribing_overlay(&self);

    fn show_streaming_overlay(&self);

    fn hide_recording_overlay(&self);

    /// Has a function called with every partial transcript, and gives the id
    /// to hand back to `unlisten`.
    fn listen_stream_text<F: Fn(StreamTextEvent) + Send + Sync + 'static>(&self, on: F) -> u32;

    /// Stops listening to partial transcripts.
    fn unlisten(&self, id: u32);
}

} // verus!
