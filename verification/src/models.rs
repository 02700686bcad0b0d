//! The local model catalog's vocabulary and listing filters.

use vstd::prelude::*;

verus! {

/// What kind of work a catalogued model performs.
#[derive(Debug, Clone, Copy, PartialEq, Eq, Structural)]
pub enum ModelType {
    LLM,
    Image,
    Video,
    Audio,
    Multimodal,
}

/// Where a catalogued model runs.
#[derive(Debug, Clone, Copy, PartialEq, Eq, Structural)]
pub enum BackendType {
    Local,
    Remote,
    Colab,
    Gradio,
}

/// Operational state of a catalogued model.
#[derive(Debug, Clone, Copy, PartialEq, Eq, Structural)]
pub enum ModelStatus {
    Online,
    Offline,
    Downloading,
    Error,
    Updating,
}

/// Filters for a model listing.
#[derive(Debug)]
pub struct ListModelsQuery {
    pub model_type: Option<ModelType>,
    pub backend_type: Option<BackendType>,
    pub status: Option<ModelStatus>,
    pub is_default: Option<bool>,
}

} // verus!
