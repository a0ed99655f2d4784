//! The speech-to-text engine surface: configuration, model metadata and
//! status reporting. The engines themselves are outside collaborators;
//! only their data model lives here.

use vstd::prelude::*;

verus! {

/// Which recognition engine a model belongs to.
#[derive(PartialEq, Eq, Structural)]
pub enum EngineType {
    Vosk,
    SherpaOnnx,
    WhisperApi,
}

impl Clone for EngineType {
    fn clone(&self) -> (r: Self)
        ensures
            r == *self,
    {
        match self {
            EngineType::Vosk => EngineType::Vosk,
            EngineType::SherpaOnnx => EngineType::SherpaOnnx,
            EngineType::WhisperApi => EngineType::WhisperApi,
        }
    }
}

/// How the sherpa engine is driven.
#[derive(PartialEq, Eq, Structural)]
pub enum SherpaMode {
    Writer,
    DungeonChaos,
}

/// The size class of a model.
#[derive(PartialEq, Eq, Structural)]
pub enum QualityTier {
    Small,
    Medium,
    Large,
}

/// How well a model is known to work.
#[derive(PartialEq, Eq, Structural)]
pub enum ModelStatus {
    Tested,
    Untested,
    Broken,
}

impl Clone for ModelStatus {
    fn clone(&self) -> (r: Self)
        ensures
            r == *self,
    {
        match self {
            ModelStatus::Tested => ModelStatus::Tested,
            ModelStatus::Untested => ModelStatus::Untested,
            ModelStatus::Broken => ModelStatus::Broken,
        }
    }
}

impl Default for ModelStatus {
    /// A model is untested until someone has tried it.
    fn default() -> (r: Self)
        ensures
            r is Untested,
    {
        ModelStatus::Untested
    }
}

/// The dictation configuration a user keeps.
pub struct SpeechConfig {
    pub engine: EngineType,
    pub language: String,
    pub model_id: Option<String>,
    pub sherpa_mode: Option<SherpaMode>,
    pub whisper_api_key: Option<String>,
}

impl Default for SpeechConfig {
    /// Dictation starts on the local engine in Spanish.
    fn default() -> (r: Self)
        ensures
            r.engine is Vosk,
            r.language@ == "es"@,
            r.model_id is None,
            r.sherpa_mode is None,
            r.whisper_api_key is None,
    {
        SpeechConfig {
            engine: EngineType::Vosk,
            language: String::from_str("es"),
            model_id: None,
            sherpa_mode: None,
            whisper_api_key: None,
        }
    }
}

/// One speech model as the remote registry lists it.
pub struct SpeechModelInfo {
    pub id: String,
    pub engine: EngineType,
    pub language: String,
    pub name: String,
    pub size_bytes: u64,
    pub min_ram_mb: u32,
    pub quality_tier: QualityTier,
    pub download_url: String,
    pub checksum: String,
    pub is_default: bool,
    pub status: ModelStatus,
    pub notes: String,
}

/// What a chosen model needs before dictation can start.
pub struct ModelRequirement {
    pub model_id: String,
    pub engine: EngineType,
    pub needs_libs: bool,
}

/// What the host can offer the speech engines right now.
pub struct SpeechStatus {
    pub available_ram_mb: u64,
    pub available_disk_mb: u64,
    pub installed_model_ids: Vec<String>,
    pub libs_installed: bool,
    pub libs_version: Option<String>,
}

/// The remote model registry schema.
pub struct RemoteModelRegistry {
    pub version: u32,
    pub models: Vec<SpeechModelInfo>,
}

/// The built-in model list is empty: every model comes from the remote
/// registry.
pub fn get_model_registry() -> (r: Vec<SpeechModelInfo>)
    ensures
        r@.len() == 0,
{
    Vec::new()
}

} // verus!
