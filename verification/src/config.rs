use vstd::prelude::*;

verus! {

/// Settings of the language-model endpoint.
pub struct LlmConfig {
    /// One of "local", "openai" or "custom".
    pub provider: String,
    pub base_url: String,
    pub model: String,
    pub api_key: String,
}

/// Settings of the speech-synthesis service.
pub struct TtsConfig {
    pub api_key: String,
    pub voice_id: String,
}

/// The whole persisted configuration.
pub struct AppConfig {
    pub llm: LlmConfig,
    pub tts: TtsConfig,
}

impl Clone for LlmConfig {
    fn clone(&self) -> (r: LlmConfig)
        ensures
            r == *self,
    {
        LlmConfig {
            provider: self.provider.clone(),
            base_url: self.base_url.clone(),
            model: self.model.clone(),
            api_key: self.api_key.clone(),
        }
    }
}

impl Clone for TtsConfig {
    fn clone(&self) -> (r: TtsConfig)
        ensures
            r == *self,
    {
        TtsConfig { api_key: self.api_key.clone(), voice_id: self.voice_id.clone() }
    }
}

impl Clone for AppConfig {
    fn clone(&self) -> (r: AppConfig)
        ensures
            r == *self,
    {
        AppConfig { llm: self.llm.clone(), tts: self.tts.clone() }
    }
}

impl AppConfig {
    /// The configuration used when none was stored yet.
    pub open spec fn is_factory_default(self) -> bool {
        &&& self.llm.provider@ == "local"@
        &&& self.llm.base_url@ == "http://127.0.0.1:1234/v1"@
        &&& self.llm.model@ == "google/gemma-4-e2b"@
        &&& self.llm.api_key@ == "lm-studio"@
        &&& self.tts.api_key@ == Seq::<char>::empty()
        &&& self.tts.voice_id@ == "ad703a88"@
    }
}

impl Default for AppConfig {
    fn default() -> (cfg: AppConfig)
        ensures
            cfg.is_factory_default(),
    {
        AppConfig {
            llm: LlmConfig {
                provider: String::from_str("local"),
                base_url: String::from_str("http://127.0.0.1:1234/v1"),
                model: String::from_str("google/gemma-4-e2b"),
                api_key: String::from_str("lm-studio"),
            },
            tts: TtsConfig { api_key: String::new(), voice_id: String::from_str("ad703a88") },
        }
    }
}

/// Settles the configuration read at start-up: a stored configuration that
/// parsed is used as it is; otherwise the factory default is used and must be
/// written back (the second component).
pub fn settle_loaded_config(parsed: Option<AppConfig>) -> (r: (AppConfig, bool))
    ensures
        match parsed {
            Some(c) => r.0 == c && !r.1,
            None => r.0.is_factory_default() && r.1,
        },
{
    match parsed {
        Some(c) => (c, false),
        None => (AppConfig::default(), true),
    }
}

} // verus!
