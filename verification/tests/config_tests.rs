use voice_assistant::config::settle_loaded_config;
use voice_assistant::{AppConfig, LlmConfig, TtsConfig};

fn custom_config() -> AppConfig {
    AppConfig {
        llm: LlmConfig {
            provider: "custom".to_string(),
            base_url: "https://integrate.api.nvidia.com/v1".to_string(),
            model: "deepseek-ai/deepseek-v4-flash".to_string(),
            api_key: "your-api-key".to_string(),
        },
        tts: TtsConfig { api_key: String::new(), voice_id: String::new() },
    }
}

#[test]
fn default_config_points_at_local_lm_studio() {
    let cfg = AppConfig::default();
    assert_eq!(cfg.llm.provider, "local");
    assert_eq!(cfg.llm.base_url, "http://127.0.0.1:1234/v1");
    assert_eq!(cfg.llm.model, "google/gemma-4-e2b");
    assert_eq!(cfg.llm.api_key, "lm-studio");
    assert_eq!(cfg.tts.api_key, "");
    assert_eq!(cfg.tts.voice_id, "ad703a88");
}

#[test]
fn stored_config_is_used_as_it_is() {
    let (cfg, write_back) = settle_loaded_config(Some(custom_config()));
    assert!(!write_back);
    assert_eq!(cfg.llm.provider, "custom");
    assert_eq!(cfg.llm.base_url, "https://integrate.api.nvidia.com/v1");
    assert_eq!(cfg.llm.model, "deepseek-ai/deepseek-v4-flash");
    assert_eq!(cfg.llm.api_key, "your-api-key");
    assert_eq!(cfg.tts.voice_id, "");
}

#[test]
fn missing_config_falls_back_to_default_and_is_written() {
    let (cfg, write_back) = settle_loaded_config(None);
    assert!(write_back);
    assert_eq!(cfg.llm.provider, "local");
    assert_eq!(cfg.tts.voice_id, "ad703a88");
}

#[test]
fn config_clone_keeps_every_field() {
    let cfg = custom_config();
    let copy = cfg.clone();
    assert_eq!(copy.llm.provider, cfg.llm.provider);
    assert_eq!(copy.llm.base_url, cfg.llm.base_url);
    assert_eq!(copy.llm.model, cfg.llm.model);
    assert_eq!(copy.llm.api_key, cfg.llm.api_key);
    assert_eq!(copy.tts.api_key, cfg.tts.api_key);
    assert_eq!(copy.tts.voice_id, cfg.tts.voice_id);
}
