use std::collections::hash_map::DefaultHasher;
use std::hash::{Hash, Hasher};
use voice_assistant::speech::build_speech_request;
use voice_assistant::TtsConfig;
use voice_assistant::speech::{
    cache_directory, cache_path, cache_path_for_digest, is_playable_wav, plan_speech,
    system_voice_arguments, SpeechPlan,
};

#[test]
fn cache_path_spells_the_digest_in_sixteen_hex_digits() {
    assert_eq!(cache_path_for_digest(0), "/tmp/va_tts_cache/0000000000000000.wav");
    assert_eq!(cache_path_for_digest(0xdead_beef), "/tmp/va_tts_cache/00000000deadbeef.wav");
    assert_eq!(cache_path_for_digest(u64::MAX), "/tmp/va_tts_cache/ffffffffffffffff.wav");
    let d = 0x0123_4567_89ab_cdefu64;
    assert_eq!(cache_path_for_digest(d), format!("{}/{:016x}.wav", "/tmp/va_tts_cache", d));
}

#[test]
fn cache_path_of_a_text_is_a_hashed_file_name() {
    let voice = "ad703a88".to_string();
    let p = cache_path(&voice, &"你好".to_string());
    assert!(p.starts_with("/tmp/va_tts_cache/"));
    assert!(p.ends_with(".wav"));
    let digits = &p["/tmp/va_tts_cache/".len()..p.len() - 4];
    assert_eq!(digits.len(), 16);
    assert!(digits.chars().all(|c| c.is_ascii_hexdigit() && !c.is_ascii_uppercase()));
    assert_eq!(p, cache_path(&voice, &"你好".to_string()));
    assert_ne!(p, cache_path(&voice, &"再见".to_string()));
    assert_ne!(p, cache_path(&"other".to_string(), &"你好".to_string()));
}

#[test]
fn cache_path_uses_the_default_hasher() {
    let voice = "ad703a88".to_string();
    let text = "hello".to_string();
    let mut h = DefaultHasher::new();
    voice.hash(&mut h);
    text.hash(&mut h);
    assert_eq!(cache_path(&voice, &text), format!("/tmp/va_tts_cache/{:016x}.wav", h.finish()));
    assert_eq!(cache_directory(), "/tmp/va_tts_cache");
}

#[test]
fn a_cached_recording_longer_than_a_header_is_played() {
    assert!(matches!(plan_speech(Some(45), &"key".to_string()), SpeechPlan::PlayCached));
    assert!(matches!(plan_speech(Some(45), &String::new()), SpeechPlan::PlayCached));
}

#[test]
fn without_cache_the_key_decides() {
    assert!(matches!(plan_speech(Some(44), &String::new()), SpeechPlan::SystemVoice));
    assert!(matches!(plan_speech(None, &String::new()), SpeechPlan::SystemVoice));
    assert!(matches!(plan_speech(None, &"key".to_string()), SpeechPlan::RequestRemote));
    assert!(matches!(plan_speech(Some(10), &"key".to_string()), SpeechPlan::RequestRemote));
}

#[test]
fn only_riff_files_of_header_length_are_played() {
    let mut wav = b"RIFF".to_vec();
    wav.resize(44, 0);
    assert!(is_playable_wav(&wav));
    assert!(!is_playable_wav(&wav[..43]));
    let mut json = b"{\"error\":1}".to_vec();
    json.resize(100, b' ');
    assert!(!is_playable_wav(&json));
    assert!(!is_playable_wav(&[]));
}

#[test]
fn system_voice_speaks_tingting_at_180() {
    assert_eq!(system_voice_arguments("你好"), vec!["-v", "Tingting", "-r", "180", "你好"]);
}

#[test]
fn speech_request_carries_key_voice_and_form_fields() {
    let tts = TtsConfig { api_key: "noiz-key".to_string(), voice_id: "ad703a88".to_string() };
    let req = build_speech_request(&tts, "你好");
    assert_eq!(req.url, "https://noiz.ai/v1/text-to-speech");
    assert_eq!(req.authorization, "noiz-key");
    let fields: Vec<(&str, &str)> = req.fields.iter().map(|(k, v)| (k.as_str(), v.as_str())).collect();
    assert_eq!(
        fields,
        vec![("text", "你好"), ("voice_id", "ad703a88"), ("output_format", "wav"), ("speed", "1"), ("trim_silence", "true")]
    );
}
