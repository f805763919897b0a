use voice_assistant::state::{mic_is_authorized, mic_permission_step, MicPermissionStep, RecordingStart};
use voice_assistant::{AppConfig, AppState, ChatMessage};

fn fresh() -> AppState {
    AppState::new(AppConfig::default(), "/home/u/.voice-assistant/config.json".to_string(), "/home/u/.voice-assistant/models/ggml-small.bin".to_string())
}

fn msg(role: &str, content: &str, timestamp: i64) -> ChatMessage {
    ChatMessage { role: role.to_string(), content: content.to_string(), timestamp }
}

#[test]
fn new_state_is_idle() {
    let st = fresh();
    assert_eq!(st.get_status(), "idle");
    assert!(!st.recording);
    assert!(st.get_messages().is_empty());
    assert_eq!(st.get_config_path(), "/home/u/.voice-assistant/config.json");
    assert_eq!(st.get_config().llm.model, "google/gemma-4-e2b");
}

#[test]
fn recording_cycle_hands_over_the_capture() {
    let mut st = fresh();
    assert!(st.start_recording(true) == Ok(RecordingStart::Started));
    assert_eq!(st.get_status(), "recording");
    st.set_sample_rate(48000);
    st.append_audio(&[1, 2]);
    st.append_audio(&[3, 4, 5, 6]);
    assert_eq!(st.stop_recording(), Ok("ok".to_string()));
    assert_eq!(st.get_status(), "processing");
    assert_eq!(st.take_audio(), Ok((vec![1, 2, 3, 4, 5, 6], 48000)));
    assert_eq!(st.take_audio(), Err("no audio data".to_string()));
}

#[test]
fn starting_clears_the_previous_capture_and_defaults_the_rate() {
    let mut st = fresh();
    st.append_audio(&[9, 9]);
    assert!(st.start_recording(true) == Ok(RecordingStart::Started));
    st.append_audio(&[7, 8]);
    assert_eq!(st.stop_recording(), Ok("ok".to_string()));
    assert_eq!(st.take_audio(), Ok((vec![7, 8], 44100)));
}

#[test]
fn second_start_changes_nothing() {
    let mut st = fresh();
    assert!(st.start_recording(true) == Ok(RecordingStart::Started));
    st.append_audio(&[1, 2]);
    assert!(st.start_recording(true) == Ok(RecordingStart::AlreadyRecording));
    assert_eq!(st.audio_chunks, vec![1, 2]);
}

#[test]
fn start_without_microphone_permission_is_refused() {
    let mut st = fresh();
    match st.start_recording(false) {
        Err(e) => assert_eq!(e, "麦克风权限未授权，请在系统设置 → 隐私与安全性 → 麦克风中允许本应用"),
        Ok(_) => panic!("a recording started without permission"),
    }
    assert!(!st.recording);
    assert_eq!(st.get_status(), "idle");
}

#[test]
fn stop_without_recording_is_refused() {
    let mut st = fresh();
    assert_eq!(st.stop_recording(), Err("not recording".to_string()));
    assert_eq!(st.get_status(), "idle");
}

#[test]
fn take_without_audio_is_refused() {
    let mut st = fresh();
    assert_eq!(st.take_audio(), Err("no audio data".to_string()));
}

#[test]
fn messages_are_kept_in_order_and_cleared() {
    let mut st = fresh();
    st.add_message(msg("user", "你好", 1));
    st.add_message(msg("assistant", "Hello!", 2));
    let all = st.get_messages();
    assert_eq!(all.len(), 2);
    assert_eq!(all[0].role, "user");
    assert_eq!(all[0].content, "你好");
    assert_eq!(all[0].timestamp, 1);
    assert_eq!(all[1].role, "assistant");
    assert_eq!(all[1].timestamp, 2);
    st.clear_messages();
    assert!(st.get_messages().is_empty());
}

#[test]
fn speaking_status_comes_and_goes() {
    let mut st = fresh();
    st.mark_speaking();
    assert_eq!(st.get_status(), "speaking");
    st.mark_idle();
    assert_eq!(st.get_status(), "idle");
}

#[test]
fn saved_config_replaces_the_old_one() {
    let mut st = fresh();
    let mut cfg = AppConfig::default();
    cfg.llm.base_url = "https://api.deepseek.com/v1/".to_string();
    cfg.llm.model = "deepseek-chat".to_string();
    cfg.tts.api_key = "noiz-key".to_string();
    st.set_config(cfg);
    assert_eq!(st.get_config().llm.model, "deepseek-chat");
    let req = st.chat_request("hi");
    assert_eq!(req.url, "https://api.deepseek.com/v1/chat/completions");
    assert_eq!(st.speech_settings(), ("noiz-key".to_string(), "ad703a88".to_string()));
}

#[test]
fn microphone_status_codes() {
    assert!(mic_permission_step(3) == MicPermissionStep::Authorized);
    assert!(mic_permission_step(2) == MicPermissionStep::Denied);
    assert!(mic_permission_step(0) == MicPermissionStep::Request);
    assert!(mic_permission_step(1) == MicPermissionStep::Request);
    assert!(mic_is_authorized(3));
    assert!(!mic_is_authorized(0));
    assert!(!mic_is_authorized(2));
}

#[test]
fn status_is_always_one_of_four() {
    let known = ["idle", "recording", "processing", "speaking"];
    let mut st = fresh();
    assert!(known.contains(&st.get_status().as_str()));
    let _ = st.stop_recording();
    assert!(known.contains(&st.get_status().as_str()));
    let _ = st.start_recording(true);
    assert_eq!(st.get_status(), "recording");
    st.mark_speaking();
    assert_eq!(st.get_status(), "speaking");
    let _ = st.start_recording(true);
    assert_eq!(st.get_status(), "speaking");
    let _ = st.stop_recording();
    assert_eq!(st.get_status(), "processing");
    let _ = st.take_audio();
    assert_eq!(st.get_status(), "processing");
    st.mark_idle();
    assert_eq!(st.get_status(), "idle");
}

#[test]
fn history_after_a_clear_is_the_later_additions_in_order() {
    let mut st = fresh();
    st.add_message(msg("user", "old", 0));
    st.clear_messages();
    for i in 1..=5 {
        st.add_message(msg("user", &format!("m{}", i), i));
    }
    let all = st.get_messages();
    let contents: Vec<&str> = all.iter().map(|m| m.content.as_str()).collect();
    assert_eq!(contents, vec!["m1", "m2", "m3", "m4", "m5"]);
    let stamps: Vec<i64> = all.iter().map(|m| m.timestamp).collect();
    assert_eq!(stamps, vec![1, 2, 3, 4, 5]);
    assert_eq!(st.get_messages().len(), 5);
}

#[test]
fn state_speech_request_uses_the_configured_voice() {
    let mut st = fresh();
    let mut cfg = AppConfig::default();
    cfg.tts.api_key = "k".to_string();
    st.set_config(cfg);
    let req = st.speech_request("hi");
    assert_eq!(req.authorization, "k");
    assert_eq!(req.fields[1].1, "ad703a88");
    assert_eq!(req.fields[0].1, "hi");
}
