use dictate_core::wire::{handshake_json, SessionConfig};

#[test]
fn handshake_has_fixed_model_and_format_fields() {
    let cfg = SessionConfig::new("secret".to_string(), vec!["en".to_string()], None);
    assert_eq!(cfg.model, "stt-rt-v4");
    assert_eq!(cfg.audio_format, "pcm_s16le");
    assert_eq!(cfg.sample_rate, 16000);
    assert_eq!(cfg.num_channels, 1);
    assert!(cfg.enable_endpoint_detection);
}

#[test]
fn handshake_json_with_hints() {
    let cfg = SessionConfig::new(
        "k".to_string(),
        vec!["en".to_string(), "de".to_string()],
        None,
    );
    assert_eq!(
        handshake_json(&cfg),
        "{\"api_key\":\"k\",\"model\":\"stt-rt-v4\",\"language_hints\":[\"en\",\"de\"],\
         \"enable_endpoint_detection\":true,\"audio_format\":\"pcm_s16le\",\
         \"sample_rate\":16000,\"num_channels\":1}"
    );
}

#[test]
fn empty_hint_list_is_omitted_not_sent() {
    let cfg = SessionConfig::new("k".to_string(), vec![], None);
    assert!(cfg.language_hints.is_none());
    let json = handshake_json(&cfg);
    assert!(!json.contains("language_hints"));
    assert!(!json.contains("null"));
}

#[test]
fn restrictions_appear_only_when_present() {
    let absent = SessionConfig::new("k".to_string(), vec![], None);
    assert!(!handshake_json(&absent).contains("language_restrictions"));
    let present = SessionConfig::new(
        "k".to_string(),
        vec![],
        Some(vec!["en".to_string()]),
    );
    assert_eq!(
        handshake_json(&present),
        "{\"api_key\":\"k\",\"model\":\"stt-rt-v4\",\
         \"language_restrictions\":[\"en\"],\"enable_endpoint_detection\":true,\
         \"audio_format\":\"pcm_s16le\",\"sample_rate\":16000,\"num_channels\":1}"
    );
}

#[test]
fn numeric_fields_are_emitted_in_decimal() {
    let mut cfg = SessionConfig::new("k".to_string(), vec![], None);
    cfg.sample_rate = 48000;
    cfg.num_channels = 2;
    let json = handshake_json(&cfg);
    assert!(json.ends_with("\"sample_rate\":48000,\"num_channels\":2}"));
    cfg.sample_rate = 0;
    assert!(handshake_json(&cfg).contains("\"sample_rate\":0,"));
}

#[test]
fn control_characters_use_the_hex_escape() {
    let cfg = SessionConfig::new("a\tb\u{1f}".to_string(), vec![], None);
    let json = handshake_json(&cfg);
    assert!(json.starts_with("{\"api_key\":\"a\\u0009b\\u001f\""));
}

#[test]
fn credential_text_is_escaped() {
    let cfg = SessionConfig::new("a\"b\\c\nd".to_string(), vec![], None);
    let json = handshake_json(&cfg);
    assert!(json.starts_with("{\"api_key\":\"a\\\"b\\\\c\\u000ad\""));
}
