use dictate_core::settings::{
    join_language_hints, push_entry, toggle_decision, AppSettings, ToggleOutcome,
    TranscriptionEntry, HISTORY_LIMIT,
};

fn entry(text: &str) -> TranscriptionEntry {
    TranscriptionEntry { text: text.to_string(), timestamp: 0, language: "en".to_string() }
}

#[test]
fn default_settings_match_first_run() {
    let s = AppSettings::default();
    assert_eq!(s.api_key, "");
    assert_eq!(s.hotkey, "Insert");
    assert_eq!(s.language_hints, vec!["en".to_string()]);
    assert!(s.language_restrictions.is_none());
}

#[test]
fn hints_join_with_commas() {
    assert_eq!(join_language_hints(&vec![]), "");
    assert_eq!(join_language_hints(&vec!["en".to_string()]), "en");
    assert_eq!(
        join_language_hints(&vec!["en".to_string(), "de".to_string(), "fr".to_string()]),
        "en,de,fr"
    );
}

#[test]
fn newest_entry_goes_first() {
    let mut entries = vec![entry("old")];
    push_entry(&mut entries, entry("new"));
    assert_eq!(entries.len(), 2);
    assert_eq!(entries[0].text, "new");
    assert_eq!(entries[1].text, "old");
}

#[test]
fn history_keeps_only_the_newest_hundred() {
    let mut entries = Vec::new();
    for i in 0..(HISTORY_LIMIT + 25) {
        push_entry(&mut entries, entry(&format!("t{}", i)));
    }
    assert_eq!(entries.len(), HISTORY_LIMIT);
    assert_eq!(entries[0].text, format!("t{}", HISTORY_LIMIT + 24));
    assert_eq!(entries[HISTORY_LIMIT - 1].text, "t25");
}

#[test]
fn toggle_stops_a_running_session() {
    let s = AppSettings::default();
    assert_eq!(toggle_decision(true, &s), ToggleOutcome::StopSession);
}

#[test]
fn toggle_refuses_to_start_without_credential() {
    let s = AppSettings::default();
    assert_eq!(toggle_decision(false, &s), ToggleOutcome::RejectMissingKey);
}

#[test]
fn toggle_starts_with_credential() {
    let mut s = AppSettings::default();
    s.api_key = "key123".to_string();
    assert_eq!(toggle_decision(false, &s), ToggleOutcome::StartSession);
}
