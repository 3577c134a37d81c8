use ai_application_factory::voices::{all, audio_url, is_system_media, is_system_voice, sample_for_voice};

#[test]
fn the_catalog_has_fourteen_system_voices() {
    let ids = all();
    assert_eq!(ids.len(), 14);
    assert_eq!(ids[0], "broken_whisper_resilient_female");
    assert_eq!(ids[13], "sweet_fox_tease_female");
}

#[test]
fn system_samples_are_served_as_local_media() {
    assert_eq!(
        audio_url("cold_boss_male").as_deref(),
        Some("/api/media/system-voice-cold_boss_male.mp3")
    );
    assert_eq!(audio_url("custom-1"), None);
    assert!(is_system_voice("strong_female_lead"));
    assert!(!is_system_voice("custom-1"));
    assert!(is_system_media("system-voice-warm_older_brother_male.mp3"));
    assert!(!is_system_media("warm_older_brother_male.mp3"));
    assert_eq!(
        sample_for_voice("warm_older_brother_male"),
        Some(("warm_older_brother_male".to_owned(), "system-voice-warm_older_brother_male.mp3".to_owned()))
    );
}
