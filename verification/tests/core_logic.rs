//! Behavior of the core decision logic: language matching, scale
//! conversions, the token latch, the keep-alive count, the streaming state
//! machine, and voice selection.

use tts_engine::detect::DetectedLanguage;
use tts_engine::factory::EngineInstance;
use tts_engine::lang::{equal_language_codes, has_multiple_languages};
use tts_engine::latch::{TokenError, TokenLatch};
use tts_engine::refcount::ModuleRefCount;
use tts_engine::scale::{sapi_rate_to_modern, sapi_volume_to_modern};
use tts_engine::stream::{
    continue_after, control_update, drive_stream, StreamPhase, StreamProgress, ACTION_ABORT,
    ACTION_RATE, ACTION_SKIP, ACTION_VOLUME,
};
use tts_engine::voice::{select_model, select_voice, VoiceCategoryId};

#[test]
fn language_match_prefix_rule() {
    assert!(equal_language_codes("en", "en-US"));
    assert!(!equal_language_codes("en-US", "en-GB"));
    assert!(equal_language_codes("en-US", "en-US"));
}

#[test]
fn language_match_separators_and_case() {
    assert!(equal_language_codes("en", "en"));
    assert!(equal_language_codes("en_US", "en"));
    assert!(!equal_language_codes("en_US", "en-GB"));
    assert!(!equal_language_codes("de", "en"));
    assert!(!equal_language_codes("EN", "en"));
    assert!(equal_language_codes("", ""));
}

#[test]
fn multiple_languages_detection() {
    let none: Vec<String> = vec![];
    assert!(!has_multiple_languages(&none));
    let one = vec!["en".to_string()];
    assert!(!has_multiple_languages(&one));
    let same = vec!["en".to_string(), "en-US".to_string()];
    assert!(!has_multiple_languages(&same));
    let mixed = vec!["en".to_string(), "fr".to_string()];
    assert!(has_multiple_languages(&mixed));
}

#[test]
fn priority_is_first_match() {
    let range = DetectedLanguage {
        start: 0,
        end: 4,
        languages: vec!["fr".to_string(), "en".to_string()],
    };
    assert_eq!(range.get_priority("fr-FR"), Some(0));
    assert_eq!(range.get_priority("en-US"), Some(1));
    assert_eq!(range.get_priority("de"), None);
}

#[test]
fn rate_conversion_fixtures() {
    assert_eq!(sapi_rate_to_modern(0), 1000);
    assert_eq!(sapi_rate_to_modern(10), 6000);
    assert_eq!(sapi_rate_to_modern(-10), 500);
    assert_eq!(sapi_rate_to_modern(-30), 500);
    assert_eq!(sapi_rate_to_modern(1), 1500);
    assert_eq!(sapi_rate_to_modern(-1), 950);
    assert_eq!(sapi_rate_to_modern(i32::MIN), 500);
    assert_eq!(sapi_rate_to_modern(i32::MAX), 6000);
}

#[test]
fn volume_conversion_fixtures() {
    assert_eq!(sapi_volume_to_modern(0), 0);
    assert_eq!(sapi_volume_to_modern(100), 1000);
    assert_eq!(sapi_volume_to_modern(150), 1000);
    assert_eq!(sapi_volume_to_modern(50), 500);
    assert_eq!(sapi_volume_to_modern(u16::MAX), 1000);
}

#[test]
fn token_latch_double_bind_keeps_first() {
    let mut latch: TokenLatch<u32> = TokenLatch::new();
    assert_eq!(latch.get_token(), Err(TokenError::NotBound));
    assert_eq!(latch.set_token(7), Ok(()));
    assert_eq!(latch.set_token(9), Err(TokenError::AlreadyBound));
    assert_eq!(latch.get_token(), Ok(&7));
}

#[test]
fn keep_alive_balances() {
    let mut refs = ModuleRefCount::new();
    assert!(refs.module_can_unload());
    let a: EngineInstance<u32> = EngineInstance::new(&mut refs);
    let b: EngineInstance<u32> = EngineInstance::new(&mut refs);
    let c: EngineInstance<u32> = EngineInstance::new(&mut refs);
    assert!(!refs.module_can_unload());
    a.destroy(&mut refs);
    b.destroy(&mut refs);
    assert!(!refs.module_can_unload());
    c.destroy(&mut refs);
    assert!(refs.module_can_unload());
}

#[test]
fn stream_finishes_when_all_bytes_sent() {
    let mut s = StreamProgress::new(5000);
    assert_eq!(s.offer_len(), 4096);
    s.round(4096, 0);
    assert_eq!(s.phase, StreamPhase::Streaming);
    assert_eq!(s.offer_len(), 904);
    s.round(904, 0);
    assert_eq!(s.phase, StreamPhase::Finished);
    assert_eq!(s.sent, 5000);
}

#[test]
fn stream_respects_partial_writes() {
    let mut s = StreamProgress::new(100);
    assert_eq!(s.offer_len(), 100);
    s.round(30, 0);
    assert_eq!(s.sent, 30);
    assert_eq!(s.offer_len(), 70);
}

#[test]
fn stream_abort_stops_writing() {
    let mut s = StreamProgress::new(10000);
    s.round(4096, ACTION_ABORT);
    assert_eq!(s.phase, StreamPhase::Aborted);
    assert_eq!(s.sent, 4096);
    let update = control_update(&s, ACTION_RATE | ACTION_VOLUME);
    assert!(!update.reread_rate);
    assert!(!update.reread_volume);
}

#[test]
fn stream_finish_overtakes_abort_on_final_chunk() {
    let mut s = StreamProgress::new(100);
    s.round(100, ACTION_ABORT);
    assert_eq!(s.phase, StreamPhase::Finished);
}

#[test]
fn stream_control_flags_decode() {
    let mut s = StreamProgress::new(10000);
    s.round(4096, ACTION_RATE | ACTION_VOLUME | ACTION_SKIP);
    assert_eq!(s.phase, StreamPhase::Streaming);
    let update = control_update(&s, ACTION_RATE | ACTION_VOLUME | ACTION_SKIP);
    assert!(update.reread_rate);
    assert!(update.reread_volume);
    assert!(update.skip_acknowledged);
    let quiet = control_update(&s, 0);
    assert!(!quiet.reread_rate && !quiet.reread_volume && !quiet.skip_acknowledged);
}

#[test]
fn voice_selection_prefers_lowest_rank() {
    let ranked = vec!["fr".to_string(), "en".to_string()];
    let default_lang = Some("de".to_string());
    let voices = vec![Some("en".to_string()), Some("fr".to_string())];
    assert_eq!(select_voice(&ranked, &default_lang, &voices), Some(1));
}

#[test]
fn voice_selection_keeps_default_on_tie_or_no_match() {
    let ranked = vec!["fr".to_string(), "en".to_string()];
    let default_lang = Some("en-US".to_string());
    let voices = vec![Some("en-GB".to_string()), None];
    assert_eq!(select_voice(&ranked, &default_lang, &voices), None);

    let no_match = vec![Some("sv".to_string()), Some("da".to_string())];
    assert_eq!(select_voice(&ranked, &Some("nb".to_string()), &no_match), None);
}

#[test]
fn voice_selection_first_wins_among_equals() {
    let ranked = vec!["en".to_string()];
    let default_lang: Option<String> = None;
    let voices = vec![
        Some("en-US".to_string()),
        Some("en-GB".to_string()),
        Some("en".to_string()),
    ];
    assert_eq!(select_voice(&ranked, &default_lang, &voices), Some(0));
}

#[test]
fn model_selection_first_minimum() {
    let ranked = vec!["fr".to_string(), "en".to_string()];
    let models = vec![
        Some("de".to_string()),
        Some("en".to_string()),
        Some("fr".to_string()),
        Some("fr".to_string()),
    ];
    assert_eq!(select_model(&ranked, &models), 2);
}

#[test]
fn voice_category_registry_paths() {
    assert_eq!(
        VoiceCategoryId::Default.category_id_text(),
        "HKEY_LOCAL_MACHINE\\SOFTWARE\\Microsoft\\Speech\\Voices"
    );
    assert_eq!(
        VoiceCategoryId::Modern.category_id_text(),
        "HKEY_LOCAL_MACHINE\\SOFTWARE\\Microsoft\\Speech_OneCore\\Voices"
    );
}

#[test]
fn driven_stream_freezes_after_abort() {
    let script = vec![(4096usize, 0u32), (4096, ACTION_ABORT), (4096, 0), (4096, 0)];
    let done = drive_stream(100_000, &script);
    assert_eq!(done.phase, StreamPhase::Aborted);
    assert_eq!(done.sent, 8192);
}

#[test]
fn driven_stream_finishes_and_caps_greedy_sinks() {
    let script = vec![(9999usize, 0u32), (9999, 0)];
    let done = drive_stream(5000, &script);
    assert_eq!(done.phase, StreamPhase::Finished);
    assert_eq!(done.sent, 5000);
}

#[test]
fn driven_stream_may_run_out_of_rounds() {
    let script = vec![(10usize, 0u32)];
    let done = drive_stream(100, &script);
    assert_eq!(done.phase, StreamPhase::Streaming);
    assert_eq!(done.sent, 10);
}

#[test]
fn call_continues_only_after_a_finished_range() {
    assert!(continue_after(StreamPhase::Finished));
    assert!(!continue_after(StreamPhase::Aborted));
    assert!(!continue_after(StreamPhase::Streaming));
}
