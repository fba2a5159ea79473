//! Behavior of detection-reply parsing, text bookkeeping, and the in-process
//! statistical detector.

use tts_engine::detect::{
    assemble_detected, parse_language_payload, strip_trailing_nul, validate_services,
    DetectionError, RawDetectedRange,
};
use tts_engine::detector::{spans_to_ranges, LanguageSpan, LinguaDetectionService};
use tts_engine::engine::{parse_speaker_id, preferred_model, ModelLanguage, PiperModelInfo};
use tts_engine::format::text_format_id;
use tts_engine::guid::Guid;
use tts_engine::comserver::ComServerPath;
use tts_engine::text::{chars_vec, concat_fragments, range_text, to_utf16};

fn utf16(s: &str) -> Vec<u16> {
    s.encode_utf16().collect()
}

#[test]
fn trailing_terminator_is_stripped_once() {
    assert_eq!(strip_trailing_nul(&vec![72, 105, 0]), vec![72, 105]);
    assert_eq!(strip_trailing_nul(&vec![72, 105]), vec![72, 105]);
    assert_eq!(strip_trailing_nul(&vec![72, 0, 105]), vec![72, 0, 105]);
    assert_eq!(strip_trailing_nul(&vec![0, 0]), vec![0]);
    assert_eq!(strip_trailing_nul(&vec![]), Vec::<u16>::new());
}

#[test]
fn service_validation_errors_are_distinct() {
    let expected = text_format_id();
    let other = Guid::from_u128(5);
    assert_eq!(validate_services(&vec![], &expected), Err(DetectionError::NoServicesFound));
    assert_eq!(
        validate_services(&vec![other], &expected),
        Err(DetectionError::InvalidServiceGuid)
    );
    assert_eq!(
        validate_services(&vec![expected, expected], &expected),
        Err(DetectionError::MultipleServicesFound)
    );
    assert_eq!(validate_services(&vec![expected], &expected), Ok(()));
}

#[test]
fn language_payload_parses_nul_separated_codes() {
    let mut payload = utf16("en");
    payload.push(0);
    payload.extend(utf16("fr"));
    payload.push(0);
    payload.push(0);
    let languages = parse_language_payload(&payload).unwrap();
    assert_eq!(languages, vec!["en".to_string(), "fr".to_string(), "".to_string()]);
}

#[test]
fn language_payload_rejects_invalid_wide_text() {
    // An unpaired high surrogate is not valid wide text; the error names the
    // offending field.
    let payload = vec![0xD800, 0, 0];
    assert_eq!(parse_language_payload(&payload), Err(DetectionError::LanguageInvalidUtf16(0)));
    let mut later = vec![101, 110, 0, 0xD800, 0, 0];
    assert_eq!(parse_language_payload(&later), Err(DetectionError::LanguageInvalidUtf16(1)));
    later.insert(0, 0);
    assert_eq!(parse_language_payload(&later), Err(DetectionError::LanguageInvalidUtf16(2)));
}

#[test]
fn raw_ranges_assemble_in_order() {
    let mut block = utf16("en");
    block.push(0);
    block.push(0);
    let raw = vec![
        RawDetectedRange { start: 0, end: 4, payload: block.clone() },
        RawDetectedRange { start: 6, end: 9, payload: block },
    ];
    let ranges = assemble_detected(raw, 10).unwrap();
    assert_eq!(ranges.len(), 2);
    assert_eq!((ranges[0].start, ranges[0].end), (0, 4));
    assert_eq!((ranges[1].start, ranges[1].end), (6, 9));
    assert_eq!(ranges[0].languages, vec!["en".to_string(), "".to_string()]);
}

#[test]
fn fragments_join_with_blanks() {
    let frags = vec![utf16("Hi"), utf16("yo")];
    assert_eq!(concat_fragments(&frags), utf16("Hi yo "));
    assert_eq!(concat_fragments(&vec![]), Vec::<u16>::new());
}

#[test]
fn range_text_is_inclusive() {
    let text = utf16("Hello world");
    assert_eq!(range_text(&text, 0, 4), utf16("Hello"));
    assert_eq!(range_text(&text, 6, 10), utf16("world"));
}

#[test]
fn chars_round_trip() {
    let cs = chars_vec("Héllo");
    assert_eq!(cs, vec!['H', 'é', 'l', 'l', 'o']);
}

#[test]
fn detector_requires_a_known_language() {
    let unknown = vec!["zz".to_string(), "q-QQ".to_string()];
    assert!(matches!(
        LinguaDetectionService::with_lingua(&unknown),
        Err(DetectionError::NoKnownLanguages)
    ));
}

#[test]
fn detector_recognizes_single_language_text() {
    let codes = vec!["en-US".to_string(), "de-DE".to_string()];
    let service = LinguaDetectionService::with_lingua(&codes).unwrap();
    let text = utf16("This is clearly an English sentence about nothing in particular.");
    let ranges = service.recognize_text(&text).unwrap();
    assert_eq!(ranges.len(), 1);
    assert_eq!(ranges[0].start, 0);
    assert_eq!(ranges[0].end, text.len() - 1);
    assert_eq!(ranges[0].languages, vec!["en".to_string()]);
}

#[test]
fn detector_ranges_stay_inside_the_text() {
    let codes = vec!["en".to_string(), "de".to_string()];
    let service = LinguaDetectionService::with_lingua(&codes).unwrap();
    let text = utf16("Das Wetter ist heute wirklich wunderbar. The weather is truly wonderful today.");
    let ranges = service.recognize_text(&text).unwrap();
    assert!(!ranges.is_empty());
    for range in &ranges {
        assert!(range.start <= range.end);
        assert!(range.end < text.len());
        assert!(!range.languages.is_empty());
    }
}

#[test]
fn detector_handles_empty_text() {
    let codes = vec!["en".to_string()];
    let service = LinguaDetectionService::with_lingua(&codes).unwrap();
    let ranges = service.recognize_text(&utf16("")).unwrap();
    assert!(ranges.is_empty());
}

#[test]
fn preferred_model_ranks_by_detected_languages() {
    let models = vec![
        PiperModelInfo { path: "a".to_string(), language: None },
        PiperModelInfo {
            path: "b".to_string(),
            language: Some(ModelLanguage {
                code: "en".to_string(),
                family: None,
                region: None,
                name_native: None,
                name_english: None,
            }),
        },
        PiperModelInfo {
            path: "c".to_string(),
            language: Some(ModelLanguage {
                code: "fr-FR".to_string(),
                family: None,
                region: None,
                name_native: None,
                name_english: None,
            }),
        },
    ];
    let range = tts_engine::detect::DetectedLanguage {
        start: 0,
        end: 3,
        languages: vec!["fr".to_string(), "en".to_string()],
    };
    assert_eq!(preferred_model(&models, &range), 2);
}

#[test]
fn byte_spans_convert_to_wide_ranges() {
    let chars = chars_vec("Héllo");
    // "Héllo" occupies six bytes; the accented character takes two.
    let spans = vec![
        LanguageSpan { start_byte: 0, end_byte: 3, code: "fr".to_string() },
        LanguageSpan { start_byte: 3, end_byte: 6, code: "en".to_string() },
        LanguageSpan { start_byte: 4, end_byte: 4, code: "de".to_string() },
    ];
    let ranges = spans_to_ranges(&spans, &chars);
    assert_eq!(ranges.len(), 2);
    assert_eq!((ranges[0].start, ranges[0].end), (0, 1));
    assert_eq!(ranges[0].languages, vec!["fr".to_string()]);
    assert_eq!((ranges[1].start, ranges[1].end), (2, 4));
    assert_eq!(ranges[1].languages, vec!["en".to_string()]);
}

#[test]
fn wide_encoding_appends_a_terminator() {
    assert_eq!(to_utf16("Hi"), vec![72, 105, 0]);
    assert_eq!(to_utf16("a\u{1F980}"), vec![97, 0xD83E, 0xDD80, 0]);
    assert_eq!(to_utf16(""), vec![0]);
}

#[test]
fn server_paths_resolve_to_wide_text() {
    assert!(ComServerPath::CurrentModule.to_utf16_path().is_none());
    let from_text = ComServerPath::RustPath("C:\\a.dll".to_string());
    assert_eq!(from_text.to_utf16_path().unwrap(), to_utf16("C:\\a.dll"));
    let stored = ComServerPath::Utf16Path(vec![67, 58]);
    assert_eq!(stored.to_utf16_path().unwrap(), vec![67, 58]);
}

#[test]
fn byte_spans_past_the_text_are_clamped() {
    let chars = chars_vec("ab");
    let spans = vec![LanguageSpan { start_byte: 0, end_byte: 99, code: "en".to_string() }];
    let ranges = spans_to_ranges(&spans, &chars);
    assert_eq!(ranges.len(), 1);
    assert_eq!((ranges[0].start, ranges[0].end), (0, 1));
}

#[test]
fn raw_ranges_outside_the_text_are_rejected() {
    let mut block = utf16("en");
    block.push(0);
    block.push(0);
    let inverted = vec![RawDetectedRange { start: 5, end: 4, payload: block.clone() }];
    assert_eq!(assemble_detected(inverted, 10), Err(DetectionError::RangeOutOfBounds));
    let past_end = vec![RawDetectedRange { start: 0, end: 10, payload: block.clone() }];
    assert_eq!(assemble_detected(past_end, 10), Err(DetectionError::RangeOutOfBounds));
    let fits = vec![RawDetectedRange { start: 0, end: 9, payload: block }];
    assert!(assemble_detected(fits, 10).is_ok());
}

#[test]
fn speaker_id_parse_fixtures() {
    assert_eq!(parse_speaker_id("  42 "), Some(42));
    assert_eq!(parse_speaker_id("\t-7\n"), Some(-7));
    assert_eq!(parse_speaker_id("+0"), Some(0));
    assert_eq!(parse_speaker_id("000000000000000000000042"), Some(42));
    assert_eq!(parse_speaker_id("9223372036854775807"), Some(i64::MAX));
    assert_eq!(parse_speaker_id("9223372036854775808"), None);
    assert_eq!(parse_speaker_id("-9223372036854775808"), Some(i64::MIN));
    assert_eq!(parse_speaker_id("-9223372036854775809"), None);
    assert_eq!(parse_speaker_id("12345678901234567890123"), None);
    assert_eq!(parse_speaker_id("4a2"), None);
    assert_eq!(parse_speaker_id("-"), None);
    assert_eq!(parse_speaker_id(""), None);
    assert_eq!(parse_speaker_id("   "), None);
}

#[test]
fn speaker_id_trims_all_whitespace() {
    assert_eq!(parse_speaker_id("\u{0B}5"), Some(5));
    assert_eq!(parse_speaker_id("\u{0C}5\u{0C}"), Some(5));
    assert_eq!(parse_speaker_id("\u{A0}7\u{2009}"), Some(7));
    assert_eq!(parse_speaker_id("\u{3000}-3"), Some(-3));
    assert_eq!(parse_speaker_id("5 5"), None);
}
