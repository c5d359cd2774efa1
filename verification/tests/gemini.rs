use handy::gemini::{
    add_term, build_mode, describe_api_error, refusal, resolve_api_key, resolve_custom_vocabulary,
    resolve_language_codes, transcript_of, truncate, Content, GeminiError, GeminiTranscribeMode,
    GeminiTranscribeSettings, GeminiTranscriber, InteractionResponse, Step, MAX_CUSTOM_VOCABULARY,
    SAMPLE_RATE,
};
use handy::json::Json;
use handy::pcm::{encode_wav, pcm_bytes, WavError};
use serde_json::Value;

fn config() -> GeminiTranscribeSettings {
    GeminiTranscribeSettings::default()
}

fn value(json: &Json) -> Value {
    match json {
        Json::Null => Value::Null,
        Json::Bool(b) => Value::Bool(*b),
        Json::Number(n) => serde_json::from_str(n).unwrap(),
        Json::Text(s) => Value::String(s.clone()),
        Json::Array(items) => Value::Array(items.iter().map(value).collect()),
        Json::Object(fields) => Value::Object(
            fields
                .iter()
                .map(|(key, item)| (key.clone(), value(item)))
                .collect(),
        ),
    }
}

fn parsed(text: &str) -> Value {
    serde_json::from_str(text).unwrap()
}

fn strings(list: &[&str]) -> Vec<String> {
    list.iter().map(|s| s.to_string()).collect()
}

fn samples(audio: &[f32]) -> Vec<i16> {
    audio
        .iter()
        .map(|s| (s.clamp(-1.0, 1.0) * i16::MAX as f32) as i16)
        .collect()
}

fn engine() -> GeminiTranscriber {
    GeminiTranscriber::new("key".to_string(), "model".to_string(), None).unwrap()
}

#[test]
fn smart_mode_drops_incompatible_options() {
    let mut cfg = config();
    cfg.mode = GeminiTranscribeMode::Smart;
    cfg.diarization = true;
    cfg.timestamps = true;

    assert_eq!(value(&build_mode(&cfg)), parsed(r#"{ "type": "smart" }"#));
}

#[test]
fn verbatim_mode_carries_diarization_and_timestamps() {
    let mut cfg = config();
    cfg.mode = GeminiTranscribeMode::Verbatim;
    cfg.diarization = true;
    cfg.timestamps = true;

    assert_eq!(
        value(&build_mode(&cfg)),
        parsed(
            r#"{
                "type": "verbatim",
                "diarization_mode": "speaker",
                "timestamp_granularities": ["word"]
            }"#
        )
    );
}

#[test]
fn explicit_language_codes_win_over_global_intent() {
    let mut cfg = config();
    cfg.language_codes = vec!["ru-RU".to_string(), "en-US".to_string()];

    assert_eq!(
        resolve_language_codes(&cfg, "de"),
        vec!["ru-RU".to_string(), "en-US".to_string()]
    );
}

#[test]
fn auto_language_sends_an_empty_list() {
    assert!(resolve_language_codes(&config(), "auto").is_empty());
    assert!(resolve_language_codes(&config(), "").is_empty());
}

#[test]
fn global_intent_is_used_when_no_explicit_codes() {
    assert_eq!(
        resolve_language_codes(&config(), "ru"),
        vec!["ru".to_string()]
    );
}

#[test]
fn custom_vocabulary_merges_and_dedupes_case_insensitively() {
    let mut cfg = config();
    cfg.custom_vocabulary = vec!["Kubernetes".to_string(), "  ".to_string()];
    cfg.include_custom_words = true;

    let merged = resolve_custom_vocabulary(&cfg, &["kubernetes".to_string(), "staging".to_string()]);

    assert_eq!(
        merged,
        vec!["Kubernetes".to_string(), "staging".to_string()]
    );
}

#[test]
fn custom_words_are_excluded_when_disabled() {
    let mut cfg = config();
    cfg.custom_vocabulary = vec!["Kubernetes".to_string()];
    cfg.include_custom_words = false;

    let merged = resolve_custom_vocabulary(&cfg, &["staging".to_string()]);

    assert_eq!(merged, vec!["Kubernetes".to_string()]);
}

#[test]
fn the_vocabulary_is_cut_off_at_what_the_service_takes() {
    let mut cfg = config();
    cfg.custom_vocabulary = (0..1_500).map(|i| format!(" term {i} ")).collect();
    let terms = resolve_custom_vocabulary(&cfg, &strings(&["late"]));
    assert_eq!(terms.len(), MAX_CUSTOM_VOCABULARY);
    assert_eq!(terms[0], "term 0");
    assert_eq!(terms[999], "term 999");
}

#[test]
fn case_is_folded_beyond_ascii() {
    let mut cfg = config();
    cfg.custom_vocabulary = strings(&["ПРИВЕТ", "привет", "Привет!"]);
    assert_eq!(
        resolve_custom_vocabulary(&cfg, &[]),
        strings(&["ПРИВЕТ", "Привет!"])
    );
}

fn content(text: &str) -> Content {
    Content {
        text: Some(text.to_string()),
    }
}

#[test]
fn transcript_prefers_output_text() {
    let response = InteractionResponse {
        output_text: Some("  Привет, deploy на staging.  ".to_string()),
        steps: vec![],
    };
    assert_eq!(transcript_of(&response), "Привет, deploy на staging.");
}

#[test]
fn transcript_falls_back_to_step_content() {
    let response = InteractionResponse {
        output_text: None,
        steps: vec![Step {
            content: vec![content("Hello"), content("world")],
        }],
    };
    assert_eq!(transcript_of(&response), "Hello world");
}

#[test]
fn a_blank_output_text_and_pieces_without_text_are_passed_over() {
    let response = InteractionResponse {
        output_text: Some(" \n ".to_string()),
        steps: vec![
            Step {
                content: vec![content(" one"), Content { text: None }],
            },
            Step { content: vec![] },
            Step {
                content: vec![content("two ")],
            },
        ],
    };
    assert_eq!(transcript_of(&response), "one two");
}

#[test]
fn api_error_message_is_surfaced() {
    let body = r#"{"error":{"code":400,"message":"Invalid custom_vocabulary"}}"#;
    assert_eq!(describe_api_error(body), "Invalid custom_vocabulary");
}

#[test]
fn an_error_without_a_message_is_shown_as_it_came() {
    assert_eq!(describe_api_error("gateway timeout"), "gateway timeout");
    assert_eq!(
        describe_api_error(r#"{"error":{"message":7}}"#),
        r#"{"error":{"message":7}}"#
    );
    assert_eq!(
        refusal("502 Bad Gateway", "oops"),
        "Gemini returned 502 Bad Gateway: oops"
    );
}

#[test]
fn a_long_body_is_cut_between_characters() {
    let short = "a".repeat(400);
    assert_eq!(truncate(&short), short);
    let long = "я".repeat(201);
    assert_eq!(truncate(&long), format!("{}…", "я".repeat(200)));
    let odd = format!("a{}", "я".repeat(200));
    assert_eq!(truncate(&odd), format!("a{}…", "я".repeat(199)));
}

#[test]
fn wav_encoding_produces_a_riff_header() {
    let wav = encode_wav(&samples(&[0.0, 0.5, -0.5]), SAMPLE_RATE).unwrap();
    assert_eq!(&wav[0..4], b"RIFF");
    assert_eq!(&wav[8..12], b"WAVE");
}

#[test]
fn a_wav_file_is_its_header_and_its_samples() {
    let wav = encode_wav(&[1, -2, 258], SAMPLE_RATE).unwrap();
    let mut expected: Vec<u8> = Vec::new();
    expected.extend_from_slice(b"RIFF");
    expected.extend_from_slice(&42u32.to_le_bytes());
    expected.extend_from_slice(b"WAVEfmt ");
    expected.extend_from_slice(&16u32.to_le_bytes());
    expected.extend_from_slice(&1u16.to_le_bytes());
    expected.extend_from_slice(&1u16.to_le_bytes());
    expected.extend_from_slice(&16_000u32.to_le_bytes());
    expected.extend_from_slice(&32_000u32.to_le_bytes());
    expected.extend_from_slice(&2u16.to_le_bytes());
    expected.extend_from_slice(&16u16.to_le_bytes());
    expected.extend_from_slice(b"data");
    expected.extend_from_slice(&6u32.to_le_bytes());
    expected.extend_from_slice(&[1, 0, 0xfe, 0xff, 2, 1]);
    assert_eq!(wav, expected);
}

#[test]
fn samples_are_little_endian() {
    assert_eq!(
        pcm_bytes(&[0, 1, -1, 256, i16::MIN, i16::MAX]),
        vec![0, 0, 1, 0, 0xff, 0xff, 0, 1, 0, 0x80, 0xff, 0x7f]
    );
}

#[test]
fn the_stored_key_wins_over_the_environment() {
    assert_eq!(resolve_api_key(" stored ", Some("env")), "stored");
    assert_eq!(resolve_api_key("  ", Some(" env\n")), "env");
    assert_eq!(resolve_api_key("", None), "");
}

#[test]
fn an_engine_needs_a_key() {
    assert!(matches!(
        GeminiTranscriber::new(" ".to_string(), "m".to_string(), Some(" ")),
        Err(GeminiError::NoApiKey)
    ));
    let engine = GeminiTranscriber::new(String::new(), "m".to_string(), Some("k")).unwrap();
    assert_eq!(engine.api_key, "k");
    assert_eq!(engine.model, "m");
}

#[test]
fn a_request_carries_the_audio_and_the_settings() {
    let mut cfg = config();
    cfg.custom_vocabulary = strings(&["10Clouds"]);
    let body = engine().build_request("UklGRg==", &cfg, "ru", &strings(&["Handy"]));
    assert_eq!(
        value(&body),
        parsed(
            r#"{
                "model": "model",
                "input": [{"type": "audio", "data": "UklGRg==", "mime_type": "audio/wav"}],
                "generation_config": {
                    "transcription_config": {
                        "language_codes": ["ru"],
                        "custom_vocabulary": ["10Clouds", "Handy"],
                        "mode": {"type": "smart"}
                    }
                }
            }"#
        )
    );
    let bare = value(&engine().build_request("", &config(), "auto", &[]));
    assert!(bare["generation_config"]["transcription_config"]
        .get("custom_vocabulary")
        .is_none());
}

#[test]
fn an_utterance_is_sent_as_base64() {
    let body = engine()
        .prepare(&[1, -2, 258], &config(), "auto", &[])
        .unwrap()
        .unwrap();
    let data = value(&body)["input"][0]["data"].clone();
    let wav = encode_wav(&[1, -2, 258], SAMPLE_RATE).unwrap();
    let expected = base64::Engine::encode(&base64::engine::general_purpose::STANDARD, &wav);
    assert_eq!(data, Value::String(expected));
    assert_eq!(
        data,
        Value::String(
            "UklGRioAAABXQVZFZm10IBAAAAABAAEAgD4AAAB9AAACABAAZGF0YQYAAAABAP7/AgE=".to_string()
        )
    );
}

#[test]
fn nothing_is_sent_for_an_empty_utterance() {
    assert!(matches!(
        engine().prepare(&[], &config(), "auto", &[]),
        Ok(None)
    ));
}

#[test]
fn an_utterance_that_does_not_fit_is_refused() {
    // 14,155,776 bytes become exactly the longest base64 text that is sent.
    let longest = (14_155_776 - 44) / 2;
    assert!(matches!(
        engine().prepare(&vec![0; longest], &config(), "auto", &[]),
        Ok(Some(_))
    ));
    match engine().prepare(&vec![0; longest + 1], &config(), "auto", &[]) {
        Err(GeminiError::TooLong { samples }) => assert_eq!(samples, longest + 1),
        _ => panic!("one sample more does not fit"),
    }
}

#[test]
fn a_failed_encoding_is_reported() {
    for (error, text) in [
        (
            WavError::Start("disk".to_string()),
            "Failed to start WAV encoding: disk",
        ),
        (
            WavError::Sample("disk".to_string()),
            "Failed to encode WAV sample: disk",
        ),
        (
            WavError::Finish("disk".to_string()),
            "Failed to finalize WAV encoding: disk",
        ),
    ] {
        match engine().request_for_wav(Err(error), &config(), "auto", &[]) {
            Err(error) => assert_eq!(error.message(), text),
            _ => panic!("the encoder's error is handed on"),
        }
    }
}

#[test]
fn a_refusal_says_how_long_the_recording_is() {
    match engine().prepare(&vec![0; 8_000_000], &config(), "auto", &[]) {
        Err(error) => assert_eq!(
            error.message(),
            "Recording is too long for cloud transcription (500s). \
             Gemini accepts about 7 minutes per inline request; \
             use a local model for clips this long."
        ),
        _ => panic!("500 seconds do not fit"),
    }
    assert_eq!(
        GeminiError::NoApiKey.message(),
        "No Gemini API key configured. Add one in Settings → Models → Gemini 3.5 Transcribe."
    );
}

#[test]
fn seconds_are_rounded_to_the_nearest() {
    for samples in [
        0, 7_999, 8_000, 8_001, 15_999, 16_000, 24_000, 39_999, 40_000, 40_001, 7_077_867,
    ] {
        let shown = format!("({:.0}s)", samples as f64 / 16_000.0);
        let message = GeminiError::TooLong { samples }.message();
        assert!(message.contains(&shown), "{samples}: {shown} in {message}");
    }
}

#[test]
fn a_term_is_taken_once_by_its_key() {
    let mut terms = strings(&["A"]);
    let mut keys = strings(&["a"]);
    add_term(&mut terms, &mut keys, "a".to_string(), "a".to_string());
    add_term(&mut terms, &mut keys, String::new(), "x".to_string());
    assert_eq!(terms, strings(&["A"]));
    add_term(&mut terms, &mut keys, "B".to_string(), "b".to_string());
    assert_eq!(terms, strings(&["A", "B"]));
    assert_eq!(keys, strings(&["a", "b"]));
}
