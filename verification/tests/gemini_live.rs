use handy::gemini::{GeminiTranscribeMode, GeminiTranscribeSettings};
use handy::gemini_live::{
    after_connect, after_setup_reply, after_setup_sent, after_turn_opened, build_setup,
    connect_outcome, handle_server_message, join_finals, message_text, socket_url, tail_first_wait, LiveEvent,
    LiveTurn, Opening, OpeningEvent, Outbound, SessionStep, Tail, TailOutcome, TailStep, WireMessage, FINAL_WAIT,
    IDLE_AFTER_FINAL, LIVE_API_MODEL, SESSION_DEADLINE, TAIL_FIRST_WAIT,
};
use handy::json::{serialize, Json};
use serde_json::Value;

const MS: u64 = 1_000_000;

fn value(json: &Json) -> Value {
    match json {
        Json::Null => Value::Null,
        Json::Bool(b) => Value::Bool(*b),
        Json::Number(n) => serde_json::from_str(n).unwrap(),
        Json::Text(s) => Value::String(s.clone()),
        Json::Array(items) => Value::Array(items.iter().map(value).collect()),
        Json::Object(fields) => Value::Object(
            fields
                .iter()
                .map(|(key, item)| (key.clone(), value(item)))
                .collect(),
        ),
    }
}

fn parsed(text: &str) -> Value {
    serde_json::from_str(text).unwrap()
}

fn text(s: &str) -> Value {
    Value::String(s.to_string())
}

#[test]
fn finals_join_with_a_single_space() {
    let chunks = vec![
        "…открывается в правой панели чата.".to_string(),
        "И там видно оригинальный скан.".to_string(),
    ];
    assert_eq!(
        join_finals(&chunks),
        "…открывается в правой панели чата. И там видно оригинальный скан."
    );
}

#[test]
fn join_skips_blank_chunks_and_trims() {
    let chunks = vec!["  Один. ".to_string(), String::new(), " Два.".to_string()];
    assert_eq!(join_finals(&chunks), "Один. Два.");
}

#[test]
fn setup_uses_the_live_model_and_enum_mode() {
    let mut cfg = GeminiTranscribeSettings::default();
    cfg.mode = GeminiTranscribeMode::Smart;
    let setup = value(&build_setup(&cfg, "auto", &[]));
    let inner = &setup["setup"];
    assert_eq!(inner["model"], text(LIVE_API_MODEL));
    assert_eq!(
        inner["generationConfig"]["responseModalities"],
        parsed(r#"["TEXT"]"#)
    );
    assert_eq!(inner["inputAudioTranscription"]["mode"], text("SMART"));
    assert_eq!(
        inner["inputAudioTranscription"]["languageCodes"],
        parsed("[]")
    );
    assert!(inner["inputAudioTranscription"]
        .get("customVocabulary")
        .is_none());
    assert_eq!(
        inner["realtimeInputConfig"],
        parsed(r#"{"automaticActivityDetection":{"disabled":true}}"#)
    );
}

#[test]
fn setup_carries_languages_and_vocabulary() {
    let mut cfg = GeminiTranscribeSettings::default();
    cfg.mode = GeminiTranscribeMode::Verbatim;
    cfg.language_codes = vec!["ru-RU".into(), "en-US".into()];
    cfg.custom_vocabulary = vec!["10Clouds".into()];
    cfg.include_custom_words = true;
    let setup = value(&build_setup(&cfg, "auto", &["Handy".to_string()]));
    let iat = &setup["setup"]["inputAudioTranscription"];
    assert_eq!(iat["mode"], text("VERBATIM"));
    assert_eq!(iat["languageCodes"], parsed(r#"["ru-RU", "en-US"]"#));
    assert_eq!(iat["customVocabulary"], parsed(r#"["10Clouds", "Handy"]"#));
}

#[test]
fn server_message_splits_interim_from_final() {
    let first = handle_server_message(
        r#"{"serverContent":{"interimInputTranscription":{"text":"привет"}}}"#,
        false,
    );
    assert!(!first.done);
    let second = handle_server_message(
        r#"{"serverContent":{"inputTranscription":{"text":"Привет."}}}"#,
        false,
    );
    assert!(!second.done);

    let events: Vec<_> = first.events.into_iter().chain(second.events).collect();
    assert_eq!(events.len(), 2);
    assert!(matches!(&events[0], LiveEvent::Interim(t) if t == "привет"));
    assert!(matches!(&events[1], LiveEvent::Final(t) if t == "Привет."));
}

#[test]
fn generation_complete_only_ends_the_turn_after_end_of_stream() {
    let frame = r#"{"serverContent":{"generationComplete":true}}"#;
    assert!(!handle_server_message(frame, false).done);
    assert!(handle_server_message(frame, true).done);
}

#[test]
fn turn_complete_ends_the_turn_whenever_it_arrives() {
    let frame = r#"{"serverContent":{"turnComplete":true}}"#;
    assert!(handle_server_message(frame, false).done);
    assert!(handle_server_message(frame, true).done);
}

#[test]
fn unrelated_frames_are_ignored() {
    for frame in [
        r#"{"setupComplete":{}}"#,
        "not json",
        r#"{"serverContent":{}}"#,
    ] {
        let read = handle_server_message(frame, true);
        assert!(!read.done);
        assert!(read.events.is_empty());
    }
}

#[test]
fn empty_and_misshapen_transcripts_are_no_events() {
    for frame in [
        r#"{"serverContent":{"inputTranscription":{"text":""}}}"#,
        r#"{"serverContent":{"inputTranscription":{"text":7}}}"#,
        r#"{"serverContent":{"inputTranscription":"Привет."}}"#,
        r#"{"serverContent":[]}"#,
    ] {
        assert!(handle_server_message(frame, false).events.is_empty());
    }
    let both = handle_server_message(
        r#"{"serverContent":{"inputTranscription":{"text":"b"},"interimInputTranscription":{"text":"a"},"turnComplete":"true"}}"#,
        true,
    );
    assert!(!both.done);
    assert!(matches!(&both.events[0], LiveEvent::Interim(t) if t == "a"));
    assert!(matches!(&both.events[1], LiveEvent::Final(t) if t == "b"));
}

#[test]
fn replies_come_as_text_and_as_bytes() {
    assert_eq!(message_text(&WireMessage::Text("да".to_string())), "да");
    assert_eq!(
        message_text(&WireMessage::Binary("да".as_bytes().to_vec())),
        "да"
    );
    assert_eq!(
        message_text(&WireMessage::Binary(vec![b'a', 0xff, b'b'])),
        "a\u{fffd}b"
    );
    assert_eq!(message_text(&WireMessage::Other), "");
}

#[test]
fn the_key_goes_into_the_address() {
    let url = socket_url("k");
    assert!(url.starts_with("wss://generativelanguage.googleapis.com/ws/"));
    assert!(url.ends_with("BidiGenerateContent?key=k"));
}

fn failure(step: SessionStep) -> String {
    match step {
        SessionStep::Fail(why) => why,
        other => panic!("expected a failure, got {other:?}"),
    }
}

fn reply(body: &str) -> Option<Result<WireMessage, String>> {
    Some(Ok(WireMessage::Text(body.to_string())))
}

fn closing(step: SessionStep) -> String {
    match step {
        SessionStep::Finish(mut events) => match events.pop() {
            Some(LiveEvent::Closed(Err(why))) => why,
            other => panic!("expected a reason, got {other:?}"),
        },
        other => panic!("expected an end, got {other:?}"),
    }
}

#[test]
fn an_accepted_setup_opens_the_turn() {
    match after_connect(Ok(()), Json::Bool(true)) {
        SessionStep::Write(setup) => assert_eq!(value(&setup), Value::Bool(true)),
        other => panic!("expected the setup, got {other:?}"),
    }
    assert!(matches!(after_setup_sent(Ok(())), SessionStep::Wait));
    match after_setup_reply(reply(r#"{"setupComplete":{}}"#)) {
        SessionStep::Write(start) => assert_eq!(
            value(&start),
            parsed(r#"{"realtimeInput":{"activityStart":{}}}"#)
        ),
        other => panic!("expected the start, got {other:?}"),
    }
    assert!(matches!(after_turn_opened(Ok(())), SessionStep::Ready));
}

#[test]
fn a_session_that_cannot_open_says_why() {
    assert_eq!(
        failure(after_connect(Err("refused".to_string()), Json::Null)),
        "Gemini Live connection failed: refused"
    );
    assert_eq!(
        failure(after_setup_sent(Err("gone".to_string()))),
        "Gemini Live setup send failed: gone"
    );
    assert_eq!(
        failure(after_setup_reply(Some(Err("reset".to_string())))),
        "Gemini Live setup failed: reset"
    );
    assert_eq!(
        failure(after_setup_reply(None)),
        "Gemini Live closed before setup completed"
    );
    assert_eq!(
        failure(after_setup_reply(reply(r#"{ "error" : "bad key" }"#))),
        r#"Gemini Live rejected the session setup: {"error":"bad key"}"#
    );
    assert!(failure(after_setup_reply(Some(Ok(WireMessage::Other))))
        .starts_with("Gemini Live setup reply unreadable: "));
    assert_eq!(
        failure(after_turn_opened(Err("gone".to_string()))),
        "Gemini Live: could not open the turn: gone"
    );
}

#[test]
fn a_session_that_does_not_report_has_timed_out() {
    assert_eq!(connect_outcome(Some(Ok(()))), Ok(()));
    assert_eq!(
        connect_outcome(Some(Err("bad key".to_string()))),
        Err("bad key".to_string())
    );
    assert_eq!(
        connect_outcome(None),
        Err("Gemini Live setup timed out".to_string())
    );
}

#[test]
fn a_long_rejection_is_cut() {
    let body = format!(r#"{{"error":"{}"}}"#, "x".repeat(500));
    let why = failure(after_setup_reply(reply(&body)));
    let shown = why
        .strip_prefix("Gemini Live rejected the session setup: ")
        .unwrap();
    assert_eq!(shown.chars().count(), 301);
    assert!(shown.ends_with('…'));
}

fn written(turn: &mut LiveTurn, outbound: Outbound) -> Option<Value> {
    match turn.outbound(Some(outbound)) {
        SessionStep::Write(message) => Some(value(&message)),
        SessionStep::Wait => None,
        other => panic!("expected a message or none, got {other:?}"),
    }
}

#[test]
fn the_end_follows_all_audio_and_comes_once() {
    let mut turn = LiveTurn::new(0);
    assert_eq!(
        written(&mut turn, Outbound::Audio(vec![1, 0, 0xff, 0xff])),
        Some(parsed(
            r#"{"realtimeInput":{"audio":{"data":"AQD//w==","mimeType":"audio/pcm;rate=16000"}}}"#
        ))
    );
    assert_eq!(
        written(&mut turn, Outbound::End),
        Some(parsed(r#"{"realtimeInput":{"activityEnd":{}}}"#))
    );
    assert_eq!(written(&mut turn, Outbound::Audio(vec![1, 0])), None);
    assert_eq!(written(&mut turn, Outbound::End), None);
    assert!(matches!(turn.outbound(None), SessionStep::Stop));
}

#[test]
fn a_turn_waits_less_once_the_audio_has_ended() {
    let mut turn = LiveTurn::new(5);
    assert_eq!(turn.read_deadline(1_000), 5 + SESSION_DEADLINE);
    turn.outbound(Some(Outbound::End));
    assert_eq!(turn.read_deadline(1_000), 1_000 + FINAL_WAIT);
}

#[test]
fn a_turn_that_breaks_says_why() {
    let mut turn = LiveTurn::new(0);
    assert!(matches!(turn.after_write(true), SessionStep::Wait));
    assert_eq!(
        closing(turn.after_write(false)),
        "Gemini Live: connection dropped while sending audio"
    );
    turn.outbound(Some(Outbound::End));
    assert_eq!(
        closing(turn.after_write(false)),
        "Gemini Live: connection dropped at end of audio"
    );
    assert_eq!(
        closing(turn.timed_out()),
        "Gemini Live: no response from the server before the deadline"
    );
    assert_eq!(
        closing(turn.inbound(Some(Err("reset".to_string())))),
        "Gemini Live socket error: reset"
    );
}

#[test]
fn the_last_chunk_is_reported_before_the_session_closes() {
    let mut turn = LiveTurn::new(0);
    let frame =
        r#"{"serverContent":{"inputTranscription":{"text":"Да."},"generationComplete":true}}"#;
    assert!(matches!(
        turn.inbound(reply(frame)),
        SessionStep::Emit(events) if events.len() == 1
    ));
    turn.outbound(Some(Outbound::End));
    match turn.inbound(reply(frame)) {
        SessionStep::Finish(events) => {
            assert_eq!(events.len(), 2);
            assert!(matches!(&events[0], LiveEvent::Final(t) if t == "Да."));
            assert!(matches!(&events[1], LiveEvent::Closed(Ok(()))));
        }
        other => panic!("expected an end, got {other:?}"),
    }
    assert!(matches!(
        turn.inbound(None),
        SessionStep::Finish(events) if matches!(&events[0], LiveEvent::Closed(Ok(())))
    ));
    assert!(matches!(
        turn.inbound(Some(Ok(WireMessage::Other))),
        SessionStep::Emit(events) if events.is_empty()
    ));
}

#[test]
fn the_first_wait_grows_with_the_audio() {
    assert_eq!(tail_first_wait(0), 800 * MS);
    // A second and a quarter: 850 ms.
    assert_eq!(tail_first_wait(20_000), 850 * MS);
    assert_eq!(tail_first_wait(16_000 * 10), 1_200 * MS);
    assert_eq!(tail_first_wait(16_000 * 130), TAIL_FIRST_WAIT);
    assert_eq!(tail_first_wait(u64::MAX), 6_000 * MS);
}

#[test]
fn the_tail_is_collected_until_nothing_comes() {
    let mut tail = Tail::new(16_000);
    assert_eq!(tail.next_wait(0), None);
    assert_eq!(tail.next_wait(10_000 * MS), Some(840 * MS));
    assert_eq!(tail.next_wait(100 * MS), Some(100 * MS));
    assert!(matches!(
        tail.take(TailOutcome::Event(LiveEvent::Interim("о".to_string()))),
        TailStep::Continue
    ));
    assert!(matches!(
        tail.take(TailOutcome::Event(LiveEvent::Final("Один.".to_string()))),
        TailStep::Continue
    ));
    assert_eq!(tail.next_wait(10_000 * MS), Some(IDLE_AFTER_FINAL));
    assert!(matches!(tail.take(TailOutcome::TimedOut), TailStep::Done));
    assert!(matches!(
        tail.take(TailOutcome::Disconnected),
        TailStep::Done
    ));
    assert!(matches!(
        tail.take(TailOutcome::Event(LiveEvent::Closed(Ok(())))),
        TailStep::Done
    ));
    assert_eq!(tail.chunks, vec!["Один.".to_string()]);
}

#[test]
fn a_broken_session_keeps_its_chunks() {
    let mut tail = Tail::new(16_000);
    for chunk in ["Один.", "Два."] {
        assert!(matches!(
            tail.take(TailOutcome::Event(LiveEvent::Final(chunk.to_string()))),
            TailStep::Continue
        ));
    }
    assert!(matches!(
        tail.take(TailOutcome::Event(LiveEvent::Closed(Err("x".to_string())))),
        TailStep::Done
    ));
    assert_eq!(tail.chunks, vec!["Один.".to_string(), "Два.".to_string()]);
}

#[test]
fn a_session_opens_in_order() {
    let opening = Opening::Connecting {
        setup: Json::Bool(true),
    };
    // What is not awaited changes nothing.
    let (opening, step) = opening.step(OpeningEvent::Written(Ok(())));
    assert!(matches!(step, SessionStep::Wait));
    let (opening, step) = opening.step(OpeningEvent::Connected(Ok(())));
    assert!(matches!(step, SessionStep::Write(Json::Bool(true))));
    let (opening, step) = opening.step(OpeningEvent::Received(reply(r#"{"setupComplete":{}}"#)));
    assert!(matches!(step, SessionStep::Wait));
    let (opening, step) = opening.step(OpeningEvent::Written(Ok(())));
    assert!(matches!(step, SessionStep::Wait));
    let (opening, step) = opening.step(OpeningEvent::Received(reply(r#"{"setupComplete":{}}"#)));
    match step {
        SessionStep::Write(start) => assert_eq!(
            value(&start),
            parsed(r#"{"realtimeInput":{"activityStart":{}}}"#)
        ),
        other => panic!("expected the start, got {other:?}"),
    }
    let (opening, step) = opening.step(OpeningEvent::Written(Ok(())));
    assert!(matches!(step, SessionStep::Ready));
    let (opening, step) = opening.step(OpeningEvent::Written(Ok(())));
    assert!(matches!(step, SessionStep::Wait));
    assert!(matches!(opening, Opening::Open));
}

#[test]
fn a_rejected_session_stays_closed() {
    let (opening, _) = Opening::AwaitingReply.step(OpeningEvent::Received(reply("{}")));
    assert!(matches!(opening, Opening::Failed));
    let (opening, step) = opening.step(OpeningEvent::Received(reply(r#"{"setupComplete":{}}"#)));
    assert!(matches!(step, SessionStep::Wait));
    assert!(matches!(opening, Opening::Failed));
}

#[test]
fn a_message_is_written_as_compact_json() {
    let message = Json::Object(vec![
        (
            "b".to_string(),
            Json::Array(vec![Json::Null, Json::Number("7".to_string())]),
        ),
        ("a".to_string(), Json::Text("\"да\"".to_string())),
    ]);
    assert_eq!(serialize(&message), r#"{"a":"\"да\"","b":[null,7]}"#);
    let setup = build_setup(&GeminiTranscribeSettings::default(), "auto", &[]);
    assert_eq!(parsed(&serialize(&setup)), value(&setup));
}

#[test]
fn a_written_object_keeps_the_last_member_of_a_name_in_order() {
    let message = Json::Object(vec![
        ("b".to_string(), Json::Bool(false)),
        ("é".to_string(), Json::Null),
        ("ab".to_string(), Json::Text("x".to_string())),
        ("b".to_string(), Json::Bool(true)),
        ("a".to_string(), Json::Array(vec![])),
        ("B".to_string(), Json::Null),
    ]);
    assert_eq!(
        serialize(&message),
        r#"{"B":null,"a":[],"ab":"x","b":true,"é":null}"#
    );
}

#[test]
fn a_written_number_is_what_its_text_reads_as() {
    let numbers = Json::Array(vec![
        Json::Number("1.50".to_string()),
        Json::Number(" 7 ".to_string()),
        Json::Number("true".to_string()),
        Json::Number("[1]".to_string()),
        Json::Number("seven".to_string()),
        Json::Number(String::new()),
    ]);
    assert_eq!(serialize(&numbers), "[1.5,7,true,[1],null,null]");
}
