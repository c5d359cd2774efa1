//! Streaming transcription with Gemini Live: what a session writes to its socket, what it makes of
//! what comes back, and how long it waits. Times are in nanoseconds.
use vstd::prelude::*;
use vstd::utf8::*;
use crate::gemini::{
    resolve_custom_vocabulary, resolve_language_codes, GeminiTranscribeMode,
    GeminiTranscribeSettings,
};
use crate::json::{no_fields, parse_and_show_json, parse_json, push_field, Json, JsonTree};
use crate::pcm::base64_text;
use crate::text::{concat, join, shorten, trim};

verus! {

/// Where sessions connect to.
pub const WS_URL: &'static str = "wss://generativelanguage.googleapis.com/ws/google.ai.generativelanguage.v1beta.GenerativeService.BidiGenerateContent";

/// The name of the streaming model at the service.
pub const LIVE_API_MODEL: &'static str = "models/gemini-3.5-transcribe-live";

/// The catalogue id of the streaming model.
pub const LIVE_MODEL_ID: &'static str = "gemini-3.5-transcribe-live";

/// How long a session waits for the server once the audio has ended.
pub const FINAL_WAIT: u64 = 10_000_000_000;

/// How long to wait for another chunk once one has come.
pub const IDLE_AFTER_FINAL: u64 = 600_000_000;

/// The longest wait for the first chunk once the audio has ended.
pub const TAIL_FIRST_WAIT: u64 = 6_000_000_000;

/// The part of the first wait that does not depend on the audio.
pub const TAIL_BASE_WAIT: u64 = 800_000_000;

/// What each sample adds to the first wait: forty milliseconds for a second of audio.
pub const TAIL_WAIT_PER_SAMPLE: u64 = 2_500;

/// How long a session may last.
pub const SESSION_DEADLINE: u64 = 900_000_000_000;

/// How long to wait for the service to accept a session.
pub const SETUP_WAIT: u64 = 20_000_000_000;

/// How much of a rejection is shown.
pub const SHOWN_REPLY: usize = 300;

/// What a session reports.
#[derive(Debug)]
pub enum LiveEvent {
    /// A hypothesis that may still change: to show, never to keep.
    Interim(String),
    /// A finished chunk.
    Final(String),
    /// The session is over, cleanly or with the reason why not.
    Closed(Result<(), String>),
}

/// What a session reports, as a mathematical value.
pub enum LiveEventView {
    Interim(Seq<char>),
    Final(Seq<char>),
    Closed(Result<(), Seq<char>>),
}

impl View for LiveEvent {
    type V = LiveEventView;

    open spec fn view(&self) -> LiveEventView {
        match self {
            LiveEvent::Interim(text) => LiveEventView::Interim(text@),
            LiveEvent::Final(text) => LiveEventView::Final(text@),
            LiveEvent::Closed(Ok(())) => LiveEventView::Closed(Ok(())),
            LiveEvent::Closed(Err(why)) => LiveEventView::Closed(Err(why@)),
        }
    }
}

/// The events as mathematical values.
pub open spec fn event_views(events: Seq<LiveEvent>) -> Seq<LiveEventView> {
    events.map_values(|e: LiveEvent| e@)
}

/// What the caller hands a session.
#[derive(Debug)]
pub enum Outbound {
    /// Little-endian samples.
    Audio(Vec<u8>),
    /// There is no more audio.
    End,
}

/// A message off the socket.
#[derive(Debug)]
pub enum WireMessage {
    Text(String),
    Binary(Vec<u8>),
    /// A message that carries no reply.
    Other,
}

/// What `String::from_utf8_lossy` makes of bytes.
pub uninterp spec fn lossy_text(bytes: Seq<u8>) -> Seq<char>;

/// Calls `String::from_utf8_lossy`. The contract claims that the result depends on the bytes
/// alone, names it, and claims that bytes in UTF-8 come out as what they encode.
#[verifier::external_body]
fn text_from_utf8_lossy(bytes: &[u8]) -> (r: String)
    ensures
        r@ == lossy_text(bytes@),
        valid_utf8(bytes@) ==> r@ == decode_utf8(bytes@),
{
    String::from_utf8_lossy(bytes).into_owned()
}

/// The text that a message carries.
pub open spec fn wire_text(msg: WireMessage) -> Seq<char> {
    match msg {
        WireMessage::Text(text) => text@,
        WireMessage::Binary(bytes) => lossy_text(bytes@),
        WireMessage::Other => Seq::empty(),
    }
}

/// The text that a message carries. Replies come as text and as binary messages alike.
pub fn message_text(msg: &WireMessage) -> (r: String)
    ensures
        r@ == wire_text(*msg),
        msg matches WireMessage::Binary(bytes) ==> valid_utf8(bytes@) ==> r@ == decode_utf8(
            bytes@,
        ),
{
    match msg {
        WireMessage::Text(text) => text.clone(),
        WireMessage::Binary(bytes) => text_from_utf8_lossy(bytes.as_slice()),
        WireMessage::Other => String::new(),
    }
}

/// The chunks without the white space around them and without the blank ones.
pub open spec fn spoken(chunks: Seq<Seq<char>>) -> Seq<Seq<char>>
    decreases chunks.len(),
{
    if chunks.len() == 0 {
        Seq::empty()
    } else {
        let before = spoken(chunks.drop_last());
        let chunk = crate::text::trimmed(chunks.last());
        if chunk.len() > 0 {
            before.push(chunk)
        } else {
            before
        }
    }
}

/// The transcript that finished chunks make.
pub open spec fn transcript_of_chunks(chunks: Seq<Seq<char>>) -> Seq<char> {
    crate::text::joined(spoken(chunks), " "@)
}

/// Joins finished chunks into one transcript. Chunks come without padding, so one space goes
/// between them.
pub fn join_finals(chunks: &[String]) -> (r: String)
    ensures
        r@ == crate::text::joined(spoken(crate::text::texts(chunks@)), " "@),
        r@ == transcript_of_chunks(crate::text::texts(chunks@)),
{
    let mut kept: Vec<String> = Vec::new();
    let ghost all = crate::text::texts(chunks@);
    let mut i: usize = 0;
    proof {
        assert(all.take(0) =~= Seq::empty());
        assert(crate::text::texts(kept@) =~= spoken(all.take(0)));
    }
    while i < chunks.len()
        invariant
            i <= chunks.len(),
            all == crate::text::texts(chunks@),
            crate::text::texts(kept@) == spoken(all.take(i as int)),
        decreases chunks.len() - i,
    {
        let chunk = trim(chunks[i].as_str());
        let ghost before = crate::text::texts(kept@);
        proof {
            assert(all.take(i + 1).drop_last() =~= all.take(i as int));
            assert(all.take(i + 1).last() == chunks@[i as int]@);
        }
        if chunk.unicode_len() > 0 {
            kept.push(chunk);
            proof {
                assert(crate::text::texts(kept@) =~= before.push(chunk@));
            }
        }
        i += 1;
    }
    proof {
        assert(all.take(all.len() as int) =~= all);
    }
    join(&kept, " ")
}

/// The address to connect to.
pub fn socket_url(api_key: &str) -> (r: String)
    ensures
        r@ == WS_URL@ + "?key="@ + api_key@,
{
    concat(concat(WS_URL, "?key=").as_str(), api_key)
}

/// How the streaming service spells the mode.
pub open spec fn mode_name(mode: GeminiTranscribeMode) -> Seq<char> {
    match mode {
        GeminiTranscribeMode::Smart => "SMART"@,
        GeminiTranscribeMode::Verbatim => "VERBATIM"@,
    }
}

/// The transcription part of a setup message.
pub open spec fn live_transcription_tree(
    config: GeminiTranscribeSettings,
    language: Seq<char>,
    custom_words: Seq<String>,
) -> JsonTree {
    let terms = crate::gemini::vocabulary(crate::gemini::candidates(config, custom_words));
    JsonTree::Object(
        seq![
            (
                "languageCodes"@,
                crate::json::text_list(crate::gemini::language_codes(config, language)),
            ),
        ] + if terms.len() > 0 {
            seq![("customVocabulary"@, crate::json::text_list(terms))]
        } else {
            Seq::empty()
        } + seq![("mode"@, JsonTree::Text(mode_name(config.mode)))],
    )
}

/// An object with one field.
pub open spec fn one_field(key: Seq<char>, value: JsonTree) -> JsonTree {
    JsonTree::Object(seq![(key, value)])
}

/// The message that opens a session. The caller marks where the speaker starts and stops, so the
/// service's own detection is switched off.
pub open spec fn setup_tree(
    config: GeminiTranscribeSettings,
    language: Seq<char>,
    custom_words: Seq<String>,
) -> JsonTree {
    one_field(
        "setup"@,
        JsonTree::Object(
            seq![
                ("model"@, JsonTree::Text(LIVE_API_MODEL@)),
                (
                    "generationConfig"@,
                    one_field("responseModalities"@, crate::json::text_list(seq!["TEXT"@])),
                ),
                (
                    "inputAudioTranscription"@,
                    live_transcription_tree(config, language, custom_words),
                ),
                (
                    "realtimeInputConfig"@,
                    one_field(
                        "automaticActivityDetection"@,
                        one_field("disabled"@, JsonTree::Bool(true)),
                    ),
                ),
            ],
        ),
    )
}

/// An object with one field.
fn object_of(key: &str, value: Json) -> (r: Json)
    ensures
        r.tree() == one_field(key@, value.tree()),
{
    let mut fields = no_fields();
    push_field(&mut fields, key, value);
    proof {
        assert(crate::json::field_trees(fields@) =~= seq![(key@, value.tree())]);
    }
    Json::object(fields)
}

/// The transcription part of a setup message.
fn build_live_transcription(
    config: &GeminiTranscribeSettings,
    language: &str,
    custom_words: &[String],
) -> (r: Json)
    ensures
        r.tree() == live_transcription_tree(*config, language@, custom_words@),
{
    let mut fields = no_fields();
    let codes = resolve_language_codes(config, language);
    push_field(&mut fields, "languageCodes", Json::texts(&codes));
    let terms = resolve_custom_vocabulary(config, custom_words);
    if terms.len() > 0 {
        push_field(&mut fields, "customVocabulary", Json::texts(&terms));
    }
    let mode = match config.mode {
        GeminiTranscribeMode::Smart => "SMART",
        GeminiTranscribeMode::Verbatim => "VERBATIM",
    };
    push_field(&mut fields, "mode", Json::text(mode));
    proof {
        let tree = live_transcription_tree(*config, language@, custom_words@);
        assert(crate::text::texts(terms@).len() == terms@.len());
        assert(crate::json::field_trees(fields@) =~= tree->Object_0);
    }
    Json::object(fields)
}

/// The message that opens a session.
pub fn build_setup(
    config: &GeminiTranscribeSettings,
    language: &str,
    custom_words: &[String],
) -> (r: Json)
    ensures
        r.tree() == setup_tree(*config, language@, custom_words@),
        crate::request_laws::right_languages(
            *config,
            language@,
            crate::request_laws::at3(
                r.tree(),
                "setup"@,
                "inputAudioTranscription"@,
                "languageCodes"@,
            ),
        ),
        crate::request_laws::right_vocabulary(
            *config,
            custom_words@,
            crate::request_laws::at3(
                r.tree(),
                "setup"@,
                "inputAudioTranscription"@,
                "customVocabulary"@,
            ),
        ),
{
    let modalities = Json::single(Json::text("TEXT"));
    proof {
        assert(modalities.tree()->Array_0 =~= crate::json::text_list(seq!["TEXT"@])->Array_0);
    }
    let mut fields = no_fields();
    push_field(&mut fields, "model", Json::text(LIVE_API_MODEL));
    push_field(&mut fields, "generationConfig", object_of("responseModalities", modalities));
    push_field(
        &mut fields,
        "inputAudioTranscription",
        build_live_transcription(config, language, custom_words),
    );
    push_field(
        &mut fields,
        "realtimeInputConfig",
        object_of("automaticActivityDetection", object_of("disabled", Json::Bool(true))),
    );
    proof {
        let inner = setup_tree(*config, language@, custom_words@)->Object_0[0].1;
        assert(crate::json::field_trees(fields@) =~= inner->Object_0);
        crate::request_laws::law_what_a_setup_asks_for(*config, language@, custom_words@);
    }
    object_of("setup", Json::object(fields))
}

/// The message that opens or closes the turn.
pub open spec fn activity_tree(signal: Seq<char>) -> JsonTree {
    one_field("realtimeInput"@, one_field(signal, JsonTree::Object(Seq::empty())))
}

/// The message that opens the turn.
pub open spec fn start_tree() -> JsonTree {
    activity_tree("activityStart"@)
}

/// The message that closes the turn.
pub open spec fn end_tree() -> JsonTree {
    activity_tree("activityEnd"@)
}

/// The message that carries audio.
pub open spec fn audio_tree(pcm: Seq<u8>) -> JsonTree {
    one_field(
        "realtimeInput"@,
        one_field(
            "audio"@,
            JsonTree::Object(
                seq![
                    ("data"@, JsonTree::Text(crate::pcm::base64(pcm))),
                    ("mimeType"@, JsonTree::Text("audio/pcm;rate=16000"@)),
                ],
            ),
        ),
    )
}

/// The message that opens or closes the turn.
fn activity(signal: &str) -> (r: Json)
    ensures
        r.tree() == activity_tree(signal@),
{
    let nothing = Json::object(no_fields());
    object_of("realtimeInput", object_of(signal, nothing))
}

/// The message that carries audio.
pub fn audio_frame(pcm: &[u8]) -> (r: Json)
    requires
        crate::pcm::base64_len(pcm@.len() as int) <= isize::MAX,
    ensures
        r.tree() == audio_tree(pcm@),
{
    let mut fields = no_fields();
    push_field(&mut fields, "data", Json::text(base64_text(pcm).as_str()));
    push_field(&mut fields, "mimeType", Json::text("audio/pcm;rate=16000"));
    proof {
        assert(crate::json::field_trees(fields@) =~= seq![
            ("data"@, JsonTree::Text(crate::pcm::base64(pcm@))),
            ("mimeType"@, JsonTree::Text("audio/pcm;rate=16000"@)),
        ]);
    }
    object_of("realtimeInput", object_of("audio", Json::object(fields)))
}

/// What a session does next.
#[derive(Debug)]
pub enum SessionStep {
    /// Wait for the next thing to happen.
    Wait,
    /// Write this message, then report how that went.
    Write(Json),
    /// The session takes audio from now on.
    Ready,
    /// The session could not be opened, for this reason. It is over.
    Fail(String),
    /// Report these events and go on.
    Emit(Vec<LiveEvent>),
    /// Report these events. The session is over.
    Finish(Vec<LiveEvent>),
    /// The session is over with nobody left to tell.
    Stop,
}

/// What a session does next, as a mathematical value.
pub enum SessionStepView {
    Wait,
    Write(JsonTree),
    Ready,
    Fail(Seq<char>),
    Emit(Seq<LiveEventView>),
    Finish(Seq<LiveEventView>),
    Stop,
}

impl View for SessionStep {
    type V = SessionStepView;

    open spec fn view(&self) -> SessionStepView {
        match self {
            SessionStep::Wait => SessionStepView::Wait,
            SessionStep::Write(message) => SessionStepView::Write(message.tree()),
            SessionStep::Ready => SessionStepView::Ready,
            SessionStep::Fail(why) => SessionStepView::Fail(why@),
            SessionStep::Emit(events) => SessionStepView::Emit(event_views(events@)),
            SessionStep::Finish(events) => SessionStepView::Finish(event_views(events@)),
            SessionStep::Stop => SessionStepView::Stop,
        }
    }
}

/// What follows an attempt to connect: the setup message goes out.
pub fn after_connect(outcome: Result<(), String>, setup: Json) -> (r: SessionStep)
    ensures
        r@ == match outcome {
            Ok(_) => SessionStepView::Write(setup.tree()),
            Err(e) => SessionStepView::Fail("Gemini Live connection failed: "@ + e@),
        },
{
    match outcome {
        Ok(_) => SessionStep::Write(setup),
        Err(e) => SessionStep::Fail(concat("Gemini Live connection failed: ", e.as_str())),
    }
}

/// What follows an attempt to write the setup message: the server's reply is awaited.
pub fn after_setup_sent(outcome: Result<(), String>) -> (r: SessionStep)
    ensures
        r@ == match outcome {
            Ok(_) => SessionStepView::Wait,
            Err(e) => SessionStepView::Fail("Gemini Live setup send failed: "@ + e@),
        },
{
    match outcome {
        Ok(_) => SessionStep::Wait,
        Err(e) => SessionStep::Fail(concat("Gemini Live setup send failed: ", e.as_str())),
    }
}

/// The verdict on a readable reply to the setup message. `shown` is the reply written down.
pub open spec fn setup_verdict(reply: JsonTree, shown: Seq<char>) -> SessionStepView {
    if reply.member("setupComplete"@) is Some {
        SessionStepView::Write(start_tree())
    } else {
        SessionStepView::Fail(
            "Gemini Live rejected the session setup: "@ + crate::text::shortened(
                shown,
                SHOWN_REPLY as int,
            ),
        )
    }
}

/// What follows the reply to the setup message.
pub open spec fn setup_reply_step(reply: Option<Result<WireMessage, String>>) -> SessionStepView {
    match reply {
        Some(Ok(msg)) => match crate::json::parsed_json(wire_text(msg)) {
            Ok(tree) => setup_verdict(tree, crate::json::json_text(tree)),
            Err(e) => SessionStepView::Fail("Gemini Live setup reply unreadable: "@ + e),
        },
        Some(Err(e)) => SessionStepView::Fail("Gemini Live setup failed: "@ + e@),
        None => SessionStepView::Fail("Gemini Live closed before setup completed"@),
    }
}

/// The verdict on a readable reply to the setup message: an acceptance opens the turn, anything
/// else is a rejection. `shown` is the reply written down.
pub fn judge_setup(reply: &Json, shown: &str) -> (r: SessionStep)
    ensures
        r@ == setup_verdict(reply.tree(), shown@),
{
    if reply.get("setupComplete").is_some() {
        SessionStep::Write(activity("activityStart"))
    } else {
        let start = shorten(shown, SHOWN_REPLY);
        SessionStep::Fail(
            concat("Gemini Live rejected the session setup: ", start.as_str()),
        )
    }
}

/// What follows the reply to the setup message. `None` is a closed socket.
pub fn after_setup_reply(reply: Option<Result<WireMessage, String>>) -> (r: SessionStep)
    ensures
        r@ == setup_reply_step(reply),
{
    match reply {
        Some(Ok(msg)) => {
            let text = message_text(&msg);
            match parse_and_show_json(text.as_str()) {
                Ok((value, shown)) => judge_setup(&value, shown.as_str()),
                Err(e) => SessionStep::Fail(
                    concat("Gemini Live setup reply unreadable: ", e.as_str()),
                ),
            }
        },
        Some(Err(e)) => SessionStep::Fail(concat("Gemini Live setup failed: ", e.as_str())),
        None => SessionStep::Fail("Gemini Live closed before setup completed".to_owned()),
    }
}

/// What follows an attempt to open the turn.
pub fn after_turn_opened(outcome: Result<(), String>) -> (r: SessionStep)
    ensures
        r@ == match outcome {
            Ok(_) => SessionStepView::Ready,
            Err(e) => SessionStepView::Fail("Gemini Live: could not open the turn: "@ + e@),
        },
{
    match outcome {
        Ok(_) => SessionStep::Ready,
        Err(e) => SessionStep::Fail(
            concat("Gemini Live: could not open the turn: ", e.as_str()),
        ),
    }
}

/// How far the opening of a session has come.
#[derive(Debug)]
pub enum Opening {
    /// The socket is being connected. The setup message goes out first.
    Connecting { setup: Json },
    /// The setup message is being written.
    SendingSetup,
    /// The server has the setup message.
    AwaitingReply,
    /// The message that opens the turn is being written.
    OpeningTurn,
    /// The session takes audio.
    Open,
    /// The session could not be opened.
    Failed,
}

/// What happens while a session is being opened.
#[derive(Debug)]
pub enum OpeningEvent {
    /// The socket is connected, or why it is not.
    Connected(Result<(), String>),
    /// A message is written, or why it is not.
    Written(Result<(), String>),
    /// What comes off the socket; `None` is a closed one.
    Received(Option<Result<WireMessage, String>>),
}

/// What a session that is being opened does next.
pub open spec fn opening_step(opening: Opening, event: OpeningEvent) -> SessionStepView {
    match (opening, event) {
        (Opening::Connecting { setup }, OpeningEvent::Connected(outcome)) => match outcome {
            Ok(_) => SessionStepView::Write(setup.tree()),
            Err(e) => SessionStepView::Fail("Gemini Live connection failed: "@ + e@),
        },
        (Opening::SendingSetup, OpeningEvent::Written(outcome)) => match outcome {
            Ok(_) => SessionStepView::Wait,
            Err(e) => SessionStepView::Fail("Gemini Live setup send failed: "@ + e@),
        },
        (Opening::AwaitingReply, OpeningEvent::Received(reply)) => setup_reply_step(reply),
        (Opening::OpeningTurn, OpeningEvent::Written(outcome)) => match outcome {
            Ok(_) => SessionStepView::Ready,
            Err(e) => SessionStepView::Fail("Gemini Live: could not open the turn: "@ + e@),
        },
        _ => SessionStepView::Wait,
    }
}

/// How far the opening has come after an event.
pub open spec fn opening_after(opening: Opening, event: OpeningEvent) -> Opening {
    if opening_step(opening, event) is Fail {
        Opening::Failed
    } else {
        match (opening, event) {
            (Opening::Connecting { .. }, OpeningEvent::Connected(_)) => Opening::SendingSetup,
            (Opening::SendingSetup, OpeningEvent::Written(_)) => Opening::AwaitingReply,
            (Opening::AwaitingReply, OpeningEvent::Received(_)) => Opening::OpeningTurn,
            (Opening::OpeningTurn, OpeningEvent::Written(_)) => Opening::Open,
            _ => opening,
        }
    }
}

impl Opening {
    /// Takes what happened. An event that is not awaited changes nothing.
    pub fn step(self, event: OpeningEvent) -> (r: (Opening, SessionStep))
        ensures
            r.0 == opening_after(self, event),
            r.1@ == opening_step(self, event),
    {
        let ghost opening = self;
        let (next, step) = match (self, event) {
            (Opening::Connecting { setup }, OpeningEvent::Connected(outcome)) => (
                Opening::SendingSetup,
                after_connect(outcome, setup),
            ),
            (Opening::SendingSetup, OpeningEvent::Written(outcome)) => (
                Opening::AwaitingReply,
                after_setup_sent(outcome),
            ),
            (Opening::AwaitingReply, OpeningEvent::Received(reply)) => (
                Opening::OpeningTurn,
                after_setup_reply(reply),
            ),
            (Opening::OpeningTurn, OpeningEvent::Written(outcome)) => (
                Opening::Open,
                after_turn_opened(outcome),
            ),
            (opening, _) => (opening, SessionStep::Wait),
        };
        match step {
            SessionStep::Fail(why) => (Opening::Failed, SessionStep::Fail(why)),
            step => (next, step),
        }
    }
}

/// What came of opening a session, from what it reported within [`SETUP_WAIT`]; `None` is no report.
pub fn connect_outcome(report: Option<Result<(), String>>) -> (r: Result<(), String>)
    ensures
        match report {
            Some(outcome) => r == outcome,
            None => r matches Err(why) && why@ == "Gemini Live setup timed out"@,
        },
{
    match report {
        Some(outcome) => outcome,
        None => Err("Gemini Live setup timed out".to_owned()),
    }
}

/// The text of a transcription field, where there is one.
pub open spec fn transcription(content: JsonTree, field: Seq<char>) -> Option<Seq<char>> {
    match content.member(field) {
        Some(part) => match part.member("text"@) {
            Some(text) => match text.as_text() {
                Some(s) if s.len() > 0 => Some(s),
                _ => None,
            },
            None => None,
        },
        None => None,
    }
}

/// The text of a transcription field, where there is one.
pub fn transcript_text(content: &Json, field: &str) -> (r: Option<String>)
    ensures
        match r {
            Some(s) => transcription(content.tree(), field@) == Some(s@),
            None => transcription(content.tree(), field@) is None,
        },
{
    match content.get(field) {
        Some(part) => match part.get("text") {
            Some(text) => match text.as_str() {
                Some(s) => {
                    if s.unicode_len() > 0 {
                        Some(s.to_owned())
                    } else {
                        None
                    }
                },
                None => None,
            },
            None => None,
        },
        None => None,
    }
}

/// The events in a server frame: the hypothesis first, then the finished chunk.
pub open spec fn content_events(content: JsonTree) -> Seq<LiveEventView> {
    let interim = match transcription(content, "interimInputTranscription"@) {
        Some(s) => seq![LiveEventView::Interim(s)],
        None => Seq::empty(),
    };
    let finished = match transcription(content, "inputTranscription"@) {
        Some(s) => seq![LiveEventView::Final(s)],
        None => Seq::empty(),
    };
    interim + finished
}

/// Whether nothing more is to be waited for after this frame. A generation is complete after every
/// chunk; only once the audio has ended is that the last one.
pub open spec fn content_done(content: JsonTree, ended: bool) -> bool {
    content.flag("turnComplete"@) || (ended && content.flag("generationComplete"@))
}

/// The events in a server message.
pub open spec fn message_events(message: JsonTree) -> Seq<LiveEventView> {
    match message.member("serverContent"@) {
        Some(content) => content_events(content),
        None => Seq::empty(),
    }
}

/// Whether nothing more is to be waited for after this message.
pub open spec fn message_done(message: JsonTree, ended: bool) -> bool {
    match message.member("serverContent"@) {
        Some(content) => content_done(content, ended),
        None => false,
    }
}

/// What came of a server message.
#[derive(Debug)]
pub struct ServerFrame {
    pub events: Vec<LiveEvent>,
    /// Whether there is nothing more to wait for.
    pub done: bool,
}

/// What a readable server message says. `ended` is whether the audio has ended.
pub fn read_server_message(message: &Json, ended: bool) -> (r: ServerFrame)
    ensures
        event_views(r.events@) == message_events(message.tree()),
        r.done == message_done(message.tree(), ended),
{
    let mut events: Vec<LiveEvent> = Vec::new();
    let mut done = false;
    match message.get("serverContent") {
        Some(content) => {
            match transcript_text(content, "interimInputTranscription") {
                Some(text) => {
                    events.push(LiveEvent::Interim(text));
                },
                None => {},
            }
            match transcript_text(content, "inputTranscription") {
                Some(text) => {
                    events.push(LiveEvent::Final(text));
                },
                None => {},
            }
            done = content.flag("turnComplete") || (ended && content.flag("generationComplete"));
        },
        None => {},
    }
    proof {
        assert(event_views(events@) =~= message_events(message.tree()));
    }
    ServerFrame { events, done }
}

/// What a server message says. One that is not JSON says nothing.
pub fn handle_server_message(text: &str, ended: bool) -> (r: ServerFrame)
    ensures
        match crate::json::parsed_json(text@) {
            Ok(tree) => {
                &&& event_views(r.events@) == message_events(tree)
                &&& r.done == message_done(tree, ended)
            },
            Err(_) => r.events@.len() == 0 && !r.done,
        },
{
    match parse_json(text) {
        Ok(message) => read_server_message(&message, ended),
        Err(_) => ServerFrame { events: Vec::new(), done: false },
    }
}

/// An open turn.
#[derive(Clone, Copy, Debug)]
pub struct LiveTurn {
    /// Whether the end of the audio has been announced.
    pub ended: bool,
    /// When the session has lasted too long.
    pub deadline: u64,
}

/// What a turn does with what the caller hands it.
pub open spec fn outbound_step(ended: bool, outbound: Option<Outbound>) -> SessionStepView {
    match outbound {
        Some(Outbound::Audio(pcm)) => if ended {
            SessionStepView::Wait
        } else {
            SessionStepView::Write(audio_tree(pcm@))
        },
        Some(Outbound::End) => if ended {
            SessionStepView::Wait
        } else {
            SessionStepView::Write(end_tree())
        },
        None => SessionStepView::Stop,
    }
}

/// What a turn does with what comes off the socket.
pub open spec fn inbound_step(
    ended: bool,
    inbound: Option<Result<WireMessage, String>>,
) -> SessionStepView {
    match inbound {
        Some(Ok(msg)) => match crate::json::parsed_json(wire_text(msg)) {
            Ok(tree) => if message_done(tree, ended) {
                SessionStepView::Finish(
                    message_events(tree).push(LiveEventView::Closed(Ok(()))),
                )
            } else {
                SessionStepView::Emit(message_events(tree))
            },
            Err(_) => SessionStepView::Emit(Seq::empty()),
        },
        Some(Err(e)) => SessionStepView::Finish(
            seq![LiveEventView::Closed(Err("Gemini Live socket error: "@ + e@))],
        ),
        None => SessionStepView::Finish(seq![LiveEventView::Closed(Ok(()))]),
    }
}

/// A report that the session is over for a reason.
fn closed_because(why: String) -> (r: SessionStep)
    ensures
        r@ == SessionStepView::Finish(seq![LiveEventView::Closed(Err(why@))]),
{
    let mut events: Vec<LiveEvent> = Vec::new();
    events.push(LiveEvent::Closed(Err(why)));
    proof {
        assert(event_views(events@) =~= seq![LiveEventView::Closed(Err(why@))]);
    }
    SessionStep::Finish(events)
}

impl LiveTurn {
    /// A turn that is opened now.
    pub fn new(now: u64) -> (r: Self)
        requires
            now + SESSION_DEADLINE <= u64::MAX,
        ensures
            !r.ended,
            r.deadline == now + SESSION_DEADLINE,
            r.deadline == now + 900_000_000_000,
    {
        LiveTurn { ended: false, deadline: now + SESSION_DEADLINE }
    }

    /// Until when the turn waits: for the session's own deadline, or, once the audio has ended,
    /// for a shorter while from now.
    pub fn read_deadline(&self, now: u64) -> (r: u64)
        requires
            now + FINAL_WAIT <= u64::MAX,
        ensures
            r == if self.ended {
                (now + FINAL_WAIT) as u64
            } else {
                self.deadline
            },
            self.ended ==> r == now + 10_000_000_000,
            !self.ended ==> r == self.deadline,
    {
        if self.ended {
            now + FINAL_WAIT
        } else {
            self.deadline
        }
    }

    /// Takes what the caller hands the session; `None` is a caller who has gone. Audio that comes
    /// after the end is dropped, and the end is announced once.
    pub fn outbound(&mut self, outbound: Option<Outbound>) -> (r: SessionStep)
        requires
            outbound matches Some(Outbound::Audio(pcm)) ==> crate::pcm::base64_len(
                pcm@.len() as int,
            ) <= isize::MAX,
        ensures
            r@ == outbound_step(old(self).ended, outbound),
            final(self).ended == (old(self).ended || outbound == Some(Outbound::End)),
            final(self).deadline == old(self).deadline,
    {
        match outbound {
            Some(Outbound::Audio(pcm)) => {
                if self.ended {
                    SessionStep::Wait
                } else {
                    SessionStep::Write(audio_frame(pcm.as_slice()))
                }
            },
            Some(Outbound::End) => {
                if self.ended {
                    SessionStep::Wait
                } else {
                    self.ended = true;
                    SessionStep::Write(activity("activityEnd"))
                }
            },
            None => SessionStep::Stop,
        }
    }

    /// What follows an attempt to write what [`LiveTurn::outbound`] gave.
    pub fn after_write(&self, written: bool) -> (r: SessionStep)
        ensures
            r@ == if written {
                SessionStepView::Wait
            } else if self.ended {
                SessionStepView::Finish(
                    seq![
                        LiveEventView::Closed(
                            Err("Gemini Live: connection dropped at end of audio"@),
                        ),
                    ],
                )
            } else {
                SessionStepView::Finish(
                    seq![
                        LiveEventView::Closed(
                            Err("Gemini Live: connection dropped while sending audio"@),
                        ),
                    ],
                )
            },
    {
        if written {
            SessionStep::Wait
        } else if self.ended {
            closed_because("Gemini Live: connection dropped at end of audio".to_owned())
        } else {
            closed_because("Gemini Live: connection dropped while sending audio".to_owned())
        }
    }

    /// Takes what comes off the socket; `None` is a closed one.
    pub fn inbound(&self, inbound: Option<Result<WireMessage, String>>) -> (r: SessionStep)
        ensures
            r@ == inbound_step(self.ended, inbound),
    {
        match inbound {
            Some(Ok(msg)) => {
                let text = message_text(&msg);
                let frame = handle_server_message(text.as_str(), self.ended);
                let mut events = frame.events;
                let ghost before = events@;
                if frame.done {
                    events.push(LiveEvent::Closed(Ok(())));
                    proof {
                        assert(event_views(events@) =~= event_views(before).push(
                            LiveEventView::Closed(Ok(())),
                        ));
                    }
                    SessionStep::Finish(events)
                } else {
                    proof {
                        if before.len() == 0 {
                            assert(event_views(before) =~= Seq::empty());
                        }
                    }
                    SessionStep::Emit(events)
                }
            },
            Some(Err(e)) => closed_because(concat("Gemini Live socket error: ", e.as_str())),
            None => {
                let mut events: Vec<LiveEvent> = Vec::new();
                events.push(LiveEvent::Closed(Ok(())));
                proof {
                    assert(event_views(events@) =~= seq![LiveEventView::Closed(Ok(()))]);
                }
                SessionStep::Finish(events)
            },
        }
    }

    /// What follows a wait that brought nothing.
    pub fn timed_out(&self) -> (r: SessionStep)
        ensures
            r@ == SessionStepView::Finish(
                seq![
                    LiveEventView::Closed(
                        Err("Gemini Live: no response from the server before the deadline"@),
                    ),
                ],
            ),
    {
        closed_because(
            "Gemini Live: no response from the server before the deadline".to_owned(),
        )
    }
}

/// How long to wait for the first chunk after `samples` samples of audio.
pub open spec fn first_wait(samples: int) -> int {
    let scaled = TAIL_BASE_WAIT + TAIL_WAIT_PER_SAMPLE * samples;
    if scaled < TAIL_FIRST_WAIT {
        scaled
    } else {
        TAIL_FIRST_WAIT as int
    }
}

/// How long to wait for the first chunk after `samples` samples of audio: a transcript cannot
/// outlast its audio, so short recordings wait less.
pub fn tail_first_wait(samples: u64) -> (r: u64)
    ensures
        r == first_wait(samples as int),
{
    proof {
        assert(TAIL_WAIT_PER_SAMPLE * samples <= 2_500 * u64::MAX) by (nonlinear_arith)
            requires
                TAIL_WAIT_PER_SAMPLE == 2_500,
                samples <= u64::MAX,
        ;
    }
    let scaled: u128 = TAIL_BASE_WAIT as u128 + TAIL_WAIT_PER_SAMPLE as u128 * samples as u128;
    if scaled < TAIL_FIRST_WAIT as u128 {
        scaled as u64
    } else {
        TAIL_FIRST_WAIT
    }
}

/// What came of waiting for the rest of a transcript.
#[derive(Debug)]
pub enum TailOutcome {
    Event(LiveEvent),
    TimedOut,
    /// The session has gone.
    Disconnected,
}

/// What the collection of the rest does next.
#[derive(Debug)]
pub enum TailStep {
    Continue,
    /// There is nothing more to wait for: what has come is the rest.
    Done,
}

/// The chunks once the outcome of a wait is taken.
pub open spec fn chunks_with(chunks: Seq<String>, outcome: TailOutcome) -> Seq<String> {
    match outcome {
        TailOutcome::Event(LiveEvent::Final(text)) => chunks.push(text),
        _ => chunks,
    }
}

/// Whether there is nothing more to wait for after an outcome.
pub open spec fn ends_the_tail(outcome: TailOutcome) -> bool {
    match outcome {
        TailOutcome::Event(LiveEvent::Final(_)) => false,
        TailOutcome::Event(LiveEvent::Interim(_)) => false,
        TailOutcome::Event(LiveEvent::Closed(_)) => true,
        TailOutcome::TimedOut => true,
        TailOutcome::Disconnected => true,
    }
}

/// The chunks that a collection returns for a run of outcomes, up to the one that ends it.
pub open spec fn collected(chunks: Seq<String>, outcomes: Seq<TailOutcome>) -> Seq<String>
    decreases outcomes.len(),
{
    if outcomes.len() == 0 {
        chunks
    } else {
        let with = chunks_with(chunks, outcomes[0]);
        if ends_the_tail(outcomes[0]) {
            with
        } else {
            collected(with, outcomes.drop_first())
        }
    }
}

/// The rest of a transcript, as it comes in once the audio has ended.
#[derive(Debug)]
pub struct Tail {
    /// How long to wait for the first chunk.
    pub first_wait: u64,
    pub chunks: Vec<String>,
}

impl Tail {
    /// The rest of a recording with `samples` samples.
    pub fn new(samples: u64) -> (r: Self)
        ensures
            r.first_wait == first_wait(samples as int),
            r.chunks@.len() == 0,
    {
        Tail { first_wait: tail_first_wait(samples), chunks: Vec::new() }
    }

    /// How long to wait next when `remaining` is left in all; `None` when nothing is left.
    pub fn next_wait(&self, remaining: u64) -> (r: Option<u64>)
        ensures
            match r {
                Some(wait) => {
                    let patience = if self.chunks@.len() == 0 {
                        self.first_wait
                    } else {
                        IDLE_AFTER_FINAL
                    };
                    remaining > 0 && wait == if remaining < patience {
                        remaining
                    } else {
                        patience
                    }
                },
                None => remaining == 0,
            },
            r is None <==> remaining == 0,
            r matches Some(wait) ==> {
                &&& 0 < self.first_wait ==> 0 < wait
                &&& wait <= remaining
                &&& self.chunks@.len() == 0 ==> wait <= self.first_wait && (wait == remaining || wait
                    == self.first_wait)
                &&& self.chunks@.len() > 0 ==> wait <= 600_000_000 && (wait == remaining || wait
                    == 600_000_000)
            },
    {
        if remaining == 0 {
            return None;
        }
        let patience: u64 = if self.chunks.len() == 0 {
            self.first_wait
        } else {
            IDLE_AFTER_FINAL
        };
        if remaining < patience {
            Some(remaining)
        } else {
            Some(patience)
        }
    }

    /// Takes what came of the wait. Nothing further is no error, and neither is a session that
    /// broke: what is there is what is returned, and a caller who gets nothing has the audio.
    pub fn take(&mut self, outcome: TailOutcome) -> (r: TailStep)
        ensures
            final(self).first_wait == old(self).first_wait,
            final(self).chunks@ == chunks_with(old(self).chunks@, outcome),
            r == if ends_the_tail(outcome) {
                TailStep::Done
            } else {
                TailStep::Continue
            },
    {
        match outcome {
            TailOutcome::Event(LiveEvent::Final(text)) => {
                self.chunks.push(text);
                TailStep::Continue
            },
            TailOutcome::Event(LiveEvent::Interim(_)) => TailStep::Continue,
            TailOutcome::Event(LiveEvent::Closed(_)) => TailStep::Done,
            TailOutcome::TimedOut => TailStep::Done,
            TailOutcome::Disconnected => TailStep::Done,
        }
    }
}

/// The messages that a turn writes for what it is handed, one thing after the other.
pub open spec fn written(ended: bool, outbounds: Seq<Outbound>) -> Seq<JsonTree>
    decreases outbounds.len(),
{
    if outbounds.len() == 0 {
        Seq::empty()
    } else {
        let head = outbounds[0];
        let rest = written(ended || head is End, outbounds.drop_first());
        match outbound_step(ended, Some(head)) {
            SessionStepView::Write(message) => seq![message] + rest,
            _ => rest,
        }
    }
}

/// Nothing is written once the end of the audio has been announced.
pub proof fn law_nothing_follows_the_end(outbounds: Seq<Outbound>)
    ensures
        written(true, outbounds) == Seq::<JsonTree>::empty(),
    decreases outbounds.len(),
{
    if outbounds.len() > 0 {
        law_nothing_follows_the_end(outbounds.drop_first());
    }
}

/// All audio that is handed over before the end is written, in order, before the one message that
/// closes the turn; audio that races the end is dropped, and so is a second end.
pub proof fn law_end_never_overtakes_audio(chunks: Seq<Vec<u8>>, late: Seq<Outbound>)
    ensures
        written(
            false,
            chunks.map_values(|c: Vec<u8>| Outbound::Audio(c)) + seq![Outbound::End] + late,
        ) == chunks.map_values(|c: Vec<u8>| audio_tree(c@)) + seq![end_tree()],
    decreases chunks.len(),
{
    let audio = chunks.map_values(|c: Vec<u8>| Outbound::Audio(c));
    let all = audio + seq![Outbound::End] + late;
    let frames = chunks.map_values(|c: Vec<u8>| audio_tree(c@));
    if chunks.len() == 0 {
        assert(all[0] == Outbound::End);
        assert(all.drop_first() =~= late);
        law_nothing_follows_the_end(late);
        assert(written(false, all) =~= frames + seq![end_tree()]);
    } else {
        let rest = chunks.drop_first();
        law_end_never_overtakes_audio(rest, late);
        assert(all[0] == Outbound::Audio(chunks[0]));
        assert(all.drop_first() =~= rest.map_values(|c: Vec<u8>| Outbound::Audio(c))
            + seq![Outbound::End] + late);
        assert(written(false, all) =~= frames + seq![end_tree()]);
    }
}

/// While audio is still coming, a message that only completes a generation ends nothing; once the
/// audio has ended, it does. A completed turn ends the session whenever it comes.
pub proof fn law_what_ends_a_turn(message: JsonTree, content: JsonTree)
    requires
        message.member("serverContent"@) == Some(content),
    ensures
        content.flag("turnComplete"@) ==> message_done(message, false) && message_done(
            message,
            true,
        ),
        !content.flag("turnComplete"@) ==> !message_done(message, false),
        content.flag("generationComplete"@) ==> message_done(message, true),
{
}

/// A message without server content reports nothing and ends nothing.
pub proof fn law_unrelated_messages_are_ignored(message: JsonTree, ended: bool)
    requires
        message.member("serverContent"@) is None,
    ensures
        message_events(message).len() == 0,
        !message_done(message, ended),
{
}

/// The first wait only ever shortens the ceiling, grows with the audio, and reaches the ceiling
/// for recordings of a hundred and thirty seconds and more.
pub proof fn law_first_wait_only_shortens(shorter: int, longer: int)
    requires
        0 <= shorter <= longer,
    ensures
        TAIL_BASE_WAIT <= first_wait(shorter) <= first_wait(longer) <= TAIL_FIRST_WAIT,
        130 * 16000 <= longer ==> first_wait(longer) == TAIL_FIRST_WAIT,
{
}

/// A blank chunk changes nothing in the transcript.
pub proof fn law_blank_chunks_are_skipped(
    before: Seq<Seq<char>>,
    blank: Seq<char>,
    after: Seq<Seq<char>>,
)
    requires
        crate::text::trimmed(blank).len() == 0,
    ensures
        spoken(before + seq![blank] + after) == spoken(before + after),
    decreases after.len(),
{
    let with = before + seq![blank] + after;
    let without = before + after;
    if after.len() == 0 {
        assert(with.drop_last() =~= before);
        assert(without =~= before);
    } else {
        law_blank_chunks_are_skipped(before, blank, after.drop_last());
        assert(with.drop_last() =~= before + seq![blank] + after.drop_last());
        assert(without.drop_last() =~= before + after.drop_last());
        assert(with.last() == after.last());
        assert(without.last() == after.last());
    }
}

/// Whether an event closes the session.
pub open spec fn closes(event: LiveEventView) -> bool {
    event is Closed
}

/// What comes off the socket closes a session at most once, and last: as long as the session goes
/// on nothing closes it, and when it ends the last event and no other does.
pub proof fn law_a_session_is_closed_once_and_last(
    ended: bool,
    inbound: Option<Result<WireMessage, String>>,
)
    ensures
        match inbound_step(ended, inbound) {
            SessionStepView::Emit(events) => forall|i: int|
                0 <= i < events.len() ==> !closes(#[trigger] events[i]),
            SessionStepView::Finish(events) => {
                &&& events.len() > 0
                &&& closes(events.last())
                &&& forall|i: int| 0 <= i < events.len() - 1 ==> !closes(#[trigger] events[i])
            },
            _ => false,
        },
{
}

/// What a session that is being opened does, one event after the other.
pub open spec fn opening_steps(opening: Opening, events: Seq<OpeningEvent>) -> Seq<SessionStepView>
    decreases events.len(),
{
    if events.len() == 0 {
        Seq::empty()
    } else {
        seq![opening_step(opening, events[0])] + opening_steps(
            opening_after(opening, events[0]),
            events.drop_first(),
        )
    }
}

/// The messages among the steps of a session.
pub open spec fn messages(steps: Seq<SessionStepView>) -> Seq<JsonTree>
    decreases steps.len(),
{
    if steps.len() == 0 {
        Seq::empty()
    } else {
        let rest = messages(steps.drop_first());
        match steps[0] {
            SessionStepView::Write(message) => seq![message] + rest,
            _ => rest,
        }
    }
}

/// Whether a step reports how the opening went.
pub open spec fn reports(step: SessionStepView) -> bool {
    step is Ready || step is Fail
}

/// Whether an event is the reply that accepts the setup.
pub open spec fn accepts(event: OpeningEvent) -> bool {
    &&& event matches OpeningEvent::Received(Some(Ok(msg)))
    &&& crate::json::parsed_json(wire_text(msg)) matches Ok(tree)
    &&& tree.member("setupComplete"@) is Some
}

/// The messages that are still to be written before a session takes audio.
pub open spec fn to_write(opening: Opening) -> Seq<JsonTree> {
    match opening {
        Opening::Connecting { setup } => seq![setup.tree(), start_tree()],
        Opening::SendingSetup => seq![start_tree()],
        Opening::AwaitingReply => seq![start_tree()],
        _ => Seq::empty(),
    }
}

/// The messages of an opening, whatever happens, are the first few of those that are still to be
/// written, and all of them where the session gets to take audio. The opening is reported at most
/// once, and nothing follows the report.
proof fn lemma_opening(opening: Opening, events: Seq<OpeningEvent>)
    ensures
        ({
            let steps = opening_steps(opening, events);
            let written = messages(steps);
            &&& steps.len() == events.len()
            &&& written.len() <= to_write(opening).len()
            &&& written == to_write(opening).take(written.len() as int)
            &&& forall|i: int|
                0 <= i < steps.len() && (#[trigger] steps[i]) is Ready ==> written == to_write(
                    opening,
                ) && messages(steps.take(i)) == to_write(opening)
            &&& forall|i: int, j: int|
                0 <= i < j < steps.len() && reports(#[trigger] steps[i]) ==> (#[trigger] steps[j])
                    == SessionStepView::Wait
            &&& opening is Open || opening is Failed ==> forall|i: int|
                0 <= i < steps.len() ==> (#[trigger] steps[i]) == SessionStepView::Wait
        }),
    decreases events.len(),
{
    let steps = opening_steps(opening, events);
    if events.len() == 0 {
        assert(messages(steps) =~= to_write(opening).take(0));
    } else {
        let event = events[0];
        let next = opening_after(opening, event);
        let first = opening_step(opening, event);
        let rest = opening_steps(next, events.drop_first());
        lemma_opening(next, events.drop_first());
        assert(steps.drop_first() =~= rest);
        assert(steps[0] == first);
        let written = messages(steps);
        match first {
            SessionStepView::Write(message) => {
                assert(to_write(opening) =~= seq![message] + to_write(next));
                assert(written =~= to_write(opening).take(written.len() as int));
            },
            SessionStepView::Fail(_) => {
                assert(next is Failed);
                assert(messages(rest) =~= Seq::empty());
                assert(written =~= to_write(opening).take(0));
            },
            _ => {
                assert(to_write(opening) =~= to_write(next));
            },
        }
        assert forall|i: int| 0 <= i < steps.len() && (#[trigger] steps[i]) is Ready implies written
            == to_write(opening) && messages(steps.take(i)) == to_write(opening) by {
            if i == 0 {
                assert(steps.take(0) =~= Seq::empty());
                assert(next is Open);
                assert(messages(rest) =~= Seq::empty());
                assert(to_write(opening) =~= Seq::empty());
            } else {
                assert(rest[i - 1] == steps[i]);
                assert(steps.take(i).drop_first() =~= rest.take(i - 1));
                assert(steps.take(i)[0] == first);
                if first is Fail {
                    assert(rest[i - 1] == SessionStepView::Wait);
                }
            }
        }
        assert forall|i: int, j: int|
            0 <= i < j < steps.len() && reports(#[trigger] steps[i]) implies (#[trigger] steps[j])
            == SessionStepView::Wait by {
            assert(rest[j - 1] == steps[j]);
            if i > 0 {
                assert(rest[i - 1] == steps[i]);
            }
        }
        assert forall|i: int|
            (opening is Open || opening is Failed) && 0 <= i < steps.len() implies (
        #[trigger] steps[i]) == SessionStepView::Wait by {
            if i > 0 {
                assert(rest[i - 1] == steps[i]);
            }
        }
    }
}

/// Once the setup is out, the message that opens the turn is only written after the reply that
/// accepts it.
proof fn lemma_start_needs_acceptance(opening: Opening, events: Seq<OpeningEvent>)
    requires
        to_write(opening).len() > 0,
        messages(opening_steps(opening, events)).len() == to_write(opening).len(),
    ensures
        exists|i: int| 0 <= i < events.len() && accepts(#[trigger] events[i]),
    decreases events.len(),
{
    let steps = opening_steps(opening, events);
    if events.len() > 0 {
        let event = events[0];
        let next = opening_after(opening, event);
        let rest = opening_steps(next, events.drop_first());
        assert(steps.drop_first() =~= rest);
        assert(steps[0] == opening_step(opening, event));
        lemma_opening(next, events.drop_first());
        if opening is AwaitingReply && event is Received {
            assert(accepts(events[0]));
        } else {
            lemma_start_needs_acceptance(next, events.drop_first());
            let i = choose|i: int|
                0 <= i < events.drop_first().len() && accepts(
                    #[trigger] events.drop_first()[i],
                );
            assert(events[i + 1] == events.drop_first()[i]);
        }
    }
}

/// Whatever happens while a session is being opened, it writes the setup first and the message that
/// opens the turn next, and nothing else; the latter only after a reply that accepts the setup. It
/// reports how the opening went at most once, with nothing after it, and reports that it takes audio
/// only when both messages are written.
pub proof fn law_a_session_opens_in_order(setup: Json, events: Seq<OpeningEvent>)
    ensures
        ({
            let steps = opening_steps(Opening::Connecting { setup }, events);
            let written = messages(steps);
            let both = seq![setup.tree(), start_tree()];
            &&& written.len() <= 2
            &&& written == both.take(written.len() as int)
            &&& written.len() == 2 ==> exists|i: int|
                0 <= i < events.len() && accepts(#[trigger] events[i])
            &&& forall|i: int|
                0 <= i < steps.len() && (#[trigger] steps[i]) is Ready ==> messages(steps.take(i))
                    == both
            &&& forall|i: int, j: int|
                0 <= i < j < steps.len() && reports(#[trigger] steps[i]) ==> (#[trigger] steps[j])
                    == SessionStepView::Wait
        }),
{
    let opening = Opening::Connecting { setup };
    lemma_opening(opening, events);
    if messages(opening_steps(opening, events)).len() == 2 {
        lemma_start_needs_acceptance(opening, events);
    }
}

/// What a session writes from first to last, once it takes audio: the setup, the message that opens
/// the turn, all audio that is handed over before the end, in order, and the one message that closes
/// the turn.
pub proof fn law_what_a_session_writes(
    setup: Json,
    events: Seq<OpeningEvent>,
    ready: int,
    chunks: Seq<Vec<u8>>,
    late: Seq<Outbound>,
)
    requires
        0 <= ready < opening_steps(Opening::Connecting { setup }, events).len(),
        opening_steps(Opening::Connecting { setup }, events)[ready] is Ready,
    ensures
        messages(opening_steps(Opening::Connecting { setup }, events)) + written(
            false,
            chunks.map_values(|c: Vec<u8>| Outbound::Audio(c)) + seq![Outbound::End] + late,
        ) == seq![setup.tree(), start_tree()] + chunks.map_values(|c: Vec<u8>| audio_tree(c@))
            + seq![end_tree()],
{
    lemma_opening(Opening::Connecting { setup }, events);
    law_end_never_overtakes_audio(chunks, late);
    let both = seq![setup.tree(), start_tree()];
    let frames = chunks.map_values(|c: Vec<u8>| audio_tree(c@));
    assert(both + (frames + seq![end_tree()]) =~= both + frames + seq![end_tree()]);
}

/// However a session ends, also when it breaks, every chunk that came before is returned, in order.
pub proof fn law_a_broken_session_keeps_its_chunks(
    before: Seq<String>,
    finals: Seq<String>,
    end: TailOutcome,
)
    requires
        ends_the_tail(end),
    ensures
        collected(
            before,
            finals.map_values(|t: String| TailOutcome::Event(LiveEvent::Final(t))).push(end),
        ) == before + finals,
    decreases finals.len(),
{
    let outcomes = finals.map_values(
        |t: String| TailOutcome::Event(LiveEvent::Final(t)),
    ).push(end);
    if finals.len() == 0 {
        assert(before + finals =~= before);
    } else {
        let rest = finals.drop_first();
        law_a_broken_session_keeps_its_chunks(before.push(finals[0]), rest, end);
        assert(outcomes.drop_first() =~= rest.map_values(
            |t: String| TailOutcome::Event(LiveEvent::Final(t)),
        ).push(end));
        assert(outcomes[0] == TailOutcome::Event(LiveEvent::Final(finals[0])));
        assert(before.push(finals[0]) + rest =~= before + finals);
    }
}

} // verus!
