//! Batch transcription with Gemini: one request for a whole utterance.
use vstd::prelude::*;
use crate::json::{no_fields, parse_json, push_field, Json, JsonTree};
use crate::pcm::{base64_text, encode_wav, WavError};
use crate::text::{concat, copy_texts, decimal_text, join, same_text, shorten, trim};

verus! {

/// The provider's key among the cloud keys.
pub const PROVIDER_ID: &'static str = "gemini";

/// The catalogue id of the batch model.
pub const MODEL_ID: &'static str = "gemini-3.5-transcribe";

/// The name of the batch model at the service.
pub const API_MODEL: &'static str = "gemini-3.5-transcribe";

/// The environment variable that is asked for a key when none is stored.
pub const API_KEY_ENV: &'static str = "HANDY_GEMINI_API_KEY";

/// Where requests go.
pub const INTERACTIONS_URL: &'static str = "https://generativelanguage.googleapis.com/v1beta/interactions";

/// The version of the service's surface that requests ask for.
pub const API_REVISION: &'static str = "2026-05-20";

/// Samples per second.
pub const SAMPLE_RATE: u32 = 16_000;

/// How long the base64 form of a recording may be.
pub const MAX_INLINE_BYTES: usize = 18_874_368;

/// How many biasing terms the service takes.
pub const MAX_CUSTOM_VOCABULARY: usize = 1000;

/// How much of an unreadable reply is shown.
pub const SHOWN_BODY: usize = 400;

/// What the service does with the words it hears.
#[derive(Clone, Copy, Debug, PartialEq, Eq, Structural)]
pub enum GeminiTranscribeMode {
    /// Tidies the text: fillers and false starts go.
    Smart,
    /// Keeps every word.
    Verbatim,
}

/// The settings of the Gemini models.
#[derive(Clone, Debug)]
pub struct GeminiTranscribeSettings {
    pub mode: GeminiTranscribeMode,
    /// The languages to expect; empty leaves the choice to the global language.
    pub language_codes: Vec<String>,
    pub custom_vocabulary: Vec<String>,
    /// Whether the global custom words join the vocabulary.
    pub include_custom_words: bool,
    pub diarization: bool,
    pub timestamps: bool,
}

impl Default for GeminiTranscribeSettings {
    fn default() -> (r: Self)
        ensures
            r.mode == GeminiTranscribeMode::Smart,
            r.language_codes@.len() == 0,
            r.custom_vocabulary@.len() == 0,
            r.include_custom_words,
            !r.diarization,
            !r.timestamps,
    {
        GeminiTranscribeSettings {
            mode: GeminiTranscribeMode::Smart,
            language_codes: Vec::new(),
            custom_vocabulary: Vec::new(),
            include_custom_words: true,
            diarization: false,
            timestamps: false,
        }
    }
}

/// Why a transcription could not be asked for.
#[derive(Debug)]
pub enum GeminiError {
    /// No key is stored and none is in the environment.
    NoApiKey,
    /// The audio could not be written as a WAV file.
    Encoding(WavError),
    /// The recording does not fit into one request.
    TooLong { samples: usize },
}

/// The length of a recording in whole seconds: the nearest, and the even one of two.
pub open spec fn rounded_seconds(samples: int) -> int {
    let whole = samples / SAMPLE_RATE as int;
    let twice_rest = 2 * (samples % SAMPLE_RATE as int);
    if twice_rest > SAMPLE_RATE || (twice_rest == SAMPLE_RATE && whole % 2 == 1) {
        whole + 1
    } else {
        whole
    }
}

/// What is reported when a transcription could not be asked for.
pub open spec fn error_text(error: GeminiError) -> Seq<char> {
    match error {
        GeminiError::NoApiKey =>
            "No Gemini API key configured. Add one in Settings → Models → Gemini 3.5 Transcribe."@,
        GeminiError::Encoding(why) => crate::pcm::wav_error_text(why),
        GeminiError::TooLong { samples } => "Recording is too long for cloud transcription ("@
            + crate::text::decimal(rounded_seconds(samples as int))
            + "s). Gemini accepts about 7 minutes per inline request; use a local model for clips this long."@,
    }
}

impl GeminiError {
    /// What is reported when a transcription could not be asked for.
    pub fn message(&self) -> (r: String)
        ensures
            r@ == error_text(*self),
    {
        match self {
            GeminiError::NoApiKey =>
                "No Gemini API key configured. Add one in Settings → Models → Gemini 3.5 Transcribe.".to_owned(),
            GeminiError::Encoding(why) => why.message(),
            GeminiError::TooLong { samples } => {
                let rate: usize = SAMPLE_RATE as usize;
                let whole: usize = *samples / rate;
                let twice_rest: usize = 2 * (*samples % rate);
                let up = twice_rest > rate || (twice_rest == rate && whole % 2 == 1);
                let seconds: i64 = if up {
                    whole as i64 + 1
                } else {
                    whole as i64
                };
                let head = concat(
                    "Recording is too long for cloud transcription (",
                    decimal_text(seconds).as_str(),
                );
                concat(
                    head.as_str(),
                    "s). Gemini accepts about 7 minutes per inline request; use a local model for clips this long.",
                )
            },
        }
    }
}

/// The key to use.
pub open spec fn api_key(stored: Seq<char>, from_env: Option<Seq<char>>) -> Seq<char> {
    let own = crate::text::trimmed(stored);
    if own.len() > 0 {
        own
    } else {
        match from_env {
            Some(value) => crate::text::trimmed(value),
            None => Seq::empty(),
        }
    }
}

/// The view of an optional text.
pub open spec fn optional_str(s: Option<&str>) -> Option<Seq<char>> {
    match s {
        Some(s) => Some(s@),
        None => None,
    }
}

/// The key to use: the stored one, else the one from the environment, without the white space
/// around it.
pub fn resolve_api_key(stored: &str, from_env: Option<&str>) -> (r: String)
    ensures
        r@ == api_key(stored@, optional_str(from_env)),
{
    let own = trim(stored);
    if own.unicode_len() > 0 {
        return own;
    }
    match from_env {
        Some(value) => trim(value),
        None => String::new(),
    }
}

/// The languages to ask for.
pub open spec fn language_codes(config: GeminiTranscribeSettings, language: Seq<char>) -> Seq<
    Seq<char>,
> {
    if config.language_codes@.len() > 0 {
        crate::text::texts(config.language_codes@)
    } else if language.len() == 0 || language == "auto"@ {
        Seq::empty()
    } else {
        seq![language]
    }
}

/// The languages to ask for: the model's own, else the global one. An empty list asks the service
/// to detect the language.
pub fn resolve_language_codes(config: &GeminiTranscribeSettings, language: &str) -> (r: Vec<String>)
    ensures
        crate::text::texts(r@) == language_codes(*config, language@),
        config.language_codes@.len() > 0 ==> r@ == config.language_codes@,
        config.language_codes@.len() == 0 && (language@.len() == 0 || language@ == "auto"@)
            ==> r@.len() == 0,
        config.language_codes@.len() == 0 && language@.len() > 0 && language@ != "auto"@ ==> r@.len()
            == 1 && r@[0]@ == language@,
{
    let mut codes: Vec<String> = Vec::new();
    if config.language_codes.len() > 0 {
        codes = copy_texts(config.language_codes.as_slice());
    } else if language.unicode_len() == 0 || same_text(language, "auto") {
    } else {
        codes.push(language.to_owned());
    }
    proof {
        assert(crate::text::texts(codes@) =~= language_codes(*config, language@));
    }
    codes
}

/// What `str::to_lowercase` makes of a text.
pub uninterp spec fn lowercased(s: Seq<char>) -> Seq<char>;

/// Calls `str::to_lowercase`. The contract claims that the result depends on the text alone, and
/// names it.
#[verifier::external_body]
fn lowercase(s: &str) -> (r: String)
    ensures
        r@ == lowercased(s@),
{
    s.to_lowercase()
}

/// Whether a term is in the list, in whatever case.
pub open spec fn listed(terms: Seq<Seq<char>>, term: Seq<char>) -> bool {
    exists|i: int| 0 <= i < terms.len() && lowercased(#[trigger] terms[i]) == lowercased(term)
}

/// The list with one more candidate: without the white space around it, unless it is blank or
/// already listed or the list is full.
pub open spec fn with_term(terms: Seq<Seq<char>>, candidate: Seq<char>) -> Seq<Seq<char>> {
    let term = crate::text::trimmed(candidate);
    if term.len() == 0 || terms.len() >= MAX_CUSTOM_VOCABULARY || listed(terms, term) {
        terms
    } else {
        terms.push(term)
    }
}

/// The list made of these candidates, taken in order.
pub open spec fn vocabulary(candidates: Seq<Seq<char>>) -> Seq<Seq<char>>
    decreases candidates.len(),
{
    if candidates.len() == 0 {
        Seq::empty()
    } else {
        with_term(vocabulary(candidates.drop_last()), candidates.last())
    }
}

/// The candidates: the model's own terms, then the global custom words where they are wanted.
pub open spec fn candidates(config: GeminiTranscribeSettings, custom_words: Seq<String>) -> Seq<
    Seq<char>,
> {
    crate::text::texts(config.custom_vocabulary@) + if config.include_custom_words {
        crate::text::texts(custom_words)
    } else {
        Seq::empty()
    }
}

/// Takes one more term into the list, unless it is empty or the list is full or the term's key is
/// among the keys already.
pub fn add_term(terms: &mut Vec<String>, keys: &mut Vec<String>, term: String, key: String)
    ensures
        if term@.len() == 0 || old(terms)@.len() >= MAX_CUSTOM_VOCABULARY || crate::text::texts(
            old(keys)@,
        ).contains(key@) {
            final(terms)@ == old(terms)@ && final(keys)@ == old(keys)@
        } else {
            final(terms)@ == old(terms)@.push(term) && final(keys)@ == old(keys)@.push(key)
        },
{
    if term.unicode_len() == 0 || terms.len() >= MAX_CUSTOM_VOCABULARY {
        return;
    }
    let ghost listed = crate::text::texts(keys@);
    let mut i: usize = 0;
    while i < keys.len()
        invariant
            i <= keys.len(),
            keys@ == old(keys)@,
            terms@ == old(terms)@,
            listed == crate::text::texts(keys@),
            forall|k: int| 0 <= k < i ==> #[trigger] listed[k] != key@,
        decreases keys.len() - i,
    {
        if same_text(keys[i].as_str(), key.as_str()) {
            proof {
                assert(listed[i as int] == key@);
            }
            return;
        }
        i += 1;
    }
    terms.push(term);
    keys.push(key);
}

/// Takes one more candidate into the list. `keys` holds the lower-case form of each term.
fn add_candidate(terms: &mut Vec<String>, keys: &mut Vec<String>, candidate: &str)
    requires
        old(keys)@.len() == old(terms)@.len(),
        forall|i: int|
            0 <= i < old(terms)@.len() ==> (#[trigger] old(keys)@[i])@ == lowercased(
                old(terms)@[i]@,
            ),
    ensures
        final(keys)@.len() == final(terms)@.len(),
        forall|i: int|
            0 <= i < final(terms)@.len() ==> (#[trigger] final(keys)@[i])@ == lowercased(
                final(terms)@[i]@,
            ),
        crate::text::texts(final(terms)@) == with_term(
            crate::text::texts(old(terms)@),
            candidate@,
        ),
{
    let term = trim(candidate);
    let key = lowercase(term.as_str());
    let ghost before = crate::text::texts(terms@);
    let ghost known = crate::text::texts(keys@);
    proof {
        if known.contains(key@) {
            let i = choose|i: int| 0 <= i < known.len() && known[i] == key@;
            assert(keys@[i]@ == lowercased(terms@[i]@));
            assert(lowercased(before[i]) == lowercased(term@));
            assert(listed(before, term@));
        }
        if listed(before, term@) {
            let i = choose|i: int|
                0 <= i < before.len() && lowercased(#[trigger] before[i]) == lowercased(term@);
            assert(keys@[i]@ == lowercased(terms@[i]@));
            assert(known[i] == key@);
        }
    }
    add_term(terms, keys, term, key);
    proof {
        if terms@.len() > before.len() {
            assert(crate::text::texts(terms@) =~= before.push(term@));
        }
    }
}

/// The biasing terms to send: the model's own and, where wanted, the global custom words, each
/// once in whatever case, no more than the service takes.
pub fn resolve_custom_vocabulary(
    config: &GeminiTranscribeSettings,
    custom_words: &[String],
) -> (r: Vec<String>)
    ensures
        crate::text::texts(r@) == vocabulary(candidates(*config, custom_words@)),
        right_terms(*config, custom_words@, crate::text::texts(r@)),
{
    let mut terms: Vec<String> = Vec::new();
    let mut keys: Vec<String> = Vec::new();
    let ghost all = candidates(*config, custom_words@);
    let own: usize = config.custom_vocabulary.len();
    let mut i: usize = 0;
    proof {
        assert(all.take(0) =~= Seq::empty());
        assert(crate::text::texts(terms@) =~= vocabulary(all.take(0)));
    }
    while i < own
        invariant
            i <= own,
            own == config.custom_vocabulary@.len(),
            all == candidates(*config, custom_words@),
            keys@.len() == terms@.len(),
            forall|k: int|
                0 <= k < terms@.len() ==> (#[trigger] keys@[k])@ == lowercased(terms@[k]@),
            crate::text::texts(terms@) == vocabulary(all.take(i as int)),
        decreases own - i,
    {
        add_candidate(&mut terms, &mut keys, config.custom_vocabulary[i].as_str());
        proof {
            assert(all.take(i + 1).drop_last() =~= all.take(i as int));
            assert(all.take(i + 1).last() == config.custom_vocabulary@[i as int]@);
        }
        i += 1;
    }
    if config.include_custom_words {
        let mut j: usize = 0;
        while j < custom_words.len()
            invariant
                j <= custom_words@.len(),
                own == config.custom_vocabulary@.len(),
                config.include_custom_words,
                all == candidates(*config, custom_words@),
                keys@.len() == terms@.len(),
                forall|k: int|
                    0 <= k < terms@.len() ==> (#[trigger] keys@[k])@ == lowercased(terms@[k]@),
                crate::text::texts(terms@) == vocabulary(all.take(own + j)),
            decreases custom_words.len() - j,
        {
            add_candidate(&mut terms, &mut keys, custom_words[j].as_str());
            proof {
                assert(all.take(own + j + 1).drop_last() =~= all.take(own + j));
                assert(all.take(own + j + 1).last() == custom_words@[j as int]@);
            }
            j += 1;
        }
    }
    proof {
        assert(all.take(all.len() as int) =~= all);
        law_every_wanted_word_is_sent(*config, custom_words@);
    }
    terms
}

/// Whether a word is sent in some case: the list holds a term that is the word without the white
/// space around it, up to lower case.
pub open spec fn says(terms: Seq<Seq<char>>, word: String) -> bool {
    exists|i: int|
        0 <= i < terms.len() && lowercased(#[trigger] terms[i]) == lowercased(
            crate::text::trimmed(word@),
        )
}

/// Whether a term is one of these words without the white space around it.
pub open spec fn word_among(words: Seq<String>, term: Seq<char>) -> bool {
    exists|k: int| 0 <= k < words.len() && crate::text::trimmed((#[trigger] words[k])@) == term
}

/// Whether these are the right terms to send. Every word of the model's own vocabulary that is not
/// blank is among them, and every global custom word where those are wanted, unless a thousand
/// others are. Nothing else is, nothing is blank, and nothing is there twice in whatever case.
pub open spec fn right_terms(
    config: GeminiTranscribeSettings,
    custom_words: Seq<String>,
    terms: Seq<Seq<char>>,
) -> bool {
    &&& terms.len() <= 1000
    &&& forall|k: int|
        0 <= k < config.custom_vocabulary@.len() && crate::text::trimmed(
            (#[trigger] config.custom_vocabulary@[k])@,
        ).len() > 0 ==> terms.len() == 1000 || says(terms, config.custom_vocabulary@[k])
    &&& config.include_custom_words ==> forall|k: int|
        0 <= k < custom_words.len() && crate::text::trimmed((#[trigger] custom_words[k])@).len() > 0
            ==> terms.len() == 1000 || says(terms, custom_words[k])
    &&& forall|i: int|
        0 <= i < terms.len() ==> {
            &&& (#[trigger] terms[i]).len() > 0
            &&& word_among(config.custom_vocabulary@, terms[i]) || (config.include_custom_words
                && word_among(custom_words, terms[i]))
        }
    &&& forall|i: int, j: int|
        0 <= i < j < terms.len() ==> lowercased(#[trigger] terms[i]) != lowercased(
            #[trigger] terms[j],
        )
}

/// The `mode` part of a request.
pub open spec fn mode_tree(config: GeminiTranscribeSettings) -> JsonTree {
    match config.mode {
        GeminiTranscribeMode::Smart => JsonTree::Object(
            seq![("type"@, JsonTree::Text("smart"@))],
        ),
        GeminiTranscribeMode::Verbatim => JsonTree::Object(
            seq![("type"@, JsonTree::Text("verbatim"@))] + if config.diarization {
                seq![("diarization_mode"@, JsonTree::Text("speaker"@))]
            } else {
                Seq::empty()
            } + if config.timestamps {
                seq![("timestamp_granularities"@, crate::json::text_list(seq!["word"@]))]
            } else {
                Seq::empty()
            },
        ),
    }
}

/// The `mode` part of a request. Tidying excludes speakers and timestamps: those are dropped.
pub fn build_mode(config: &GeminiTranscribeSettings) -> (r: Json)
    ensures
        r.tree() == mode_tree(*config),
{
    let mut fields = no_fields();
    match config.mode {
        GeminiTranscribeMode::Smart => {
            push_field(&mut fields, "type", Json::text("smart"));
        },
        GeminiTranscribeMode::Verbatim => {
            push_field(&mut fields, "type", Json::text("verbatim"));
            if config.diarization {
                push_field(&mut fields, "diarization_mode", Json::text("speaker"));
            }
            if config.timestamps {
                let words = Json::single(Json::text("word"));
                proof {
                    assert(words.tree()->Array_0 =~= crate::json::text_list(
                        seq!["word"@],
                    )->Array_0);
                }
                push_field(&mut fields, "timestamp_granularities", words);
            }
        },
    }
    proof {
        assert(crate::json::field_trees(fields@) =~= mode_tree(*config)->Object_0);
    }
    Json::object(fields)
}

/// The `transcription_config` part of a request.
pub open spec fn transcription_config_tree(
    config: GeminiTranscribeSettings,
    language: Seq<char>,
    custom_words: Seq<String>,
) -> JsonTree {
    let terms = vocabulary(candidates(config, custom_words));
    JsonTree::Object(
        seq![("language_codes"@, crate::json::text_list(language_codes(config, language)))]
            + if terms.len() > 0 {
            seq![("custom_vocabulary"@, crate::json::text_list(terms))]
        } else {
            Seq::empty()
        } + seq![("mode"@, mode_tree(config))],
    )
}

/// A request to transcribe `audio`, the base64 form of a WAV file.
pub open spec fn request_tree(
    model: Seq<char>,
    audio: Seq<char>,
    config: GeminiTranscribeSettings,
    language: Seq<char>,
    custom_words: Seq<String>,
) -> JsonTree {
    JsonTree::Object(
        seq![
            ("model"@, JsonTree::Text(model)),
            (
                "input"@,
                JsonTree::Array(
                    seq![
                        JsonTree::Object(
                            seq![
                                ("type"@, JsonTree::Text("audio"@)),
                                ("data"@, JsonTree::Text(audio)),
                                ("mime_type"@, JsonTree::Text("audio/wav"@)),
                            ],
                        ),
                    ],
                ),
            ),
            (
                "generation_config"@,
                JsonTree::Object(
                    seq![
                        (
                            "transcription_config"@,
                            transcription_config_tree(config, language, custom_words),
                        ),
                    ],
                ),
            ),
        ],
    )
}

/// The `transcription_config` part of a request.
fn build_transcription_config(
    config: &GeminiTranscribeSettings,
    language: &str,
    custom_words: &[String],
) -> (r: Json)
    ensures
        r.tree() == transcription_config_tree(*config, language@, custom_words@),
{
    let mut fields = no_fields();
    let codes = resolve_language_codes(config, language);
    push_field(&mut fields, "language_codes", Json::texts(&codes));
    let terms = resolve_custom_vocabulary(config, custom_words);
    if terms.len() > 0 {
        push_field(&mut fields, "custom_vocabulary", Json::texts(&terms));
    }
    push_field(&mut fields, "mode", build_mode(config));
    proof {
        let tree = transcription_config_tree(*config, language@, custom_words@);
        assert(crate::text::texts(terms@).len() == terms@.len());
        assert(crate::json::field_trees(fields@) =~= tree->Object_0);
    }
    Json::object(fields)
}

/// The batch engine: it holds no model, only the key and the model's name.
#[derive(Clone, Debug)]
pub struct GeminiTranscriber {
    pub api_key: String,
    pub model: String,
}

/// Whether a recording of `n` samples fits into one request.
pub open spec fn fits_inline(n: int) -> bool {
    crate::pcm::base64_len(44 + 2 * n) <= MAX_INLINE_BYTES
}

impl GeminiTranscriber {
    /// An engine with the stored key, else the one from the environment; an error where neither
    /// is there.
    pub fn new(api_key: String, model: String, from_env: Option<&str>) -> (r: Result<
        Self,
        GeminiError,
    >)
        ensures
            match r {
                Ok(engine) => {
                    &&& engine.api_key@.len() > 0
                    &&& engine.api_key@ == self::api_key(api_key@, optional_str(from_env))
                    &&& engine.model == model
                },
                Err(e) => {
                    &&& e is NoApiKey
                    &&& self::api_key(api_key@, optional_str(from_env)).len() == 0
                },
            },
    {
        let key = resolve_api_key(api_key.as_str(), from_env);
        if key.unicode_len() == 0 {
            return Err(GeminiError::NoApiKey);
        }
        Ok(GeminiTranscriber { api_key: key, model })
    }

    /// A request to transcribe `encoded_audio`, the base64 form of a WAV file.
    pub fn build_request(
        &self,
        encoded_audio: &str,
        config: &GeminiTranscribeSettings,
        language: &str,
        custom_words: &[String],
    ) -> (r: Json)
        ensures
            r.tree() == request_tree(
                self.model@,
                encoded_audio@,
                *config,
                language@,
                custom_words@,
            ),
            crate::request_laws::right_languages(
                *config,
                language@,
                crate::request_laws::at3(
                    r.tree(),
                    "generation_config"@,
                    "transcription_config"@,
                    "language_codes"@,
                ),
            ),
            crate::request_laws::right_vocabulary(
                *config,
                custom_words@,
                crate::request_laws::at3(
                    r.tree(),
                    "generation_config"@,
                    "transcription_config"@,
                    "custom_vocabulary"@,
                ),
            ),
    {
        let ghost tree = request_tree(
            self.model@,
            encoded_audio@,
            *config,
            language@,
            custom_words@,
        );
        let mut audio = no_fields();
        push_field(&mut audio, "type", Json::text("audio"));
        push_field(&mut audio, "data", Json::text(encoded_audio));
        push_field(&mut audio, "mime_type", Json::text("audio/wav"));
        let audio = Json::object(audio);
        proof {
            assert(audio.tree()->Object_0 =~= seq![
                ("type"@, JsonTree::Text("audio"@)),
                ("data"@, JsonTree::Text(encoded_audio@)),
                ("mime_type"@, JsonTree::Text("audio/wav"@)),
            ]);
        }
        let transcription = build_transcription_config(config, language, custom_words);
        let mut generation = no_fields();
        push_field(&mut generation, "transcription_config", transcription);
        let generation = Json::object(generation);
        proof {
            assert(generation.tree()->Object_0 =~= seq![
                ("transcription_config"@, transcription.tree()),
            ]);
        }
        let mut fields = no_fields();
        push_field(&mut fields, "model", Json::text(self.model.as_str()));
        push_field(&mut fields, "input", Json::single(audio));
        push_field(&mut fields, "generation_config", generation);
        proof {
            assert(crate::json::field_trees(fields@) =~= tree->Object_0);
            crate::request_laws::law_what_a_request_asks_for(
                self.model@,
                encoded_audio@,
                *config,
                language@,
                custom_words@,
            );
        }
        Json::object(fields)
    }

    /// The request for one utterance from the outcome of writing it as a WAV file.
    pub fn request_for_wav(
        &self,
        wav: Result<Vec<u8>, WavError>,
        config: &GeminiTranscribeSettings,
        language: &str,
        custom_words: &[String],
    ) -> (r: Result<Json, GeminiError>)
        requires
            wav matches Ok(bytes) ==> crate::pcm::base64_len(bytes@.len() as int) <= isize::MAX,
        ensures
            match wav {
                Ok(bytes) => {
                    &&& r matches Ok(body)
                    &&& body.tree() == request_tree(
                        self.model@,
                        crate::pcm::base64(bytes@),
                        *config,
                        language@,
                        custom_words@,
                    )
                },
                Err(e) => r matches Err(GeminiError::Encoding(why)) && why == e,
            },
    {
        match wav {
            Ok(bytes) => {
                let encoded = base64_text(bytes.as_slice());
                Ok(self.build_request(encoded.as_str(), config, language, custom_words))
            },
            Err(e) => Err(GeminiError::Encoding(e)),
        }
    }

    /// The request to send for one utterance. Nothing is sent for an empty one, and one that does
    /// not fit is refused.
    pub fn prepare(
        &self,
        samples: &[i16],
        config: &GeminiTranscribeSettings,
        language: &str,
        custom_words: &[String],
    ) -> (r: Result<Option<Json>, GeminiError>)
        ensures
            samples@.len() == 0 ==> r == Ok::<Option<Json>, GeminiError>(None),
            !fits_inline(samples@.len() as int) ==> r == Err::<Option<Json>, GeminiError>(
                GeminiError::TooLong { samples: samples@.len() as usize },
            ),
            samples@.len() > 0 && fits_inline(samples@.len() as int) ==> {
                &&& r matches Ok(Some(body))
                &&& body.tree() == request_tree(
                    self.model@,
                    crate::pcm::base64(crate::pcm::wav_file(samples@, SAMPLE_RATE as int)),
                    *config,
                    language@,
                    custom_words@,
                )
            },
    {
        if samples.len() == 0 {
            return Ok(None);
        }
        let n: u128 = samples.len() as u128;
        if (44 + 2 * n + 2) / 3 * 4 > MAX_INLINE_BYTES as u128 {
            return Err(GeminiError::TooLong { samples: samples.len() });
        }
        let wav = encode_wav(samples, SAMPLE_RATE);
        match self.request_for_wav(wav, config, language, custom_words) {
            Ok(body) => Ok(Some(body)),
            Err(e) => Err(e),
        }
    }
}

/// One piece of a reply.
#[derive(Debug)]
pub struct Content {
    pub text: Option<String>,
}

/// One step of a reply.
#[derive(Debug)]
pub struct Step {
    pub content: Vec<Content>,
}

/// A reply of the service.
#[derive(Debug)]
pub struct InteractionResponse {
    /// The whole transcript, where the service sends it in one piece.
    pub output_text: Option<String>,
    pub steps: Vec<Step>,
}

/// The texts among the pieces, in order.
pub open spec fn content_texts(content: Seq<Content>) -> Seq<Seq<char>>
    decreases content.len(),
{
    if content.len() == 0 {
        Seq::empty()
    } else {
        let before = content_texts(content.drop_last());
        match content.last().text {
            Some(text) => before.push(text@),
            None => before,
        }
    }
}

/// The texts of all steps, in order.
pub open spec fn step_texts(steps: Seq<Step>) -> Seq<Seq<char>>
    decreases steps.len(),
{
    if steps.len() == 0 {
        Seq::empty()
    } else {
        step_texts(steps.drop_last()) + content_texts(steps.last().content@)
    }
}

/// The transcript in a reply.
pub open spec fn transcript(response: InteractionResponse) -> Seq<char> {
    let whole = match response.output_text {
        Some(text) => crate::text::trimmed(text@),
        None => Seq::empty(),
    };
    if whole.len() > 0 {
        whole
    } else {
        crate::text::trimmed(crate::text::joined(step_texts(response.steps@), " "@))
    }
}

/// Adds the texts among the pieces at the end.
fn push_content_texts(out: &mut Vec<String>, content: &Vec<Content>)
    ensures
        crate::text::texts(final(out)@) == crate::text::texts(old(out)@) + content_texts(content@),
{
    let ghost before = crate::text::texts(out@);
    let mut i: usize = 0;
    proof {
        assert(content@.take(0) =~= Seq::empty());
        assert(before + content_texts(content@.take(0)) =~= before);
    }
    while i < content.len()
        invariant
            i <= content.len(),
            crate::text::texts(out@) == before + content_texts(content@.take(i as int)),
        decreases content.len() - i,
    {
        let ghost had = out@;
        match &content[i].text {
            Some(text) => {
                out.push(text.clone());
                proof {
                    assert(crate::text::texts(out@) =~= crate::text::texts(had).push(text@));
                }
            },
            None => {},
        }
        proof {
            assert(content@.take(i + 1).drop_last() =~= content@.take(i as int));
            assert(content@.take(i + 1).last() == content@[i as int]);
            assert(crate::text::texts(out@) =~= before + content_texts(content@.take(i + 1)));
        }
        i += 1;
    }
    proof {
        assert(content@.take(content@.len() as int) =~= content@);
    }
}

/// The transcript in a reply: the one-piece text where there is one, else the texts of the steps
/// with a space between them.
pub fn transcript_of(response: &InteractionResponse) -> (r: String)
    ensures
        r@ == transcript(*response),
{
    match &response.output_text {
        Some(text) => {
            let whole = trim(text.as_str());
            if whole.unicode_len() > 0 {
                return whole;
            }
        },
        None => {},
    }
    let mut parts: Vec<String> = Vec::new();
    let steps = &response.steps;
    let mut i: usize = 0;
    proof {
        assert(steps@.take(0) =~= Seq::empty());
        assert(crate::text::texts(parts@) =~= step_texts(steps@.take(0)));
    }
    while i < steps.len()
        invariant
            i <= steps.len(),
            crate::text::texts(parts@) == step_texts(steps@.take(i as int)),
        decreases steps.len() - i,
    {
        push_content_texts(&mut parts, &steps[i].content);
        proof {
            assert(steps@.take(i + 1).drop_last() =~= steps@.take(i as int));
            assert(steps@.take(i + 1).last() == steps@[i as int]);
        }
        i += 1;
    }
    proof {
        assert(steps@.take(steps@.len() as int) =~= steps@);
    }
    trim(join(&parts, " ").as_str())
}

/// The message of an error reply, where it has one.
pub open spec fn error_message(reply: JsonTree) -> Option<Seq<char>> {
    match reply.member("error"@) {
        Some(error) => match error.member("message"@) {
            Some(message) => message.as_text(),
            None => None,
        },
        None => None,
    }
}

/// The message of an error reply, where it has one.
pub fn error_message_of(reply: &Json) -> (r: Option<String>)
    ensures
        match r {
            Some(message) => error_message(reply.tree()) == Some(message@),
            None => error_message(reply.tree()) is None,
        },
{
    match reply.get("error") {
        Some(error) => match error.get("message") {
            Some(message) => match message.as_str() {
                Some(text) => Some(text.to_owned()),
                None => None,
            },
            None => None,
        },
        None => None,
    }
}

/// What is shown of a reply that reports an error.
pub open spec fn api_error(body: Seq<char>, reply: Result<JsonTree, Seq<char>>) -> Seq<char> {
    match reply {
        Ok(tree) => match error_message(tree) {
            Some(message) => message,
            None => truncated(body),
        },
        Err(_) => truncated(body),
    }
}

/// What is shown of a reply that reports an error: the message in it, else the start of the reply.
pub fn describe_api_error(body: &str) -> (r: String)
    ensures
        r@ == api_error(body@, crate::json::parsed_json(body@)),
{
    match parse_json(body) {
        Ok(reply) => match error_message_of(&reply) {
            Some(message) => message,
            None => truncate(body),
        },
        Err(_) => truncate(body),
    }
}

/// What is shown of a long body.
pub open spec fn truncated(body: Seq<char>) -> Seq<char> {
    crate::text::shortened(body, SHOWN_BODY as int)
}

/// The start of a body, as much of it as is shown.
pub fn truncate(body: &str) -> (r: String)
    ensures
        r@ == truncated(body@),
{
    shorten(body, SHOWN_BODY)
}

/// What is reported when the service answers with an error status.
pub fn refusal(status: &str, body: &str) -> (r: String)
    ensures
        r@ == "Gemini returned "@ + status@ + ": "@ + api_error(
            body@,
            crate::json::parsed_json(body@),
        ),
{
    let head = concat(concat("Gemini returned ", status).as_str(), ": ");
    concat(head.as_str(), describe_api_error(body).as_str())
}

/// The vocabulary never repeats a term in another case, is never longer than the service takes,
/// and holds only terms that some candidate gave.
pub proof fn law_vocabulary_is_distinct_and_bounded(candidates: Seq<Seq<char>>)
    ensures
        vocabulary(candidates).len() <= MAX_CUSTOM_VOCABULARY,
        forall|i: int, j: int|
            #![trigger vocabulary(candidates)[i], vocabulary(candidates)[j]]
            0 <= i < j < vocabulary(candidates).len() ==> lowercased(vocabulary(candidates)[i])
                != lowercased(vocabulary(candidates)[j]),
        forall|i: int|
            0 <= i < vocabulary(candidates).len() ==> (#[trigger] vocabulary(candidates)[i]).len()
                > 0 && exists|k: int|
                0 <= k < candidates.len() && crate::text::trimmed(#[trigger] candidates[k])
                    == vocabulary(candidates)[i],
    decreases candidates.len(),
{
    if candidates.len() > 0 {
        let rest = candidates.drop_last();
        law_vocabulary_is_distinct_and_bounded(rest);
        let before = vocabulary(rest);
        let after = vocabulary(candidates);
        assert forall|i: int| 0 <= i < after.len() implies (#[trigger] after[i]).len() > 0
            && exists|k: int|
            0 <= k < candidates.len() && crate::text::trimmed(#[trigger] candidates[k])
                == after[i] by {
            if i < before.len() {
                assert(after[i] == before[i]);
                let k = choose|k: int|
                    0 <= k < rest.len() && crate::text::trimmed(#[trigger] rest[k]) == before[i];
                assert(candidates[k] == rest[k]);
            } else {
                let k = candidates.len() - 1;
                assert(crate::text::trimmed(candidates[k]) == after[i]);
            }
        }
    }
}

/// A candidate that is not blank is in the vocabulary in some case, unless the list is full.
pub proof fn law_vocabulary_misses_nothing(candidates: Seq<Seq<char>>, k: int)
    requires
        0 <= k < candidates.len(),
        crate::text::trimmed(candidates[k]).len() > 0,
    ensures
        listed(vocabulary(candidates), crate::text::trimmed(candidates[k])) || vocabulary(
            candidates,
        ).len() == MAX_CUSTOM_VOCABULARY,
    decreases candidates.len(),
{
    let rest = candidates.drop_last();
    let before = vocabulary(rest);
    let after = vocabulary(candidates);
    let term = crate::text::trimmed(candidates[k]);
    law_vocabulary_is_distinct_and_bounded(rest);
    if k < rest.len() {
        law_vocabulary_misses_nothing(rest, k);
        assert(rest[k] == candidates[k]);
        if listed(before, term) {
            let i = choose|i: int|
                0 <= i < before.len() && lowercased(#[trigger] before[i]) == lowercased(term);
            assert(after[i] == before[i]);
        }
    } else {
        if !listed(before, term) && before.len() < MAX_CUSTOM_VOCABULARY {
            assert(after[before.len() as int] == term);
        }
    }
}

/// Tidying wins over what it excludes: with it, speakers and timestamps change nothing.
pub proof fn law_smart_mode_ignores_the_other_options(
    a: GeminiTranscribeSettings,
    b: GeminiTranscribeSettings,
)
    requires
        a.mode == GeminiTranscribeMode::Smart,
        b.mode == GeminiTranscribeMode::Smart,
    ensures
        mode_tree(a) == mode_tree(b),
{
}

/// The global custom words reach the service only where the settings want them.
pub proof fn law_unwanted_custom_words_are_not_sent(
    config: GeminiTranscribeSettings,
    language: Seq<char>,
    some: Seq<String>,
    other: Seq<String>,
)
    requires
        !config.include_custom_words,
    ensures
        transcription_config_tree(config, language, some) == transcription_config_tree(
            config,
            language,
            other,
        ),
{
}

/// Seven minutes of audio fit into one request, and what fits is a matter of length alone: whatever
/// is shorter than something that fits does too.
pub proof fn law_seven_minutes_fit(n: int, longer: int)
    requires
        0 <= n <= longer,
    ensures
        n <= 7 * 60 * SAMPLE_RATE ==> fits_inline(n),
        fits_inline(longer) ==> fits_inline(n),
{
}

/// The words that are wanted are the terms that are sent: those of the settings and, where the
/// settings want them, the global custom words.
pub proof fn law_every_wanted_word_is_sent(
    config: GeminiTranscribeSettings,
    custom_words: Seq<String>,
)
    ensures
        right_terms(config, custom_words, vocabulary(candidates(config, custom_words))),
{
    let own = config.custom_vocabulary@;
    let all = candidates(config, custom_words);
    let terms = vocabulary(all);
    law_vocabulary_is_distinct_and_bounded(all);
    assert forall|k: int|
        0 <= k < own.len() && crate::text::trimmed((#[trigger] own[k])@).len()
            > 0 implies terms.len() == 1000 || says(terms, own[k]) by {
        assert(all[k] == own[k]@);
        law_vocabulary_misses_nothing(all, k);
        if listed(terms, crate::text::trimmed(all[k])) {
            let i = choose|i: int|
                0 <= i < terms.len() && lowercased(#[trigger] terms[i]) == lowercased(
                    crate::text::trimmed(all[k]),
                );
            assert(lowercased(terms[i]) == lowercased(crate::text::trimmed(own[k]@)));
        }
    }
    if config.include_custom_words {
        assert forall|k: int|
            0 <= k < custom_words.len() && crate::text::trimmed((#[trigger] custom_words[k])@).len()
                > 0 implies terms.len() == 1000 || says(terms, custom_words[k]) by {
            let at = own.len() + k;
            assert(all[at] == custom_words[k]@);
            law_vocabulary_misses_nothing(all, at);
            if listed(terms, crate::text::trimmed(all[at])) {
                let i = choose|i: int|
                    0 <= i < terms.len() && lowercased(#[trigger] terms[i]) == lowercased(
                        crate::text::trimmed(all[at]),
                    );
                assert(lowercased(terms[i]) == lowercased(
                    crate::text::trimmed(custom_words[k]@),
                ));
            }
        }
    }
    assert forall|i: int| 0 <= i < terms.len() implies {
        &&& (#[trigger] terms[i]).len() > 0
        &&& word_among(own, terms[i]) || (config.include_custom_words && word_among(
            custom_words,
            terms[i],
        ))
    } by {
        let k = choose|k: int|
            0 <= k < all.len() && crate::text::trimmed(#[trigger] all[k]) == terms[i];
        if k < own.len() {
            assert(crate::text::trimmed(own[k]@) == terms[i]);
        } else {
            let at = k - own.len();
            assert(crate::text::trimmed(custom_words[at]@) == terms[i]);
        }
    }
}

/// Whether each of these terms comes from the candidate at its source, the first of its kind.
pub open spec fn sources(
    candidates: Seq<Seq<char>>,
    terms: Seq<Seq<char>>,
    source: Seq<int>,
) -> bool {
    &&& source.len() == terms.len()
    &&& forall|i: int|
        0 <= i < terms.len() ==> 0 <= (#[trigger] source[i]) < candidates.len()
            && crate::text::trimmed(candidates[source[i]]) == terms[i]
    &&& forall|i: int, j: int| 0 <= i < j < source.len() ==> source[i] < source[j]
    &&& forall|i: int, k: int|
        0 <= i < terms.len() && 0 <= k < source[i] ==> lowercased(
            crate::text::trimmed(#[trigger] candidates[k]),
        ) != lowercased(#[trigger] terms[i]) || crate::text::trimmed(candidates[k]).len() == 0
    &&& forall|i: int, k: int|
        0 <= i < terms.len() && 0 <= k < source[i] && crate::text::trimmed(candidates[k]).len() > 0
            ==> #[trigger] said_before(terms, i, crate::text::trimmed(candidates[k]))
}

/// Whether a word stands among the terms before one, in some case.
pub open spec fn said_before(terms: Seq<Seq<char>>, i: int, word: Seq<char>) -> bool {
    exists|j: int| 0 <= j < i && lowercased(#[trigger] terms[j]) == lowercased(word)
}

proof fn lemma_sources(candidates: Seq<Seq<char>>) -> (source: Seq<int>)
    ensures
        sources(candidates, vocabulary(candidates), source),
    decreases candidates.len(),
{
    let after = vocabulary(candidates);
    if candidates.len() == 0 {
        Seq::empty()
    } else {
        let rest = candidates.drop_last();
        let before = vocabulary(rest);
        let had = lemma_sources(rest);
        let last = candidates.len() - 1;
        let source = if after.len() > before.len() {
            had.push(last)
        } else {
            had
        };
        assert forall|i: int| 0 <= i < after.len() implies 0 <= (#[trigger] source[i])
            < candidates.len() && crate::text::trimmed(candidates[source[i]]) == after[i] by {
            if i < before.len() {
                assert(source[i] == had[i]);
                assert(rest[had[i]] == candidates[had[i]]);
                assert(after[i] == before[i]);
            }
        }
        assert forall|i: int, k: int|
            0 <= i < after.len() && 0 <= k < source[i] implies lowercased(
            crate::text::trimmed(#[trigger] candidates[k]),
        ) != lowercased(#[trigger] after[i]) || crate::text::trimmed(candidates[k]).len() == 0 by {
            if i < before.len() {
                assert(source[i] == had[i]);
                assert(after[i] == before[i]);
                assert(rest[k] == candidates[k]);
            } else if crate::text::trimmed(candidates[k]).len() > 0 {
                assert(rest[k] == candidates[k]);
                law_vocabulary_misses_nothing(rest, k);
                let term = crate::text::trimmed(rest[k]);
                let m = choose|m: int|
                    0 <= m < before.len() && lowercased(#[trigger] before[m]) == lowercased(term);
                assert(!listed(before, after[i]));
                assert(lowercased(before[m]) != lowercased(after[i]));
            }
        }
        assert forall|i: int, k: int|
            0 <= i < after.len() && 0 <= k < source[i] && crate::text::trimmed(candidates[k]).len()
                > 0 implies #[trigger] said_before(
            after,
            i,
            crate::text::trimmed(candidates[k]),
        ) by {
            assert(rest[k] == candidates[k]) by {
                if i < before.len() {
                    assert(source[i] == had[i]);
                }
            }
            let term = crate::text::trimmed(rest[k]);
            if i < before.len() {
                assert(source[i] == had[i]);
                assert(said_before(before, i, term));
                let j = choose|j: int|
                    0 <= j < i && lowercased(#[trigger] before[j]) == lowercased(term);
                assert(after[j] == before[j]);
            } else {
                law_vocabulary_misses_nothing(rest, k);
                let j = choose|j: int|
                    0 <= j < before.len() && lowercased(#[trigger] before[j]) == lowercased(term);
                assert(after[j] == before[j]);
            }
        }
        source
    }
}

/// Terms stand in the order in which their words were given, the model's own before the global
/// ones, and of several spellings of one word the first stands. No word is passed over for a later
/// one.
pub proof fn law_terms_keep_the_order_of_their_words(
    config: GeminiTranscribeSettings,
    custom_words: Seq<String>,
)
    ensures
        config.include_custom_words ==> exists|source: Seq<int>| #[trigger]
            sources(
                crate::text::texts(config.custom_vocabulary@ + custom_words),
                vocabulary(candidates(config, custom_words)),
                source,
            ),
        !config.include_custom_words ==> exists|source: Seq<int>| #[trigger]
            sources(
                crate::text::texts(config.custom_vocabulary@),
                vocabulary(candidates(config, custom_words)),
                source,
            ),
{
    let own = config.custom_vocabulary@;
    let source = lemma_sources(candidates(config, custom_words));
    if config.include_custom_words {
        assert(candidates(config, custom_words) =~= crate::text::texts(own + custom_words));
    } else {
        assert(candidates(config, custom_words) =~= crate::text::texts(own));
    }
}

/// The key that is used is the stored one; only where that is blank the environment's; and white
/// space around it never counts.
pub proof fn law_the_stored_key_comes_first(stored: Seq<char>, from_env: Option<Seq<char>>)
    ensures
        crate::text::trimmed(stored).len() > 0 ==> api_key(stored, from_env)
            == crate::text::trimmed(stored),
        crate::text::trimmed(stored).len() == 0 ==> (from_env matches Some(value) ==> api_key(
            stored,
            from_env,
        ) == crate::text::trimmed(value)),
        crate::text::trimmed(stored).len() == 0 && from_env is None ==> api_key(
            stored,
            from_env,
        ).len() == 0,
{
}

/// The languages of the settings come first. Where there are none it is the global language, and
/// where that is empty or left to detection no language is asked for.
pub proof fn law_which_languages_are_asked_for(
    config: GeminiTranscribeSettings,
    language: Seq<char>,
)
    ensures
        config.language_codes@.len() > 0 ==> language_codes(config, language).len()
            == config.language_codes@.len() && forall|i: int|
            0 <= i < config.language_codes@.len() ==> (#[trigger] language_codes(config, language)[i])
                == config.language_codes@[i]@,
        config.language_codes@.len() == 0 && language.len() > 0 && language != "auto"@
            ==> language_codes(config, language) == seq![language],
        config.language_codes@.len() == 0 && (language.len() == 0 || language == "auto"@)
            ==> language_codes(config, language).len() == 0,
{
}

/// A recording fits exactly if its WAV file in base64, four letters for three bytes, takes no more
/// than eighteen mebibytes.
pub proof fn law_what_fits_into_a_request(n: int)
    requires
        0 <= n,
    ensures
        fits_inline(n) <==> 4 * ((44 + 2 * n + 2) / 3) <= 18 * 1024 * 1024,
{
}

/// The seconds that are reported are the nearest to the length, and even where two are as near.
pub proof fn law_seconds_are_rounded(samples: int)
    requires
        0 <= samples,
    ensures
        -8000 <= 16000 * rounded_seconds(samples) - samples <= 8000,
        16000 * rounded_seconds(samples) - samples == 8000 || 16000 * rounded_seconds(samples)
            - samples == -8000 ==> rounded_seconds(samples) % 2 == 0,
{
}

/// The transcript is the one-piece text where that is not blank, whatever the steps say; else it is
/// the texts of the steps with a space between them.
pub proof fn law_where_the_transcript_comes_from(response: InteractionResponse)
    ensures
        response.output_text matches Some(text) ==> crate::text::trimmed(text@).len() > 0
            ==> transcript(response) == crate::text::trimmed(text@),
        response.output_text is None || crate::text::trimmed(response.output_text->0@).len() == 0
            ==> transcript(response) == crate::text::trimmed(
            crate::text::joined(step_texts(response.steps@), " "@),
        ),
{
}

/// The texts of a reply are those of all pieces of all steps, in order; a piece without a text is
/// passed over.
pub proof fn law_every_piece_is_read_in_order(
    steps: Seq<Step>,
    more: Seq<Step>,
    content: Seq<Content>,
    further: Seq<Content>,
    step: Step,
    piece: Content,
)
    ensures
        step_texts(steps + more) == step_texts(steps) + step_texts(more),
        step_texts(seq![step]) == content_texts(step.content@),
        step_texts(Seq::<Step>::empty()).len() == 0,
        content_texts(content + further) == content_texts(content) + content_texts(further),
        content_texts(Seq::<Content>::empty()).len() == 0,
        content_texts(seq![piece]) == match piece.text {
            Some(text) => seq![text@],
            None => Seq::empty(),
        },
{
    lemma_step_texts_of_concatenation(steps, more);
    lemma_content_texts_of_concatenation(content, further);
    assert(seq![step].drop_last() =~= Seq::empty());
    assert(step_texts(seq![step].drop_last()) =~= Seq::empty());
    assert(step_texts(seq![step]) =~= content_texts(step.content@));
    assert(seq![piece].drop_last() =~= Seq::empty());
    assert(content_texts(seq![piece].drop_last()) =~= Seq::empty());
    assert(piece.text matches Some(text) ==> content_texts(seq![piece]) =~= seq![text@]);
}

proof fn lemma_step_texts_of_concatenation(steps: Seq<Step>, more: Seq<Step>)
    ensures
        step_texts(steps + more) == step_texts(steps) + step_texts(more),
    decreases more.len(),
{
    let all = steps + more;
    if more.len() == 0 {
        assert(all =~= steps);
        assert(step_texts(more) =~= Seq::empty());
        assert(step_texts(steps) + step_texts(more) =~= step_texts(steps));
    } else {
        lemma_step_texts_of_concatenation(steps, more.drop_last());
        assert(all.drop_last() =~= steps + more.drop_last());
        assert(all.last() == more.last());
        assert(step_texts(all) =~= step_texts(steps) + step_texts(more));
    }
}

proof fn lemma_content_texts_of_concatenation(content: Seq<Content>, further: Seq<Content>)
    ensures
        content_texts(content + further) == content_texts(content) + content_texts(further),
    decreases further.len(),
{
    let all = content + further;
    if further.len() == 0 {
        assert(all =~= content);
        assert(content_texts(further) =~= Seq::empty());
        assert(content_texts(content) + content_texts(further) =~= content_texts(content));
    } else {
        lemma_content_texts_of_concatenation(content, further.drop_last());
        assert(all.drop_last() =~= content + further.drop_last());
        assert(all.last() == further.last());
        assert(content_texts(all) =~= content_texts(content) + content_texts(further));
    }
}

/// A reply that reports an error is shown as the message under `error`, where there is one that is
/// a text, and else as it is, up to four hundred bytes.
pub proof fn law_how_an_error_is_shown(body: Seq<char>, reply: Result<JsonTree, Seq<char>>)
    ensures
        reply matches Ok(tree) ==> tree.member("error"@) matches Some(error) ==> error.member(
            "message"@,
        ) matches Some(JsonTree::Text(message)) ==> api_error(body, reply) == message,
        (reply is Err || reply->Ok_0.member("error"@) is None || reply->Ok_0.member(
            "error"@,
        )->0.member("message"@) is None || reply->Ok_0.member("error"@)->0.member("message"@)->0
            !is Text) ==> api_error(body, reply) == crate::text::shortened(body, 400),
{
}

/// What is reported when nothing could be asked for: that a key is missing, why the recording could
/// not be written, or how long it is.
pub proof fn law_what_is_reported(why: WavError, samples: usize)
    ensures
        error_text(GeminiError::NoApiKey)
            == "No Gemini API key configured. Add one in Settings → Models → Gemini 3.5 Transcribe."@,
        error_text(GeminiError::Encoding(why)) == crate::pcm::wav_error_text(why),
        error_text(GeminiError::TooLong { samples })
            == "Recording is too long for cloud transcription ("@ + crate::text::decimal(
            rounded_seconds(samples as int),
        )
            + "s). Gemini accepts about 7 minutes per inline request; use a local model for clips this long."@,
{
}

} // verus!
