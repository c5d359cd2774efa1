//! What the requests to the service say, member by member.
use vstd::prelude::*;
use crate::gemini::{GeminiTranscribeMode, GeminiTranscribeSettings};
use crate::json::JsonTree;

verus! {

/// What a document holds under a name, and there under another.
pub open spec fn at2(tree: JsonTree, a: Seq<char>, b: Seq<char>) -> Option<JsonTree> {
    match tree.member(a) {
        Some(inner) => inner.member(b),
        None => None,
    }
}

/// What a document holds three names down.
pub open spec fn at3(tree: JsonTree, a: Seq<char>, b: Seq<char>, c: Seq<char>) -> Option<JsonTree> {
    match at2(tree, a, b) {
        Some(inner) => inner.member(c),
        None => None,
    }
}

/// Whether a document is the list of these texts, in order.
pub open spec fn lists_texts(tree: Option<JsonTree>, texts: Seq<Seq<char>>) -> bool {
    &&& tree matches Some(JsonTree::Array(items))
    &&& items.len() == texts.len()
    &&& forall|i: int| 0 <= i < texts.len() ==> (#[trigger] items[i]) == JsonTree::Text(texts[i])
}

/// Whether the languages that are sent are the right ones: those of the settings; where there are
/// none, the global one; and none where that is empty or left to detection.
pub open spec fn right_languages(
    config: GeminiTranscribeSettings,
    language: Seq<char>,
    sent: Option<JsonTree>,
) -> bool {
    &&& sent matches Some(JsonTree::Array(items))
    &&& config.language_codes@.len() > 0 ==> items.len() == config.language_codes@.len()
        && forall|i: int|
        0 <= i < items.len() ==> (#[trigger] items[i]) == JsonTree::Text(
            config.language_codes@[i]@,
        )
    &&& config.language_codes@.len() == 0 && language.len() > 0 && language != "auto"@ ==> items
        == seq![JsonTree::Text(language)]
    &&& config.language_codes@.len() == 0 && (language.len() == 0 || language == "auto"@)
        ==> items.len() == 0
}

/// Whether the vocabulary that is sent is the right one: the list of the right terms, and no list
/// at all where there are no terms.
pub open spec fn right_vocabulary(
    config: GeminiTranscribeSettings,
    custom_words: Seq<String>,
    sent: Option<JsonTree>,
) -> bool {
    match sent {
        Some(_) => exists|terms: Seq<Seq<char>>| #[trigger]
            crate::gemini::right_terms(config, custom_words, terms) && terms.len() > 0
                && lists_texts(sent, terms),
        None => crate::gemini::right_terms(config, custom_words, Seq::empty()),
    }
}

proof fn lemma_first_of_one(fields: Seq<(Seq<char>, JsonTree)>, key: Seq<char>, value: JsonTree)
    requires
        fields == seq![(key, value)],
    ensures
        JsonTree::Object(fields).member(key) == Some(value),
{
    crate::json::law_the_last_field_of_a_name_counts(fields, key, 0);
}

/// A field whose name does not come again is the member of that name.
proof fn lemma_field(fields: Seq<(Seq<char>, JsonTree)>, key: Seq<char>, i: int)
    requires
        0 <= i < fields.len(),
        fields[i].0 == key,
        forall|j: int| i < j < fields.len() ==> (#[trigger] fields[j]).0 != key,
    ensures
        JsonTree::Object(fields).member(key) == Some(fields[i].1),
{
    crate::json::law_the_last_field_of_a_name_counts(fields, key, i);
}

/// A name that no field has names no member.
proof fn lemma_no_field(fields: Seq<(Seq<char>, JsonTree)>, key: Seq<char>)
    requires
        forall|j: int| 0 <= j < fields.len() ==> (#[trigger] fields[j]).0 != key,
    ensures
        JsonTree::Object(fields).member(key) is None,
{
    crate::json::law_the_last_field_of_a_name_counts(fields, key, 0);
}

proof fn lemma_texts_listed(texts: Seq<Seq<char>>)
    ensures
        lists_texts(Some(crate::json::text_list(texts)), texts),
{
}

proof fn lemma_no_terms(terms: Seq<Seq<char>>)
    requires
        terms.len() == 0,
    ensures
        terms == Seq::<Seq<char>>::empty(),
{
    assert(terms =~= Seq::empty());
}

/// The message that opens a session asks for the user's languages, vocabulary and mode, for text,
/// of the streaming model, and with the service's own detection of speech switched off.
pub proof fn law_what_a_setup_asks_for(
    config: GeminiTranscribeSettings,
    language: Seq<char>,
    custom_words: Seq<String>,
)
    ensures
        ({
            let setup = crate::gemini_live::setup_tree(config, language, custom_words);
            let wanted = "inputAudioTranscription"@;
            &&& at2(setup, "setup"@, "model"@) == Some(
                JsonTree::Text("models/gemini-3.5-transcribe-live"@),
            )
            &&& right_languages(config, language, at3(setup, "setup"@, wanted, "languageCodes"@))
            &&& right_vocabulary(
                config,
                custom_words,
                at3(setup, "setup"@, wanted, "customVocabulary"@),
            )
            &&& at3(setup, "setup"@, wanted, "mode"@) == Some(
                JsonTree::Text(
                    if config.mode is Smart {
                        "SMART"@
                    } else {
                        "VERBATIM"@
                    },
                ),
            )
            &&& forall|key: Seq<char>|
                key != "model"@ && key != "generationConfig"@ && key != wanted && key
                    != "realtimeInputConfig"@ ==> (#[trigger] at2(setup, "setup"@, key)) is None
            &&& forall|key: Seq<char>|
                key != "languageCodes"@ && key != "customVocabulary"@ && key != "mode"@ ==> (
                #[trigger] at3(setup, "setup"@, wanted, key)) is None
            &&& lists_texts(
                at3(setup, "setup"@, "generationConfig"@, "responseModalities"@),
                seq!["TEXT"@],
            )
            &&& at3(setup, "setup"@, "realtimeInputConfig"@, "automaticActivityDetection"@) matches
                Some(detection) && detection.member("disabled"@) == Some(JsonTree::Bool(true))
        }),
{
    reveal_strlit("model");
    reveal_strlit("generationConfig");
    reveal_strlit("inputAudioTranscription");
    reveal_strlit("realtimeInputConfig");
    reveal_strlit("languageCodes");
    reveal_strlit("customVocabulary");
    reveal_strlit("mode");
    assert("model"@.len() == 5 && "generationConfig"@.len() == 16 && "inputAudioTranscription"@.len()
        == 23 && "realtimeInputConfig"@.len() == 19);
    assert("languageCodes"@.len() == 13 && "customVocabulary"@.len() == 16 && "mode"@.len() == 4);
    let setup = crate::gemini_live::setup_tree(config, language, custom_words);
    let inner = setup->Object_0[0].1;
    let fields = inner->Object_0;
    lemma_first_of_one(setup->Object_0, "setup"@, inner);
    lemma_field(fields, "model"@, 0);
    lemma_field(fields, "generationConfig"@, 1);
    lemma_field(fields, "inputAudioTranscription"@, 2);
    lemma_field(fields, "realtimeInputConfig"@, 3);
    assert(fields[0].0 == "model"@ && fields[1].0 == "generationConfig"@ && fields[2].0
        == "inputAudioTranscription"@ && fields[3].0 == "realtimeInputConfig"@);
    let texts = seq!["TEXT"@];
    lemma_first_of_one(
        fields[1].1->Object_0,
        "responseModalities"@,
        crate::json::text_list(texts),
    );
    lemma_texts_listed(texts);
    let detection = fields[3].1->Object_0[0].1;
    lemma_first_of_one(fields[3].1->Object_0, "automaticActivityDetection"@, detection);
    lemma_first_of_one(detection->Object_0, "disabled"@, JsonTree::Bool(true));
    let asked = fields[2].1->Object_0;
    let terms = crate::gemini::vocabulary(crate::gemini::candidates(config, custom_words));
    crate::gemini::law_every_wanted_word_is_sent(config, custom_words);
    lemma_field(asked, "languageCodes"@, 0);
    lemma_texts_listed(terms);
    if terms.len() > 0 {
        assert(asked.len() == 3);
        lemma_field(asked, "customVocabulary"@, 1);
        lemma_field(asked, "mode"@, 2);
    } else {
        assert(asked.len() == 2);
        lemma_no_terms(terms);
        lemma_no_field(asked, "customVocabulary"@);
        lemma_field(asked, "mode"@, 1);
    }
    crate::gemini::law_which_languages_are_asked_for(config, language);
    lemma_texts_listed(crate::gemini::language_codes(config, language));
    assert forall|key: Seq<char>|
        key != "model"@ && key != "generationConfig"@ && key != "inputAudioTranscription"@ && key
            != "realtimeInputConfig"@ implies (#[trigger] at2(setup, "setup"@, key)) is None by {
        lemma_no_field(fields, key);
    }
    assert forall|key: Seq<char>|
        key != "languageCodes"@ && key != "customVocabulary"@ && key != "mode"@ implies (
    #[trigger] at3(setup, "setup"@, "inputAudioTranscription"@, key)) is None by {
        lemma_no_field(asked, key);
    }
    let codes = at3(setup, "setup"@, "inputAudioTranscription"@, "languageCodes"@);
    if config.language_codes@.len() == 0 && language.len() > 0 && language != "auto"@ {
        assert(codes->0->Array_0 =~= seq![JsonTree::Text(language)]);
    }
}

/// The messages that open and close the turn and the one that carries audio say so, and the audio
/// is the caller's, as sixteen-bit samples sixteen thousand times a second.
pub proof fn law_what_a_turn_says(pcm: Seq<u8>)
    ensures
        at2(crate::gemini_live::start_tree(), "realtimeInput"@, "activityStart"@) == Some(
            JsonTree::Object(Seq::empty()),
        ),
        at2(crate::gemini_live::end_tree(), "realtimeInput"@, "activityEnd"@) == Some(
            JsonTree::Object(Seq::empty()),
        ),
        at3(
            crate::gemini_live::audio_tree(pcm),
            "realtimeInput"@,
            "audio"@,
            "data"@,
        ) == Some(JsonTree::Text(crate::pcm::base64(pcm))),
        at3(
            crate::gemini_live::audio_tree(pcm),
            "realtimeInput"@,
            "audio"@,
            "mimeType"@,
        ) == Some(JsonTree::Text("audio/pcm;rate=16000"@)),
{
    reveal_strlit("data");
    reveal_strlit("mimeType");
    assert("data"@.len() == 4 && "mimeType"@.len() == 8);
    let start = crate::gemini_live::start_tree();
    let signal = start->Object_0[0].1;
    lemma_first_of_one(start->Object_0, "realtimeInput"@, signal);
    lemma_first_of_one(signal->Object_0, "activityStart"@, signal->Object_0[0].1);
    let end = crate::gemini_live::end_tree();
    let signal = end->Object_0[0].1;
    lemma_first_of_one(end->Object_0, "realtimeInput"@, signal);
    lemma_first_of_one(signal->Object_0, "activityEnd"@, signal->Object_0[0].1);
    let audio = crate::gemini_live::audio_tree(pcm);
    let signal = audio->Object_0[0].1;
    let frame = signal->Object_0[0].1;
    lemma_first_of_one(audio->Object_0, "realtimeInput"@, signal);
    lemma_first_of_one(signal->Object_0, "audio"@, frame);
    lemma_field(frame->Object_0, "data"@, 0);
    lemma_field(frame->Object_0, "mimeType"@, 1);
}

/// The mode of a request: tidied text without speakers and timestamps, or every word with those of
/// them that the settings want.
pub proof fn law_what_a_mode_asks_for(config: GeminiTranscribeSettings)
    ensures
        ({
            let mode = crate::gemini::mode_tree(config);
            &&& config.mode is Smart ==> {
                &&& mode.member("type"@) == Some(JsonTree::Text("smart"@))
                &&& mode.member("diarization_mode"@) is None
                &&& mode.member("timestamp_granularities"@) is None
            }
            &&& config.mode is Verbatim ==> {
                &&& mode.member("type"@) == Some(JsonTree::Text("verbatim"@))
                &&& mode.member("diarization_mode"@) == if config.diarization {
                    Some(JsonTree::Text("speaker"@))
                } else {
                    None
                }
                &&& config.timestamps ==> lists_texts(
                    mode.member("timestamp_granularities"@),
                    seq!["word"@],
                )
                &&& !config.timestamps ==> mode.member("timestamp_granularities"@) is None
            }
        }),
{
    reveal_strlit("type");
    reveal_strlit("diarization_mode");
    reveal_strlit("timestamp_granularities");
    let fields = crate::gemini::mode_tree(config)->Object_0;
    let words = seq!["word"@];
    lemma_texts_listed(words);
    assert("type"@.len() == 4 && "diarization_mode"@.len() == 16
        && "timestamp_granularities"@.len() == 23);
    assert(fields[0].0 == "type"@);
    lemma_field(fields, "type"@, 0);
    if config.mode is Verbatim && config.diarization {
        assert(fields[1].0 == "diarization_mode"@);
        lemma_field(fields, "diarization_mode"@, 1);
    } else {
        lemma_no_field(fields, "diarization_mode"@);
    }
    if config.mode is Verbatim && config.timestamps {
        assert(fields.last().0 == "timestamp_granularities"@);
        lemma_field(fields, "timestamp_granularities"@, fields.len() - 1);
    } else {
        lemma_no_field(fields, "timestamp_granularities"@);
    }
}

/// A request asks for one recording, the caller's, of the engine's model, in the user's languages
/// and mode and with the user's vocabulary.
pub proof fn law_what_a_request_asks_for(
    model: Seq<char>,
    audio: Seq<char>,
    config: GeminiTranscribeSettings,
    language: Seq<char>,
    custom_words: Seq<String>,
)
    ensures
        ({
            let request = crate::gemini::request_tree(model, audio, config, language, custom_words);
            let outer = "generation_config"@;
            let inner = "transcription_config"@;
            &&& request.member("model"@) == Some(JsonTree::Text(model))
            &&& request.member("input"@) matches Some(JsonTree::Array(input)) && {
                &&& input.len() == 1
                &&& input[0].member("type"@) == Some(JsonTree::Text("audio"@))
                &&& input[0].member("data"@) == Some(JsonTree::Text(audio))
                &&& input[0].member("mime_type"@) == Some(JsonTree::Text("audio/wav"@))
            }
            &&& right_languages(config, language, at3(request, outer, inner, "language_codes"@))
            &&& right_vocabulary(
                config,
                custom_words,
                at3(request, outer, inner, "custom_vocabulary"@),
            )
            &&& at3(request, outer, inner, "mode"@) == Some(crate::gemini::mode_tree(config))
            &&& forall|key: Seq<char>|
                key != "model"@ && key != "input"@ && key != outer ==> (#[trigger] request.member(
                    key,
                )) is None
            &&& forall|key: Seq<char>|
                key != "language_codes"@ && key != "custom_vocabulary"@ && key != "mode"@ ==> (
                #[trigger] at3(request, outer, inner, key)) is None
        }),
{
    reveal_strlit("model");
    reveal_strlit("input");
    reveal_strlit("generation_config");
    reveal_strlit("type");
    reveal_strlit("data");
    reveal_strlit("mime_type");
    reveal_strlit("language_codes");
    reveal_strlit("custom_vocabulary");
    reveal_strlit("mode");
    assert("model"@.len() == 5 && "input"@.len() == 5 && "generation_config"@.len() == 17);
    assert("type"@.len() == 4 && "data"@.len() == 4 && "mime_type"@.len() == 9);
    assert("language_codes"@.len() == 14 && "custom_vocabulary"@.len() == 17 && "mode"@.len() == 4);
    let request = crate::gemini::request_tree(model, audio, config, language, custom_words);
    let fields = request->Object_0;
    assert(fields[0].0 == "model"@ && fields[1].0 == "input"@ && fields[2].0
        == "generation_config"@);
    assert("model"@[0] == 'm' && "input"@[0] == 'i');
    lemma_field(fields, "model"@, 0);
    lemma_field(fields, "input"@, 1);
    lemma_field(fields, "generation_config"@, 2);
    let piece = fields[1].1->Array_0[0]->Object_0;
    assert(piece[0].0 == "type"@ && piece[1].0 == "data"@ && piece[2].0 == "mime_type"@);
    assert("type"@[0] == 't' && "data"@[0] == 'd');
    lemma_field(piece, "type"@, 0);
    lemma_field(piece, "data"@, 1);
    lemma_field(piece, "mime_type"@, 2);
    let asked = fields[2].1->Object_0[0].1;
    lemma_first_of_one(fields[2].1->Object_0, "transcription_config"@, asked);
    let asked = asked->Object_0;
    let terms = crate::gemini::vocabulary(crate::gemini::candidates(config, custom_words));
    crate::gemini::law_every_wanted_word_is_sent(config, custom_words);
    lemma_field(asked, "language_codes"@, 0);
    lemma_texts_listed(terms);
    if terms.len() > 0 {
        assert(asked.len() == 3);
        lemma_field(asked, "custom_vocabulary"@, 1);
        lemma_field(asked, "mode"@, 2);
    } else {
        assert(asked.len() == 2);
        lemma_no_terms(terms);
        lemma_no_field(asked, "custom_vocabulary"@);
        lemma_field(asked, "mode"@, 1);
    }
    crate::gemini::law_which_languages_are_asked_for(config, language);
    lemma_texts_listed(crate::gemini::language_codes(config, language));
    assert forall|key: Seq<char>|
        key != "model"@ && key != "input"@ && key != "generation_config"@ implies (
    #[trigger] request.member(key)) is None by {
        lemma_no_field(fields, key);
    }
    assert forall|key: Seq<char>|
        key != "language_codes"@ && key != "custom_vocabulary"@ && key != "mode"@ implies (
    #[trigger] at3(request, "generation_config"@, "transcription_config"@, key)) is None by {
        lemma_no_field(asked, key);
    }
    let codes = at3(request, "generation_config"@, "transcription_config"@, "language_codes"@);
    if config.language_codes@.len() == 0 && language.len() > 0 && language != "auto"@ {
        assert(codes->0->Array_0 =~= seq![JsonTree::Text(language)]);
    }
}

} // verus!
