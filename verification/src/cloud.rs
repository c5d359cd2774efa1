//! Which models run in the cloud, and what they cost.
use vstd::prelude::*;
use crate::gemini::MODEL_ID;
use crate::gemini_live::LIVE_MODEL_ID;
use crate::text::same_text;

verus! {

/// The published price of a model in millionths of a US dollar per minute of audio; none for a
/// model that runs locally. It blends what is billed for the audio in and for the text out.
pub open spec fn rate(model_id: Seq<char>) -> Option<u32> {
    if model_id == MODEL_ID@ {
        Some(5000u32)
    } else if model_id == LIVE_MODEL_ID@ {
        Some(9000u32)
    } else {
        None
    }
}

/// The published price of a model in millionths of a US dollar per minute of audio; none for a
/// model that runs locally.
pub fn micro_usd_per_minute(model_id: &str) -> (r: Option<u32>)
    ensures
        r == rate(model_id@),
{
    if same_text(model_id, MODEL_ID) {
        Some(5000)
    } else if same_text(model_id, LIVE_MODEL_ID) {
        Some(9000)
    } else {
        None
    }
}

/// Which side of the local and cloud split a model stands on.
pub open spec fn kind(model_id: Seq<char>) -> Seq<char> {
    if rate(model_id) is Some {
        "cloud"@
    } else {
        "local"@
    }
}

/// Which side of the local and cloud split a model stands on: the key by which usage is grouped.
pub fn engine_kind(model_id: &str) -> (r: &'static str)
    ensures
        r@ == kind(model_id@),
{
    if micro_usd_per_minute(model_id).is_some() {
        "cloud"
    } else {
        "local"
    }
}

/// The two models of the service run in the cloud, the batch model for half a cent a minute and the
/// streaming one for nine tenths of a cent; every other model is local and costs nothing.
pub proof fn law_what_models_cost(model_id: Seq<char>)
    ensures
        rate("gemini-3.5-transcribe"@) == Some(5000u32),
        rate("gemini-3.5-transcribe-live"@) == Some(9000u32),
        model_id != "gemini-3.5-transcribe"@ && model_id != "gemini-3.5-transcribe-live"@ ==> rate(
            model_id,
        ) is None,
        rate(model_id) is Some ==> kind(model_id) == "cloud"@,
        rate(model_id) is None ==> kind(model_id) == "local"@,
{
    reveal_strlit("gemini-3.5-transcribe");
    reveal_strlit("gemini-3.5-transcribe-live");
    assert("gemini-3.5-transcribe"@.len() != "gemini-3.5-transcribe-live"@.len());
}

} // verus!
