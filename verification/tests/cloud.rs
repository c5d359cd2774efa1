use handy::cloud::{engine_kind, micro_usd_per_minute};
use handy::gemini::MODEL_ID;
use handy::gemini_live::LIVE_MODEL_ID;

fn cost_usd(model_id: &str, duration_secs: f64) -> Option<f64> {
    micro_usd_per_minute(model_id).map(|rate| rate as f64 / 1e6 * duration_secs / 60.0)
}

#[test]
fn local_models_are_free_and_labelled_local() {
    assert_eq!(micro_usd_per_minute("whisper-large-v3"), None);
    assert_eq!(cost_usd("whisper-large-v3", 600.0), None);
    assert_eq!(engine_kind("whisper-large-v3"), "local");
}

#[test]
fn cloud_cost_scales_with_duration() {
    // 20 minutes of audio through the Live model at $0.009/min.
    let cost = cost_usd(LIVE_MODEL_ID, 20.0 * 60.0).unwrap();
    assert!((cost - 0.18).abs() < 1e-9, "got {cost}");
    assert_eq!(engine_kind(LIVE_MODEL_ID), "cloud");
}

#[test]
fn batch_is_cheaper_than_live() {
    let batch = cost_usd(MODEL_ID, 3600.0).unwrap();
    let live = cost_usd(LIVE_MODEL_ID, 3600.0).unwrap();
    assert!(batch < live);
    assert!((batch - 0.30).abs() < 1e-9, "got {batch}");
    assert_eq!(engine_kind(MODEL_ID), "cloud");
}
