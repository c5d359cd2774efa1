//! The decisions of a dictation application: when to record, what to send to a transcription
//! service and what to make of its replies, what to keep of past dictations, and how to show what
//! is going on. Everything here computes; whoever uses it does the input and output.
pub mod cloud;
pub mod coordinator_laws;
pub mod debug_capture;
pub mod gemini;
pub mod gemini_live;
pub mod history;
pub mod history_laws;
pub mod json;
pub mod live_laws;
pub mod order;
pub mod overlay;
pub mod pcm;
pub mod request_laws;
pub mod speech_gate;
pub mod stream_segmenter;
pub mod text;
pub mod transcription_coordinator;
pub mod usage;
pub mod usage_laws;
