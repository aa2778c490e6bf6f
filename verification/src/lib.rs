//! On-device voice dictation: the decisions behind the hotkey, the ring
//! buffer, voice activity detection, streaming transcription, transcript
//! cleanup and text insertion, each with its behaviour stated and proved.

pub mod asr_config;
pub mod audio_ctx;
pub mod capture;
pub mod chars;
pub mod convert;
pub mod deadline;
pub mod decimal;
pub mod dictionary;
pub mod disfluency;
pub mod disfluency_laws;
pub mod endpoint;
pub mod engine;
pub mod framing;
pub mod generation;
pub mod hotkey;
pub mod icon;
pub mod inject;
pub mod key;
pub mod listener;
pub mod load;
pub mod machine;
pub mod machine_laws;
pub mod merge;
pub mod paths;
pub mod pill;
pub mod prompt;
pub mod resample;
pub mod ring_buffer;
pub mod sample_time;
pub mod session;
pub mod silero;
pub mod slices;
pub mod status;
pub mod text;
pub mod transition_laws;
pub mod window;
pub mod winkey;
pub mod words;
