//! Debate orchestration: turn scheduling over a debate format, per-participant
//! conversation histories, completion retry policy and response sanitization.

pub mod audio;
pub mod chunks;
pub mod completion;
pub mod config;
pub mod debate_format;
pub mod error;
pub mod history;
pub mod model;
pub mod orchestrator;
pub mod order;
pub mod participant;
pub mod render;
pub mod run_state;
pub mod sanitize;
pub mod schedule;
pub mod split;
pub mod text;
pub mod transcript;
pub mod tts;

pub use config::{Config, VoicesConfig};
pub use debate_format::{DebateFormat, DebateSection, PresidentialDebateFormat};
pub use error::DebateError;
pub use orchestrator::{DebateConfig, DebateOrchestrator};
pub use participant::{AIParticipant, ParticipantRole};
pub use transcript::{DebateEvent, DebateMessage};
