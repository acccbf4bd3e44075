//! Real-time audio ingestion and utterance segmentation for speech-to-text.
//!
//! The library holds the decisions of the pipeline between an audio device
//! and a recognition engine: how interleaved frames are laid out, how a stream
//! of variable batches is cut into the fixed chunks a rate converter wants,
//! how samples cross from the producer to the consumer, when an utterance has
//! ended, and how recognised segments become one line of text.

pub mod config;
pub mod sample;
pub mod ring;
pub mod staging;
pub mod channel;
pub mod downmix;
pub mod segmenter;
pub mod transcript;
pub mod session;
pub mod producer;
pub mod voice;
