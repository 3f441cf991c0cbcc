//! Backend library for a desktop video-editing and recording application.
//!
//! The two cores are the capture-session state machine ([`recording`]) and the
//! timeline-to-filter-graph compositor ([`compositor`]). Around them stand the
//! builders for the transcoding engine's argument lists ([`engine`]), the
//! parsers for its diagnostic output ([`devices`], [`probe`]), and the
//! transcript model with its subtitle renderers ([`transcript`]).
//!
//! All time values are whole milliseconds, so that every duration and
//! timestamp computation is exact.

pub mod compositor;
pub mod devices;
pub mod engine;
pub mod numfmt;
pub mod probe;
pub mod recording;
pub mod textutil;
pub mod transcript;
