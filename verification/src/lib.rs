//! Observes the playback state of a DJ application living in a foreign
//! process and republishes it as OSC messages: pointer-chain resolution,
//! snapshot reconstruction, edge-triggered beat keeping, bearer-token
//! decoding, track-metadata classification, and OSC 1.0 encoding.
//!
//! All foreign-process reads, HTTP traffic and UDP sends happen outside
//! this library; it is handed plain values and returns plain values.

pub mod bearer;
pub mod chain;
pub mod keeper;
pub mod offsets;
pub mod osc;
pub mod snapshot;
pub mod track;
