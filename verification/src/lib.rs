//! A digital-signal-processing engine that renders audio by pulling
//! frames through a mutable graph of sources, filters and mixers.
//!
//! - `audioformat`: frames and the arithmetic on their amplitude.
//! - `source`: what frames are pulled from, and the decorators that
//!   pause a source or play it at another sample rate.
//! - `processing`: filters, and what a node of the graph does to a
//!   buffer.
//! - `topology`: the acyclic wiring of the graph.
//! - `graph`: the graph itself, with stable node indices.
//! - `render`: one render pass, in which every node is rendered once.
//! - `engine`: what the render loop decides on each callback, and the
//!   channel through which it is controlled.
//! - `player`: a ready-made chain of source, filters and volume.
//! - `rpc`, `sink`, `error`, `util`: small types shared with the program
//!   around the engine.
//!
//! The engine does not fix what a sample is. Frames, gains and sources
//! of frames come in through traits, so that the program around the
//! engine decides on the sample format and on where audio comes from.

pub mod audioformat;
pub mod engine;
pub mod error;
pub mod graph;
pub mod player;
pub mod processing;
pub mod render;
pub mod rpc;
pub mod sink;
pub mod source;
pub mod topology;
pub mod util;
