//! Interaction and state core of a node-graph editor.
//!
//! Nodes live on an unbounded canvas that can be panned and zoomed. Output
//! pins are wired to input pins by drag gestures. This crate holds the part
//! that decides: the coordinate transforms, the graph model, the pin position
//! resolver with its per-frame cache, the connection rules, and the
//! per-frame interaction state machine. Drawing and input polling are left to
//! the host, which hands in plain values once per frame.
//!
//! All coordinates, lengths and zoom factors are fixed-point numbers: an
//! `i64` that counts millionths of a unit (see [`fixed`]). Arithmetic on them
//! saturates at the ends of the `i64` range, so every function here is total.

pub mod fixed;
pub mod geometry;
pub mod search;
pub mod text;
pub mod model;
pub mod canvas;
pub mod pin_manager;
pub mod node_factory;
pub mod ui_state;
pub mod interactions;
pub mod spawn;
pub mod input_system;
pub mod invariants;
