//! Horizontal bar charts rendered as coloured terminal text.
//!
//! A chart is described by a [`bar_graph::BarGraph`] and drawn from a slice of
//! [`bar_graph::data::Data`]. Every function of the crate carries a contract
//! that Verus proves; the few calls into other crates are collected behind
//! small wrappers whose contracts are stated, not proved, and say so.

pub mod bar_graph;
