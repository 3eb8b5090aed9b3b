//! Tools to follow GStreamer pipelines in Rerun: a tracer that logs the graph of a pipeline whenever
//! it changes, and a sink that logs video frames.
//!
//! The library takes the decisions and computes what is logged; it neither talks to GStreamer nor
//! to a Rerun server. What it needs to know of a pipeline or a frame comes in as plain values, and
//! what is to be done goes out as plain values or as Rerun archetypes.
//!
//! The tracer:
//! - `snapshot`: what is read of a pipeline
//! - `model`: the mathematical picture of a pipeline
//! - `graph`: the graph that petgraph holds of each bin
//! - `pipeline_graph`: from a pipeline to the tree of its bins
//! - `graph_log`: from the tree to the graphs that are logged
//! - `layout`: the graph that the positions of the elements are computed on
//! - `pipeline_laws`, `graph_laws`: what holds of a traversal
//! - `log_laws`: what holds of what is logged
//! - `tracer`: when a pipeline is logged, and where
//!
//! The sink:
//! - `sink`: properties, starting and stopping
//! - `frame`: formats, codecs and images
//! - `render`: the steps in which a frame is rendered
//! - `render_laws`: what holds of the rendering of a frame as a whole
//!
//! Both: `archetypes` for Rerun's archetypes, and `text` for comparing and copying text.

pub mod archetypes;
pub mod frame;
pub mod graph;
pub mod graph_laws;
pub mod graph_log;
pub mod layout;
pub mod log_laws;
pub mod model;
pub mod pipeline_graph;
pub mod pipeline_laws;
pub mod render;
pub mod render_laws;
pub mod sink;
pub mod snapshot;
pub mod text;
pub mod tracer;
