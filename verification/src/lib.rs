//! Core of a terminal dashboard that supervises long-running local
//! processes: a chunked, size-bounded store for their captured output, a
//! renderer that wraps raw lines to the console width and windows them
//! around a scroll anchor, the per-process run/stop state machine, and the
//! dashboard state the keys drive. Process spawning, threads and terminal
//! drawing live with the embedding program; everything here is verified.

pub mod app;
pub mod buffer;
pub mod project;
pub mod render;
pub mod scroll;
pub mod wrap;
