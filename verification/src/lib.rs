//! Core of a terminal process dashboard: the process snapshot data model,
//! the view transforms (sorting, filtering, tree flattening), the cursor
//! and selection logic, and the modal input state machine.
//!
//! All I/O (sampling the OS process table, reading keys, painting the
//! screen, delivering signals) lives outside this crate; the core only
//! works on plain values handed in and hands plain values back.

pub mod laws;
pub mod record;
pub mod timefmt;
pub mod state;
pub mod text;
pub mod tree;
pub mod view;
