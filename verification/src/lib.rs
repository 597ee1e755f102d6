//! Verified core of a terminal scoreboard viewer.
//!
//! The library holds the pieces of the viewer that decide and compute:
//! the snapshot data model, the merge of background updates into the
//! application state, the list/selection/filter controller, the field
//! coordinate engine that maps game situations to terminal columns, and
//! the adaptive layout decisions. Terminal drawing, HTTP polling, image
//! decoding and argument parsing live outside the library, behind plain
//! values.

pub mod field;
pub mod layout;
pub mod logos;
pub mod model;
pub mod state;
