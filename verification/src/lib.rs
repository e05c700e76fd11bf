//! Decides which layer of a programmable keyboard should be active while an
//! application has the focus, and sends the layer to the keyboard only when
//! it changes.
//!
//! - [`structs`]: the rules, the groups they stand in, and the snapshot of
//!   the focused application.
//! - [`text`]: case folding and substring search.
//! - [`matcher`]: the questions that are put to the rules, and the search
//!   for the lowest layer that answers one.
//! - [`processes`]: the table of running processes and the walk up the
//!   ancestry of the focused process.
//! - [`config`]: the mapping, its upkeep, and the resolution of the layer.
//! - [`layer`]: the dispatcher, which remembers the layer that the keyboard
//!   shows and sends only what differs from it.
//! - [`focus`]: the supported keyboards and the text of the layer command.
//! - [`helpers`]: list editing.

pub mod config;
pub mod focus;
pub mod helpers;
pub mod layer;
pub mod matcher;
pub mod processes;
pub mod structs;
pub mod text;
