//! Core of a text-mode (terminal) user-interface toolkit.
//!
//! The centre of the crate is the layout resolution engine: a compact,
//! partially specified textual description (absolute coordinates,
//! percentages, anchors, docking, alignment) is turned into a concrete
//! cell rectangle for a control, given the size of its parent.  Around it
//! stand the value types the engine works on (coordinates, dimensions,
//! alignments), the key/value parser that reads the textual descriptions,
//! and a handful of small verified components of the wider toolkit:
//! character attributes, number formatting, tooltip placement, the
//! application builder and a few control helpers.

pub mod graphics;
pub mod coordinates;
pub mod text;
pub mod kv_parser;
pub mod alignament;
pub mod layout_params;
pub mod layout_mode;
pub mod layout_resolve;
pub mod control_layout;
pub mod format_number;
pub mod format_ratings;
pub mod temp_store;
pub mod system;
pub mod event_result;
pub mod chartbar;
pub mod builder;
pub mod terminals;
pub mod tooltip;
pub mod toolbar_checkbox;
pub mod viewer_scroll;
