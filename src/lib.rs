//! A context menu: an ordered list of headers, separators and entries, with
//! a keyboard selection cursor that only ever rests on an entry.
use vstd::prelude::*;

pub mod context_menu;

pub use context_menu::{ContextMenu, ContextMenuItem, MenuAction};
