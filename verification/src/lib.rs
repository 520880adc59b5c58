//! Verified state and geometry of a terminal transcript workspace.

pub mod cell;
pub mod drawing;
pub mod events;
pub mod geometry;
pub mod image_previews;
pub mod keys;
pub mod layout_index;
pub mod lines;
pub mod local_previews;
pub mod overlay;
pub mod overlay_types;
pub mod overlays;
pub mod pager;
pub mod pets;
pub mod projection;
pub mod skill_catalog;
pub mod text;
pub mod thread_items;
pub mod transcript_cells;
pub mod sorted_set;
pub mod turns;
pub mod workspace_input;
