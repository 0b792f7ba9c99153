//! Navigation core of a terminal directory browser: sorted listings, panes with
//! focus and scroll state, a pane cache keyed by path, and the navigator that
//! moves between parent, current and preview panes.

pub mod color_pair;
pub mod directory_view;
pub mod entry;
pub mod file_type;
pub mod key_path;
pub mod listing;
pub mod metadata;
pub mod mime;
pub mod name_order;
pub mod opt;
pub mod palette;
pub mod path;
pub mod screen;
pub mod settings;
pub mod size;
pub mod sorted;
pub mod tab_view;
pub mod view_cache;
pub mod view_ratio;
