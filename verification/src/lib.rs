//! Lattice: the decision logic behind a tinted, tag-aware file browser.
pub mod text;
pub mod path;
pub mod number;
pub mod format;
pub mod model;
pub mod sort;
pub mod keys;
pub mod search;
pub mod views;
pub mod clipboard;
pub mod dedup;
pub mod triage;
pub mod naming;
pub mod completion;
pub mod launch;
pub mod tabs;
pub mod tint;
pub mod tag_filter;
pub mod drives;
pub mod space;
pub mod media;
pub mod labels;
pub mod picker;
pub mod batch;
pub mod actions;
pub mod sidebar;
pub mod preview;
pub mod parents;
pub mod locations;
