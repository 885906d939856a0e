//! Theme synchronisation and tab-bar layout logic of herdr, with its contracts.
pub mod clock;
pub mod config_edit;
pub mod diff_view;
pub mod json;
pub mod mapping;
pub mod nvim_sync;
pub mod palette;
pub mod tab_bar;
pub mod tabs;
pub mod text;
pub mod theme_sync;
