//! Verified core of a file-conversion assistant.
pub mod ext;
pub mod file_type;
pub mod text;
pub mod convert;
pub mod keys;
pub mod launch_request;
pub mod overlay_geometry;
pub mod settings;
pub mod themes;
pub mod integration;
pub mod file_manager;
pub mod modifier_hook;
pub mod single_instance;
pub mod window_focus;
pub mod explorer_selection;
