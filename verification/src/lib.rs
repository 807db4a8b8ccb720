//! Verified core of a screenshot overlay: desktop geometry, selection
//! editing, overlay widget ownership, annotation rasterising and the
//! capture-session state machine.

pub mod annotations;
pub mod capture;
pub mod cli;
pub mod cpu_renderer;
pub mod cursor;
pub mod desktop_geometry;
pub mod frame;
pub mod hotkeys;
pub mod image_buffer;
pub mod overlay_ui;
pub mod selection_geometry;
pub mod session;
