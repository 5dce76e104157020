//! RustTube's download-frontend logic: yt-dlp output parsing, progress
//! tracking, command construction, settings and the application state machine.
pub mod text;
pub mod decimal;
pub mod progress;
pub mod app_model;
pub mod settings;
pub mod runtime_tools;
pub mod preview;
pub mod icon;
pub mod app_state;
