pub mod text;
pub mod models;
pub mod tools;
pub mod paths;
pub mod ffmpeg;
pub mod sidecar;
pub mod state_cmd;
pub mod models_cmd;
pub mod config;
