pub mod buffer;
pub mod config;
pub mod disc;
pub mod disc_meta;
pub mod engine;
pub mod ffi;
pub mod file_status;
pub mod json;
pub mod lyrics;
pub mod media_library;
pub mod model;
pub mod order;
pub mod queue;
pub mod shuffle;
pub mod text;
