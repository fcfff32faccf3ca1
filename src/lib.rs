pub mod audio;
pub mod catalog;
pub mod config;
pub mod estimate;
pub mod export;
pub mod import;
pub mod migrate;
pub mod nlm;
pub mod recording_index;
pub mod text;
pub mod titles;
pub mod transcribe;
