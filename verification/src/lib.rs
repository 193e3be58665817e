//! The verified core of Patter, a local-first dictation and meeting-notes app.
pub mod text;
pub mod whisper;
pub mod ollama;
pub mod db;
pub mod registry;
pub mod tray;
pub mod recording;
pub mod meeting;
pub mod commands;
pub mod permissions;
pub mod audio;
pub mod paste;
pub mod digest;
