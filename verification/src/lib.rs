//! A terminal music player: its library, its search, its shell and its full-screen view.

pub mod app;
pub mod areas;
pub mod audio_backend;
pub mod audio_backend_wasapi;
pub mod commands;
pub mod config;
pub mod db;
pub mod decoder;
pub mod device;
pub mod error;
pub mod library;
pub mod metadata;
pub mod paths;
pub mod playback;
pub mod scanner;
pub mod search;
pub mod seqs;
pub mod shell;
pub mod sorting;
pub mod targets;
pub mod text;
pub mod tui;
