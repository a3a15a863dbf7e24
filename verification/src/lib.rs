//! A library for browsing, previewing and switching Alacritty colour themes.
pub mod cli;
pub mod config;
pub mod downloader;
pub mod error;
pub mod picker;
pub mod seqs;
pub mod switcher;
pub mod text;
pub mod themes;
pub mod tui;
