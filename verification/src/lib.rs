//! Core logic of a terminal tool that picks nixpkgs packages into a
//! direnv-managed flake: the interactive picker state, the staging basket file
//! format, the search backend protocol and the text the tool shows.

pub mod app;
pub mod basket;
pub mod cli;
pub mod keys;
pub mod package;
pub mod screen;
pub mod search;
pub mod text;
