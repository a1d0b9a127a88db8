//! Verified core of the arXiv paper workspace tool.
#![allow(unused_imports)]

pub mod error;
pub mod text;
pub mod tex;
pub mod body;
pub mod ids;
pub mod manifest;
pub mod workspace;
pub mod cli;
pub mod net;
pub mod chat;
pub mod stream;
pub mod repl;
pub mod batch;
pub mod inputs;
pub mod expand;
pub mod extract;
pub mod arxiv;
pub mod config;
pub mod tui;
pub mod edit;
pub mod keys;
pub mod mouse;
pub mod summary;
pub mod rows;
