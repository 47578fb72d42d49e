//! Verified core of `vdl`, a terminal video downloader: argument normalisation,
//! config path handling, filename and size rendering, helper-binary paths,
//! and the decisions behind the local download server.

pub mod text;
pub mod config;
pub mod cli;
pub mod commands;
pub mod sandbox;
pub mod downloader;
pub mod server;
pub mod laws;
