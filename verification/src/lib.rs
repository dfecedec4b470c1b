//! Decision logic of a small HTTP API that manages a `sing-box` configuration.
#![allow(unused_imports)]

pub mod answers;
pub mod auth;
pub mod check;
pub mod clock;
pub mod command;
pub mod config;
pub mod directory;
pub mod document;
pub mod download;
pub mod download_url;
pub mod error;
pub mod guarantees;
pub mod io;
pub mod json;
pub mod listing;
pub mod names;
pub mod path;
pub mod restore;
pub mod service;
pub mod snapshot;
pub mod text;
pub mod update;
pub mod utf8;
pub mod world;
