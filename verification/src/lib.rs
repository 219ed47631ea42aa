//! Turns Bilibili videos into readable, source-checked Markdown.
//!
//! The crate holds the decisions of the application: which video an input
//! names, which runtime may run, which generated text may be kept, and what the
//! documents and screens show. Everything here is computed from plain values;
//! files, processes, the network and the clock belong to the program around it.

pub mod bilibili;
pub mod cancel;
pub mod cli;
pub mod config;
pub mod content_results;
pub mod desktop;
pub mod document;
pub mod funasr;
pub mod ids;
pub mod jobs;
pub mod json;
pub mod paths;
pub mod presentation;
pub mod reading_time;
pub mod smoke;
pub mod text;
pub mod unicode;
