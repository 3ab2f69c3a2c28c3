//! cargo-e: discovery, classification and command construction for the
//! runnable targets of a Cargo project, with the logic proved by Verus.
#![allow(unused_imports)]

pub mod text;
pub mod fmt;
pub mod paths;
pub mod target;
pub mod discovery;
pub mod cli;
pub mod command_builder;
pub mod diagnostics;
pub mod eventdispatcher;
pub mod process;
pub mod installer;
pub mod manifest;
pub mod pattern;
pub mod dispatch;
pub mod runner;
pub mod main_name;
pub mod runall;
pub mod runnable;
pub mod render;
pub mod report;
pub mod collect;
pub mod findmain;
pub mod samples;
pub mod bytepos;
pub mod status;
pub mod select;
pub mod version;
pub mod prompts;
pub mod registry;
