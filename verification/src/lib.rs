//! Finders: fuzzy pickers that a configuration file defines.
//!
//! A Finder has a Source, which produces Entries, and an Outcome, which is what
//! choosing an Entry does. This crate decides everything about them that does
//! not need an editor: what a configuration file means, which Entries the output
//! of a command becomes, what a picker lists and says, where a command runs, and
//! what is done with the chosen Entry. The editor performs what it is asked to
//! and reports what came of it.
pub mod child;
pub mod config;
pub mod decode;
pub mod delegate;
pub mod diagnostic;
pub mod document;
pub mod generation;
pub mod json;
pub mod list;
pub mod locate;
pub mod model;
pub mod names;
pub mod open;
pub mod operations;
pub mod outcome;
pub mod parse;
pub mod platform;
pub mod preview;
pub mod registry;
pub mod remote;
pub mod source;
pub mod template;
pub mod text;

pub use config::{FinderConfig, Outcome, Preview, RunOn, Source};
pub use delegate::FinderDelegate;
pub use json::substitute_json;
pub use list::FinderListDelegate;
pub use open::{open_finder, open_finder_list, Open};
pub use parse::{parse_config, ParsedConfig};
pub use registry::{FinderListEntry, FinderLookup, FinderRegistry, CONFIG_FILE_NAME};
pub use source::{
    run_source, SourceEvent, SourceFailure, SourceUpdate, FLUSH_INTERVAL, MAX_ENTRIES,
    SOURCE_TIMEOUT,
};
pub use template::substitute_args;
