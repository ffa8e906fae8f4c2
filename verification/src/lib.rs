//! Utilities for a game-asset launcher: a content-integrity download
//! engine (length-selected digest algorithms, streaming hashing, and the
//! skip-if-already-valid rule), plus small filesystem option types, a
//! line-oriented options parser, and resource-pack metadata validation.

pub mod digest;
pub mod filesystem;
pub mod http;
pub mod mcmeta_parser;
pub mod options_parser;
pub mod text;
