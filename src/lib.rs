//! Reads message bodies of the Messages database: a decoder for the typed
//! archive format they are stored in, a fallback decoder for older bodies,
//! and the reconstruction of attributed text from the decoded values, along
//! with the logic that classifies a message from its columns.

pub mod archive;
pub mod body;
pub mod dates;
pub mod error;
pub mod export_type;
pub mod grouping;
pub mod message;
pub mod message_types;
pub mod parse;
pub mod reader;
pub mod sanitizers;
pub mod streamtyped;
pub mod strings;
pub mod text;
pub mod typedstream;
pub mod truncation;
