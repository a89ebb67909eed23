//! The file formats messages can be exported to.
use vstd::prelude::*;

use crate::strings::{lower_of, lowercase, str_eq};

verus! {

/// The type of file to export messages into.
#[derive(Debug, Clone, Copy, PartialEq, Eq, Structural)]
pub enum ExportType {
    Html,
    Txt,
    Json,
}

/// The export type a lowercase name stands for.
pub open spec fn export_type_named(name: Seq<char>) -> Option<ExportType> {
    if name == "txt"@ {
        Some(ExportType::Txt)
    } else if name == "html"@ {
        Some(ExportType::Html)
    } else if name == "json"@ {
        Some(ExportType::Json)
    } else {
        None
    }
}

impl ExportType {
    /// The export type named by an already lowercase name.
    pub fn from_lowercase(name: &str) -> (r: Option<Self>)
        ensures
            r == export_type_named(name@),
    {
        if str_eq(name, "txt") {
            Some(ExportType::Txt)
        } else if str_eq(name, "html") {
            Some(ExportType::Html)
        } else if str_eq(name, "json") {
            Some(ExportType::Json)
        } else {
            None
        }
    }

    /// The export type named by the user, in any case.
    pub fn from_cli(platform: &str) -> (r: Option<Self>)
        ensures
            r == export_type_named(lower_of(platform@)),
    {
        let lower = lowercase(platform);
        Self::from_lowercase(lower.as_str())
    }

    /// The file name extension of the export type.
    pub fn extension(&self) -> (r: &'static str)
        ensures
            r@ == match self {
                ExportType::Html => ".html"@,
                ExportType::Txt => ".txt"@,
                ExportType::Json => ".json"@,
            },
    {
        match self {
            ExportType::Html => ".html",
            ExportType::Txt => ".txt",
            ExportType::Json => ".json",
        }
    }

    /// The name of the export type, as the user writes it.
    pub fn name(&self) -> (r: &'static str)
        ensures
            r@ == match self {
                ExportType::Html => "html"@,
                ExportType::Txt => "txt"@,
                ExportType::Json => "json"@,
            },
    {
        match self {
            ExportType::Txt => "txt",
            ExportType::Html => "html",
            ExportType::Json => "json",
        }
    }
}

} // verus!
