//! Which text format a definition file is written in, judged by its extension.
use vstd::prelude::*;
use crate::validation::text_eq;

verus! {

/// The lowercase form of `s`.
pub uninterp spec fn lower_of(s: Seq<char>) -> Seq<char>;

/// Relies on `str::to_lowercase`: the lowercase form of `s`, which depends on
/// the characters of `s` alone.
#[verifier::external_body]
fn lowercase(s: &str) -> (r: String)
    ensures
        r@ == lower_of(s@),
{
    s.to_lowercase()
}

/// A text format that definitions can be written in.
#[derive(Clone, Copy, Debug, PartialEq, Eq, Structural)]
pub enum ConfigFormat {
    Yaml,
    Json,
    Toml,
}

/// The format of a lowercase extension.
pub open spec fn format_of(ext: Seq<char>) -> Option<ConfigFormat> {
    if ext == "yaml"@ || ext == "yml"@ {
        Some(ConfigFormat::Yaml)
    } else if ext == "json"@ {
        Some(ConfigFormat::Json)
    } else if ext == "toml"@ {
        Some(ConfigFormat::Toml)
    } else {
        None
    }
}

impl ConfigFormat {
    /// The format that an already lowercase extension names.
    pub fn from_lowercase_extension(ext: &str) -> (r: Option<Self>)
        ensures
            r == format_of(ext@),
    {
        if text_eq(ext, "yaml") || text_eq(ext, "yml") {
            Some(ConfigFormat::Yaml)
        } else if text_eq(ext, "json") {
            Some(ConfigFormat::Json)
        } else if text_eq(ext, "toml") {
            Some(ConfigFormat::Toml)
        } else {
            None
        }
    }

    /// The format that a file extension names, in any letter case.
    pub fn from_extension(ext: &str) -> (r: Option<Self>)
        ensures
            r == format_of(lower_of(ext@)),
    {
        let lower = lowercase(ext);
        Self::from_lowercase_extension(lower.as_str())
    }
}

} // verus!
