//! The error taxonomy of configuration resolution. Every failure is fatal to
//! the resolution that raised it; each variant carries the offending raw text
//! or path so callers can report it.

use vstd::prelude::*;
use crate::json::Doc;

verus! {

/// Why a configuration could not be resolved.
#[derive(Debug)]
pub enum ConfigError {
    /// A byte-size was given as the empty string.
    EmptyByteSize,
    /// A number field could not be parsed from the carried raw text.
    MalformedNumber(String),
    /// A number was syntactically valid but does not fit the field's range.
    NumberOutOfRange(String),
    /// A flag with the tool's prefix is not part of the schema.
    UnknownFlag(String),
    /// A flag that expects `=value` was given without one.
    MissingFlagValue(String),
    /// A document value has the wrong shape for the carried field key.
    WrongValueType(String),
    /// The environment variable's text is not a JSON document.
    EnvNotJson(String),
    /// The config file's text (comments stripped) is not a JSON document.
    ConfigFileNotJson(String),
    /// An explicit config-file override path names a missing file.
    ConfigFileNotFound(String),
    /// The merged document failed typed deserialization; carries the
    /// offending field key and the merged document itself, so the caller
    /// can report the full merged configuration alongside the error.
    MergedConfigInvalid(String, Doc),
}

impl ConfigError {
    /// A short human-readable phrase for the error category.
    pub fn describe(&self) -> (r: &'static str)
        ensures
            r@.len() > 0,
    {
        proof {
            reveal_strlit("empty byte-size input");
            reveal_strlit("could not parse number");
            reveal_strlit("number out of range");
            reveal_strlit("unknown flag");
            reveal_strlit("flag is missing its =value");
            reveal_strlit("field has the wrong type");
            reveal_strlit("environment variable does not hold valid JSON");
            reveal_strlit("config file does not hold valid JSON");
            reveal_strlit("config file not found");
            reveal_strlit("merged configuration failed to deserialize");
        }
        match self {
            ConfigError::EmptyByteSize => "empty byte-size input",
            ConfigError::MalformedNumber(_) => "could not parse number",
            ConfigError::NumberOutOfRange(_) => "number out of range",
            ConfigError::UnknownFlag(_) => "unknown flag",
            ConfigError::MissingFlagValue(_) => "flag is missing its =value",
            ConfigError::WrongValueType(_) => "field has the wrong type",
            ConfigError::EnvNotJson(_) => "environment variable does not hold valid JSON",
            ConfigError::ConfigFileNotJson(_) => "config file does not hold valid JSON",
            ConfigError::ConfigFileNotFound(_) => "config file not found",
            ConfigError::MergedConfigInvalid(_, _) => "merged configuration failed to deserialize",
        }
    }
}

} // verus!
