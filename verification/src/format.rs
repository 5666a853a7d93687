//! The two configuration formats, and the choice between them by the
//! extension of the configuration file's name.

use crate::config::RootConfiguration;
use crate::error::ParseError;
use crate::find::{file_extension, split_position};
use crate::markup::markup_document;
use crate::parser::{configured, markup_config, parse_kdl_configuration};
use crate::text::text_eq;
use crate::yaml::yaml_document;
use crate::yaml_parser::{parse_yaml_configuration, yaml_config};
use vstd::prelude::*;

verus! {

/// A configuration format.
#[derive(Clone, Copy, Debug, PartialEq, Eq, Structural)]
pub enum ConfigFormat {
    /// The structured-markup format, of files named `*.kdl`.
    Kdl,
    /// The conventional serialization format, of files named `*.yml` or
    /// `*.yaml`.
    Yaml,
}

/// The format that goes with an extension.
pub open spec fn format_named(extension: Option<Seq<char>>) -> Option<ConfigFormat> {
    match extension {
        Some(e) => if e == "kdl"@ {
            Some(ConfigFormat::Kdl)
        } else if e == "yml"@ || e == "yaml"@ {
            Some(ConfigFormat::Yaml)
        } else {
            None
        },
        None => None,
    }
}

/// The format of the configuration file named `file_name`, by its
/// extension.
pub fn format_of(file_name: &str) -> (format: Option<ConfigFormat>)
    ensures
        format == format_named(file_extension(file_name@)),
{
    match split_position(file_name) {
        Some(dot) => {
            let end: usize = file_name.unicode_len();
            let extension = file_name.substring_char(dot + 1, end);
            assert(extension@ =~= file_name@.skip(dot + 1));
            if text_eq(extension, "kdl") {
                Some(ConfigFormat::Kdl)
            } else if text_eq(extension, "yml") || text_eq(extension, "yaml") {
                Some(ConfigFormat::Yaml)
            } else {
                None
            }
        },
        None => None,
    }
}

/// `found` is what a text holds when read in the given format.
pub open spec fn reads_as(
    format: ConfigFormat,
    contents: Seq<char>,
    found: Result<RootConfiguration, ParseError>,
) -> bool {
    match format {
        ConfigFormat::Kdl => match markup_document(contents) {
            Some(document) => configured(found, markup_config(document)),
            None => found is Err && found->Err_0 == ParseError::Syntax,
        },
        ConfigFormat::Yaml => match yaml_document(contents) {
            Some(value) => configured(found, yaml_config(value)),
            None => found is Err && found->Err_0 == ParseError::Syntax,
        },
    }
}

/// Reads a configuration text in the given format.
pub fn parse_as(format: ConfigFormat, contents: &str) -> (found: Result<
    RootConfiguration,
    ParseError,
>)
    ensures
        reads_as(format, contents@, found),
{
    match format {
        ConfigFormat::Kdl => parse_kdl_configuration(contents),
        ConfigFormat::Yaml => parse_yaml_configuration(contents),
    }
}

/// Reads the contents of the configuration file named `file_name`, in the
/// format that goes with the extension of the name. A name without the
/// extension of a supported format is rejected.
pub fn parse_configuration(file_name: &str, contents: &str) -> (found: Result<
    RootConfiguration,
    ParseError,
>)
    ensures
        match format_named(file_extension(file_name@)) {
            Some(format) => reads_as(format, contents@, found),
            None => found is Err && found->Err_0 == ParseError::UnknownFormat,
        },
{
    match format_of(file_name) {
        Some(format) => parse_as(format, contents),
        None => Err(ParseError::UnknownFormat),
    }
}

} // verus!
