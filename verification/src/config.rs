//! The configuration: the list of directories that a batch works through.

use vstd::prelude::*;

verus! {

/// `serde_json::Error`, carried through as it comes.
#[verifier::external_type_specification]
#[verifier::external_body]
pub struct ExJsonError(serde_json::Error);

/// The list of strings that `serde_json::from_str` reads from `text`, or
/// `None` where `text` is no JSON array of strings.
pub uninterp spec fn json_string_list(text: Seq<char>) -> Option<Seq<Seq<char>>>;

/// `serde_json::from_str`, asked for a list of strings. It succeeds exactly
/// when the text is a JSON array of strings, and what it returns depends on
/// the text alone.
#[verifier::external_body]
fn parse_string_list(text: &str) -> (r: Result<Vec<String>, serde_json::Error>)
    ensures
        r is Ok <==> json_string_list(text@) is Some,
        r matches Ok(list) ==> json_string_list(text@) == Some(list.deep_view()),
{
    serde_json::from_str::<Vec<String>>(text)
}

/// The message of a `serde_json::Error`, as its `Display` writes it.
/// Nothing is claimed of the text.
#[verifier::external_body]
fn describe(error: &serde_json::Error) -> (r: String) {
    error.to_string()
}

/// The configuration text is no list of directories.
#[derive(Clone, Debug, PartialEq, Eq)]
pub struct ConfigError {
    /// What the parser said of the text.
    pub message: String,
}

/// Reads the list of directories from the text of the configuration, a
/// JSON array of strings. The directories come in the order of the array.
pub fn parse_directories(text: &str) -> (r: Result<Vec<String>, ConfigError>)
    ensures
        r is Ok <==> json_string_list(text@) is Some,
        r matches Ok(directories) ==> json_string_list(text@) == Some(directories.deep_view()),
{
    match parse_string_list(text) {
        Ok(directories) => Ok(directories),
        Err(error) => Err(ConfigError { message: describe(&error) }),
    }
}

} // verus!
