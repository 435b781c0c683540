//! Reading document text into the value tree of the `toml` crate.

use vstd::prelude::*;

verus! {

#[verifier::external_type_specification]
#[verifier::external_body]
pub struct ExTomlValue(toml::Value);

#[verifier::external_type_specification]
#[verifier::external_body]
pub struct ExTomlError(toml::de::Error);

/// Whether `toml` reads `text` as a well-formed document. The parser is a
/// function of the text alone.
pub uninterp spec fn toml_accepts(text: Seq<char>) -> bool;

/// Relies on toml's `FromStr for Value` (`toml::from_str`): it parses the
/// whole text as a document and succeeds exactly on the texts it accepts.
#[verifier::external_body]
fn toml_parse(text: &str) -> (r: Result<toml::Value, toml::de::Error>)
    ensures
        r is Ok <==> toml_accepts(text@),
{
    text.parse::<toml::Value>()
}

/// Relies on toml's `Display for de::Error`: the parser's description of
/// what went wrong and where.
#[verifier::external_body]
fn toml_error_text(e: &toml::de::Error) -> (r: String) {
    e.to_string()
}

/// Why document text could not be read as a document.
#[derive(Debug)]
pub struct ParseError {
    /// The parser's description of the fault.
    pub detail: String,
}

/// Parses document text.
pub fn parse_document(text: &str) -> (r: Result<toml::Value, ParseError>)
    ensures
        r is Ok <==> toml_accepts(text@),
{
    match toml_parse(text) {
        Ok(v) => Ok(v),
        Err(e) => Err(ParseError { detail: toml_error_text(&e) }),
    }
}

} // verus!
