//! Why a mirror's manifest could not be had.

use vstd::prelude::*;

verus! {

/// Why a manifest's text was rejected.
#[derive(Debug, Clone, PartialEq, Eq)]
pub enum Malformed {
    /// The text is not a flat table of semantic versions; the text is the
    /// decoder's report.
    Document(String),
    /// The text nests deeper than a manifest has any use for, and was not
    /// decoded.
    TooDeep,
}

/// Why one mirror gave no manifest.
#[derive(Debug, Clone, PartialEq, Eq)]
pub enum Error {
    /// The transport failed; the text is its report.
    Network(String),
    /// The mirror answered with a text that is no manifest.
    TomlSerde(Malformed),
}

/// An `Error` as contracts see it: strings by their characters.
pub enum Failure {
    Network(Seq<char>),
    Document(Seq<char>),
    TooDeep,
}

impl View for Error {
    type V = Failure;

    open spec fn view(&self) -> Failure {
        match *self {
            Error::Network(message) => Failure::Network(message@),
            Error::TomlSerde(Malformed::Document(e)) => Failure::Document(e@),
            Error::TomlSerde(Malformed::TooDeep) => Failure::TooDeep,
        }
    }
}

/// The line that reports a failure to a reader.
pub open spec fn message_of(failure: Failure) -> Seq<char> {
    match failure {
        Failure::Network(message) => "Network error: "@ + message,
        Failure::Document(message) => "Toml serde error: "@ + message,
        Failure::TooDeep => "Toml serde error: the document nests too deeply"@,
    }
}

impl Error {
    /// The line that reports this error to a reader.
    pub fn message(&self) -> (r: String)
        ensures
            r@ == message_of(self@),
    {
        match self {
            Error::Network(message) => {
                let mut line = "Network error: ".to_owned();
                line.append(message.as_str());
                line
            },
            Error::TomlSerde(Malformed::Document(message)) => {
                let mut line = "Toml serde error: ".to_owned();
                line.append(message.as_str());
                line
            },
            Error::TomlSerde(Malformed::TooDeep) => {
                "Toml serde error: the document nests too deeply".to_owned()
            },
        }
    }
}

} // verus!
