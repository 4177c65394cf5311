//! What an extraction yields, and the errors of the tracker.

use vstd::prelude::*;

verus! {

/// The fields read from a shop page: its title, and the price text, which
/// holds the digits of the price with a point as the decimal separator.
#[derive(Debug)]
pub struct PageText {
    pub title: String,
    pub price_text: String,
}

/// Errors of the tracker.
#[derive(Debug)]
pub enum Error {
    /// A page was fetched but its information could not be read.
    ExtractPageInfoError(String),
    /// A page could not be fetched.
    HttpGetError(String),
}

impl Error {
    /// The message that describes the error.
    pub fn describe(&self) -> (s: String)
        ensures
            s@ == match self {
                Error::ExtractPageInfoError(inner) => "Error extracting page info: "@ + inner@,
                Error::HttpGetError(inner) => "Error getting page: "@ + inner@,
            },
    {
        match self {
            Error::ExtractPageInfoError(inner) => {
                let mut s = "Error extracting page info: ".to_owned();
                s.append(inner.as_str());
                s
            },
            Error::HttpGetError(inner) => {
                let mut s = "Error getting page: ".to_owned();
                s.append(inner.as_str());
                s
            },
        }
    }
}

} // verus!
