//! The failures a request can end in.

use vstd::prelude::*;

verus! {

/// A part of the provider's answer that a feed document cannot do without.
#[derive(Debug, Clone, Copy, PartialEq, Eq, Structural)]
pub enum Field {
    /// The `"request"` category, or its first record.
    Request,
    /// The `"nextPage"` category, or its first record.
    NextPage,
    /// `title` of the request record.
    Title,
    /// `searchTerms` of the request record.
    SearchTerms,
    /// `totalResults` of the request record.
    TotalResults,
    /// `startIndex` of the request record.
    StartIndex,
    /// `startIndex` of the next-page record.
    NextStartIndex,
}

#[derive(Debug, Clone, Copy, PartialEq, Eq, Structural)]
pub enum Failure {
    /// The inbound request carries no usable query.
    Validation,
    /// The outbound transfer could not be started or did not complete.
    Transport,
    /// The provider answered with a status outside 200..=299.
    Status(u32),
    /// The provider's body is not the expected JSON.
    Decode,
    /// The provider's answer lacks a required part.
    MissingField(Field),
    /// The total-results text is not a decimal number that fits 64 bits.
    InvalidTotal,
    /// The document writer refused an element.
    Writer,
    /// The written document is not UTF-8.
    Encoding,
}

impl Field {
    /// The name under which the part appears in diagnostics.
    pub fn name(self) -> (s: &'static str)
        ensures
            s@ == self.spec_name(),
    {
        match self {
            Field::Request => "request",
            Field::NextPage => "nextPage",
            Field::Title => "request.title",
            Field::SearchTerms => "request.searchTerms",
            Field::TotalResults => "request.totalResults",
            Field::StartIndex => "request.startIndex",
            Field::NextStartIndex => "nextPage.startIndex",
        }
    }

    pub open spec fn spec_name(self) -> Seq<char> {
        match self {
            Field::Request => "request"@,
            Field::NextPage => "nextPage"@,
            Field::Title => "request.title"@,
            Field::SearchTerms => "request.searchTerms"@,
            Field::TotalResults => "request.totalResults"@,
            Field::StartIndex => "request.startIndex"@,
            Field::NextStartIndex => "nextPage.startIndex"@,
        }
    }
}

impl Failure {
    /// The status that a caller of the service sees for this failure:
    /// 400 for a bad request, 500 for everything else.
    pub fn status(self) -> (code: u16)
        ensures
            code == self.spec_status(),
    {
        match self {
            Failure::Validation => 400,
            _ => 500,
        }
    }

    pub open spec fn spec_status(self) -> u16 {
        if self == Failure::Validation { 400 } else { 500 }
    }
}

} // verus!
