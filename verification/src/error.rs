//! The ways in which a crawl fails.

use vstd::prelude::*;

verus! {

/// A field that every course page must state.
#[derive(Clone, Copy, Debug, PartialEq, Eq)]
pub enum RequiredField {
    Title,
    Subject,
    Code,
}

/// Why a crawl stopped.
#[derive(Clone, Debug, PartialEq, Eq)]
pub enum CrawlError {
    /// Every attempt to fetch the URL failed.
    FetchExhausted { url: String },
    /// The page lacks a field that it must state.
    MissingField(RequiredField),
    /// The schedule data lacks the node that names its session.
    MissingSelection,
}

/// The mathematical value of a [`CrawlError`].
pub enum CrawlErrorView {
    FetchExhausted { url: Seq<char> },
    MissingField(RequiredField),
    MissingSelection,
}

impl DeepView for CrawlError {
    type V = CrawlErrorView;

    open spec fn deep_view(&self) -> CrawlErrorView {
        match self {
            CrawlError::FetchExhausted { url } => CrawlErrorView::FetchExhausted { url: url@ },
            CrawlError::MissingField(f) => CrawlErrorView::MissingField(*f),
            CrawlError::MissingSelection => CrawlErrorView::MissingSelection,
        }
    }
}

impl CrawlError {
    /// A message for the error, fit for a log or a terminal.
    pub fn message(&self) -> (r: String)
        ensures
            r@ == match self {
                CrawlError::FetchExhausted { url } => "request failed after all retries: "@ + url@,
                CrawlError::MissingField(RequiredField::Title) => "course page has no title"@,
                CrawlError::MissingField(RequiredField::Subject) => "course page has no subject"@,
                CrawlError::MissingField(RequiredField::Code) => "course page has no code"@,
                CrawlError::MissingSelection => "schedule has no selection node"@,
            },
    {
        match self {
            CrawlError::FetchExhausted { url } => crate::text::concat2(
                "request failed after all retries: ",
                url.as_str(),
            ),
            CrawlError::MissingField(RequiredField::Title) => "course page has no title".to_owned(),
            CrawlError::MissingField(RequiredField::Subject) => "course page has no subject".to_owned(),
            CrawlError::MissingField(RequiredField::Code) => "course page has no code".to_owned(),
            CrawlError::MissingSelection => "schedule has no selection node".to_owned(),
        }
    }
}

} // verus!
