//! Responses of the Kagi Search and Extract APIs.
use vstd::prelude::*;

verus! {

/// Metadata returned with every API response.
#[derive(Debug, Clone)]
pub struct Meta {
    /// Trace ID of the request.
    pub trace: String,
    /// Hostname of the node that fulfilled the request.
    pub node: Option<String>,
    /// How long the request took, in milliseconds.
    pub ms: Option<u64>,
}

/// An image associated with a search result.
#[derive(Debug, Clone)]
pub struct Image {
    /// URL of the image.
    pub url: String,
    /// Height of the image.
    pub height: Option<u32>,
    /// Width of the image.
    pub width: Option<u32>,
}

/// The per-result metadata (`props`) that the formatter and the grouping
/// logic read. Each field is present only when the API sent the key with a
/// value of the expected JSON type.
#[derive(Debug, Clone)]
pub struct ResultProps {
    /// `question` (a string) on related-question results.
    pub question: Option<String>,
    /// `group_id` (a string): the domain a result is grouped under.
    pub group_id: Option<String>,
    /// `infobox` (an object) as key/value pairs; non-string values are
    /// rendered as JSON text. The formatter lists them in key order.
    pub infobox: Option<Vec<(String, String)>>,
    /// `paywalled` (a boolean).
    pub paywalled: Option<bool>,
    /// `ai_generated` (a boolean).
    pub ai_generated: Option<bool>,
    /// `ai_possible` (a boolean).
    pub ai_possible: Option<bool>,
    /// `language` (a string): ISO 639-1 code.
    pub language: Option<String>,
    /// `duration` (a string) on audio and video results.
    pub duration: Option<String>,
}

impl ResultProps {
    /// Properties with no key set.
    pub fn empty() -> (r: ResultProps)
        ensures
            r.question is None,
            r.group_id is None,
            r.infobox is None,
            r.paywalled is None,
            r.ai_generated is None,
            r.ai_possible is None,
            r.language is None,
            r.duration is None,
    {
        ResultProps {
            question: None,
            group_id: None,
            infobox: None,
            paywalled: None,
            ai_generated: None,
            ai_possible: None,
            language: None,
            duration: None,
        }
    }
}

/// A single search result.
#[derive(Debug, Clone)]
pub struct SearchResult {
    /// The location of the result.
    pub url: String,
    /// The title of the resource.
    pub title: String,
    /// A short summary of the resource.
    pub snippet: Option<String>,
    /// When the resource was created or last updated.
    pub time: Option<String>,
    /// An image that goes with the resource.
    pub image: Option<Image>,
    /// Per-result metadata.
    pub props: Option<ResultProps>,
}

/// The results of a search, by category.
#[derive(Debug, Clone)]
pub struct SearchData {
    pub search: Option<Vec<SearchResult>>,
    pub image: Option<Vec<SearchResult>>,
    pub video: Option<Vec<SearchResult>>,
    pub podcast: Option<Vec<SearchResult>>,
    pub podcast_creator: Option<Vec<SearchResult>>,
    pub news: Option<Vec<SearchResult>>,
    pub adjacent_question: Option<Vec<SearchResult>>,
    pub direct_answer: Option<Vec<SearchResult>>,
    pub interesting_news: Option<Vec<SearchResult>>,
    pub interesting_finds: Option<Vec<SearchResult>>,
    pub infobox: Option<Vec<SearchResult>>,
    pub code: Option<Vec<SearchResult>>,
    pub package_tracking: Option<Vec<SearchResult>>,
    pub public_records: Option<Vec<SearchResult>>,
    pub weather: Option<Vec<SearchResult>>,
    pub related_search: Option<Vec<SearchResult>>,
    pub listicle: Option<Vec<SearchResult>>,
    pub web_archive: Option<Vec<SearchResult>>,
}

impl SearchData {
    /// Data with every category absent.
    pub fn empty() -> (r: SearchData)
        ensures
            r.search is None && r.image is None && r.video is None && r.podcast is None
                && r.podcast_creator is None && r.news is None && r.adjacent_question is None
                && r.direct_answer is None && r.interesting_news is None
                && r.interesting_finds is None && r.infobox is None && r.code is None
                && r.package_tracking is None && r.public_records is None && r.weather is None
                && r.related_search is None && r.listicle is None && r.web_archive is None,
    {
        SearchData {
            search: None,
            image: None,
            video: None,
            podcast: None,
            podcast_creator: None,
            news: None,
            adjacent_question: None,
            direct_answer: None,
            interesting_news: None,
            interesting_finds: None,
            infobox: None,
            code: None,
            package_tracking: None,
            public_records: None,
            weather: None,
            related_search: None,
            listicle: None,
            web_archive: None,
        }
    }
}

/// A Kagi search response.
#[derive(Debug, Clone)]
pub struct SearchResponse {
    /// Debugging metadata.
    pub meta: Meta,
    /// The results, by category.
    pub data: SearchData,
}

/// Extracted content for a single page.
#[derive(Debug, Clone, PartialEq, Eq)]
pub struct ExtractData {
    /// The URL of the extracted page.
    pub url: String,
    /// The page's content as markdown.
    pub markdown: Option<String>,
}

/// An extraction failure for a single page.
#[derive(Debug, Clone, PartialEq, Eq)]
pub struct ExtractError {
    /// The URL that failed.
    pub url: String,
    /// Namespaced error code.
    pub code: String,
    /// Human-readable error message.
    pub message: Option<String>,
}

/// An extract response from the Kagi Extract API.
#[derive(Debug, Clone)]
pub struct ExtractResponse {
    /// Debugging metadata.
    pub meta: Meta,
    /// Extracted pages.
    pub data: Option<Vec<ExtractData>>,
    /// Pages that failed.
    pub errors: Option<Vec<ExtractError>>,
}

} // verus!
