//! Talking to Wikipedia: the commands the interface sends to the network
//! worker, the events it gets back, and the pure parts of each request (its
//! parameters) and of each reply (what is kept of it).
use vstd::prelude::*;
use crate::feed::algorithm::FeedItem;

pub mod article;
pub mod daily_feed;
pub mod feed;
pub mod random;
pub mod search;

verus! {

/// One hit of a full-text search.
#[derive(Debug, Clone)]
pub struct SearchResultItem {
    pub title: String,
    pub snippet: String,
}

/// A request for the network worker.
#[derive(Debug)]
pub enum NetworkCommand {
    Search { pane_id: usize, request_id: u64, query: String },
    FetchArticle { pane_id: usize, request_id: u64, title: String },
    FetchRandomArticle { pane_id: usize, request_id: u64 },
    FetchFeedBatch,
}

/// What the network worker reports back.
#[derive(Debug)]
pub enum NetworkEvent {
    SearchResult { pane_id: usize, request_id: u64, query: String, results: Vec<SearchResultItem> },
    ArticleResult { pane_id: usize, request_id: u64, title: String, content: String },
    FeedBatchLoaded { items: Vec<FeedItem> },
    Error { pane_id: usize, request_id: u64, message: String },
}

/// What carrying out a command gave: the fetched data, or an error message.
#[derive(Debug)]
pub enum FetchOutcome {
    SearchResults(Vec<SearchResultItem>),
    Article(String),
    RandomArticle(String, String),
    FeedBatch(Vec<FeedItem>),
    Failed(String),
}

/// The event the worker sends for a command and its outcome: results go
/// back to the pane that asked, with the request's id; a failure becomes an error for that pane,
/// except for feed batches, whose failures are dropped; an outcome of the
/// wrong kind for the command sends nothing.
pub open spec fn worker_event(cmd: NetworkCommand, outcome: FetchOutcome) -> Option<NetworkEvent> {
    match cmd {
        NetworkCommand::Search { pane_id, request_id, query } => match outcome {
            FetchOutcome::SearchResults(results) => Some(
                NetworkEvent::SearchResult { pane_id, request_id, query, results },
            ),
            FetchOutcome::Failed(message) => Some(NetworkEvent::Error { pane_id, request_id, message }),
            _ => None,
        },
        NetworkCommand::FetchArticle { pane_id, request_id, title } => match outcome {
            FetchOutcome::Article(content) => Some(
                NetworkEvent::ArticleResult { pane_id, request_id, title, content },
            ),
            FetchOutcome::Failed(message) => Some(NetworkEvent::Error { pane_id, request_id, message }),
            _ => None,
        },
        NetworkCommand::FetchRandomArticle { pane_id, request_id } => match outcome {
            FetchOutcome::RandomArticle(title, content) => Some(
                NetworkEvent::ArticleResult { pane_id, request_id, title, content },
            ),
            FetchOutcome::Failed(message) => Some(NetworkEvent::Error { pane_id, request_id, message }),
            _ => None,
        },
        NetworkCommand::FetchFeedBatch => match outcome {
            FetchOutcome::FeedBatch(items) => Some(NetworkEvent::FeedBatchLoaded { items }),
            _ => None,
        },
    }
}

/// The event to send once `cmd` has been carried out with result `outcome`.
pub fn event_for(cmd: NetworkCommand, outcome: FetchOutcome) -> (r: Option<NetworkEvent>)
    ensures
        r == worker_event(cmd, outcome),
{
    match cmd {
        NetworkCommand::Search { pane_id, request_id, query } => match outcome {
            FetchOutcome::SearchResults(results) => Some(
                NetworkEvent::SearchResult { pane_id, request_id, query, results },
            ),
            FetchOutcome::Failed(message) => Some(NetworkEvent::Error { pane_id, request_id, message }),
            _ => None,
        },
        NetworkCommand::FetchArticle { pane_id, request_id, title } => match outcome {
            FetchOutcome::Article(content) => Some(
                NetworkEvent::ArticleResult { pane_id, request_id, title, content },
            ),
            FetchOutcome::Failed(message) => Some(NetworkEvent::Error { pane_id, request_id, message }),
            _ => None,
        },
        NetworkCommand::FetchRandomArticle { pane_id, request_id } => match outcome {
            FetchOutcome::RandomArticle(title, content) => Some(
                NetworkEvent::ArticleResult { pane_id, request_id, title, content },
            ),
            FetchOutcome::Failed(message) => Some(NetworkEvent::Error { pane_id, request_id, message }),
            _ => None,
        },
        NetworkCommand::FetchFeedBatch => match outcome {
            FetchOutcome::FeedBatch(items) => Some(NetworkEvent::FeedBatchLoaded { items }),
            _ => None,
        },
    }
}

/// A query parameter seen as two character sequences.
pub open spec fn param_view(p: (String, String)) -> (Seq<char>, Seq<char>) {
    (p.0@, p.1@)
}

/// Query parameters seen as pairs of character sequences.
pub open spec fn params_view(ps: Seq<(String, String)>) -> Seq<(Seq<char>, Seq<char>)> {
    ps.map_values(|p: (String, String)| param_view(p))
}

/// One query parameter `key=value`.
pub fn param(key: &str, value: &str) -> (r: (String, String))
    ensures
        param_view(r) == (key@, value@),
{
    (crate::text::string_of(key), crate::text::string_of(value))
}

/// `"network error: "` followed by the transport's message.
pub fn network_error(detail: &str) -> (r: String)
    ensures
        r@ == "network error: "@ + detail@,
{
    let mut s = crate::text::string_of("network error: ");
    crate::text::push_str(&mut s, detail);
    s
}

/// `"parse error: "` followed by the decoder's message.
pub fn parse_error(detail: &str) -> (r: String)
    ensures
        r@ == "parse error: "@ + detail@,
{
    let mut s = crate::text::string_of("parse error: ");
    crate::text::push_str(&mut s, detail);
    s
}

} // verus!
