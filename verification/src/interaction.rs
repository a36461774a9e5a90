//! Decides how an interaction query continues once the client answered it:
//! an approved web search or web fetch starts that work, anything else
//! completes the tool call with the client's answer.
use vstd::prelude::*;

use crate::error::Error;
use crate::json::{get_member, json_get, Json, JsonV};
use crate::model::{ToolCall, ToolCallV};
use crate::stream::{normalized, normalized_name};
use crate::text::{chars_of, str_eq, trim, trim_chars};

verus! {

/// What the client answered to an interaction query, as far as the
/// continuation depends on it.
#[derive(Clone, Copy, Debug, PartialEq, Eq, Structural)]
pub enum InteractionReply {
    /// A web search request that the user approved.
    WebSearchApproved,
    /// A web fetch request that the user approved.
    WebFetchApproved,
    /// Any other answer, including a rejected request.
    Other,
}

/// How a pending interaction continues.
#[derive(Debug)]
pub enum Continuation {
    /// Run a web search for this query; its result completes the call later.
    SearchWeb(String),
    /// Fetch this URL; its result completes the call later.
    FetchWeb(String),
    /// The client's answer completes the call now.
    Complete,
}

/// The abstract form of a [`Continuation`].
pub enum ContinuationV {
    SearchWeb(Seq<char>),
    FetchWeb(Seq<char>),
    Complete,
}

impl Continuation {
    pub open spec fn view_continuation(&self) -> ContinuationV {
        match self {
            Continuation::SearchWeb(q) => ContinuationV::SearchWeb(q@),
            Continuation::FetchWeb(u) => ContinuationV::FetchWeb(u@),
            Continuation::Complete => ContinuationV::Complete,
        }
    }
}

/// The string argument under `key`, when it holds more than white space.
pub open spec fn nonblank_argument(arguments: JsonV, key: Seq<char>) -> Option<Seq<char>> {
    match json_get(arguments, key) {
        Some(JsonV::Str(s)) => if trim(s).len() > 0 {
            Some(s)
        } else {
            None
        },
        _ => None,
    }
}

/// How an answered interaction continues, or the protocol error that stops it.
pub open spec fn continuation_of(call: ToolCallV, reply: InteractionReply) -> Result<ContinuationV, Seq<char>> {
    let tool = normalized_name(call.name);
    if tool == "websearch"@ && reply == InteractionReply::WebSearchApproved {
        match nonblank_argument(call.arguments, "search_term"@) {
            Some(query) => Ok(ContinuationV::SearchWeb(query)),
            None => Err("WebSearch is missing search_term"@),
        }
    } else if tool == "webfetch"@ && reply == InteractionReply::WebFetchApproved {
        match nonblank_argument(call.arguments, "url"@) {
            Some(url) => Ok(ContinuationV::FetchWeb(url)),
            None => Err("WebFetch is missing url"@),
        }
    } else {
        Ok(ContinuationV::Complete)
    }
}

/// The string argument under `key`, when it holds more than white space.
fn nonblank_string(arguments: &Json, key: &str) -> (r: Option<String>)
    ensures
        match nonblank_argument(arguments.view_json(), key@) {
            Some(s) => r matches Some(v) && v@ == s,
            None => r is None,
        },
{
    match get_member(arguments, key) {
        Some(Json::Str(s)) => {
            let trimmed = trim_chars(&chars_of(s.as_str()));
            if trimmed.len() > 0 {
                Some(s.clone())
            } else {
                None
            }
        },
        _ => None,
    }
}

/// The URL that an approved web fetch reads.
pub fn web_fetch_url(call: &ToolCall) -> (r: Result<String, Error>)
    ensures
        match nonblank_argument(call@.arguments, "url"@) {
            Some(url) => r matches Ok(u) && u@ == url,
            None => r matches Err(Error::Protocol(m)) && m@ == "WebFetch is missing url"@,
        },
{
    match nonblank_string(&call.arguments, "url") {
        Some(url) => Ok(url),
        None => Err(Error::Protocol(String::from_str("WebFetch is missing url"))),
    }
}

/// The query that an approved web search runs.
pub fn web_search_query(call: &ToolCall) -> (r: Result<String, Error>)
    ensures
        match nonblank_argument(call@.arguments, "search_term"@) {
            Some(query) => r matches Ok(q) && q@ == query,
            None => r matches Err(Error::Protocol(m)) && m@ == "WebSearch is missing search_term"@,
        },
{
    match nonblank_string(&call.arguments, "search_term") {
        Some(query) => Ok(query),
        None => Err(Error::Protocol(String::from_str("WebSearch is missing search_term"))),
    }
}

/// Decides how a pending interaction continues after the client's answer.
pub fn resume(call: &ToolCall, reply: InteractionReply) -> (r: Result<Continuation, Error>)
    ensures
        match continuation_of(call@, reply) {
            Ok(c) => r matches Ok(k) && k.view_continuation() == c,
            Err(m) => r matches Err(Error::Protocol(e)) && e@ == m,
        },
{
    let tool = normalized(call.name.as_str());
    if str_eq(tool.as_str(), "websearch") && reply == InteractionReply::WebSearchApproved {
        match web_search_query(call) {
            Ok(query) => Ok(Continuation::SearchWeb(query)),
            Err(e) => Err(e),
        }
    } else if str_eq(tool.as_str(), "webfetch") && reply == InteractionReply::WebFetchApproved {
        match web_fetch_url(call) {
            Ok(url) => Ok(Continuation::FetchWeb(url)),
            Err(e) => Err(e),
        }
    } else {
        Ok(Continuation::Complete)
    }
}

} // verus!
