use cursor_server::error::Error;
use cursor_server::interaction::{resume, web_fetch_url, web_search_query, Continuation, InteractionReply};
use cursor_server::json::Json;
use cursor_server::model::ToolCall;

fn call(name: &str, members: Vec<(&str, Json)>) -> ToolCall {
    ToolCall {
        index: 0,
        call_id: "call".to_string(),
        model_call_id: "model-call".to_string(),
        name: name.to_string(),
        arguments_text: String::new(),
        arguments: Json::Object(members.into_iter().map(|(k, v)| (k.to_string(), v)).collect()),
    }
}

fn s(text: &str) -> Json {
    Json::Str(text.to_string())
}

#[test]
fn approved_web_search_runs_its_query() {
    let search = call("WebSearch", vec![("search_term", s(" rust verus "))]);
    match resume(&search, InteractionReply::WebSearchApproved).unwrap() {
        Continuation::SearchWeb(query) => assert_eq!(query, " rust verus "),
        other => panic!("unexpected {other:?}"),
    }
}

#[test]
fn approved_web_fetch_reads_its_url() {
    let fetch = call("web_fetch", vec![("url", s("https://example.com"))]);
    match resume(&fetch, InteractionReply::WebFetchApproved).unwrap() {
        Continuation::FetchWeb(url) => assert_eq!(url, "https://example.com"),
        other => panic!("unexpected {other:?}"),
    }
}

#[test]
fn other_answers_complete_the_call() {
    let search = call("WebSearch", vec![("search_term", s("rust"))]);
    assert!(matches!(resume(&search, InteractionReply::Other).unwrap(), Continuation::Complete));
    assert!(matches!(
        resume(&search, InteractionReply::WebFetchApproved).unwrap(),
        Continuation::Complete
    ));
    let shell = call("Shell", vec![]);
    assert!(matches!(
        resume(&shell, InteractionReply::WebSearchApproved).unwrap(),
        Continuation::Complete
    ));
}

#[test]
fn blank_or_missing_arguments_are_protocol_errors() {
    let blank = call("WebSearch", vec![("search_term", s("  \n"))]);
    match resume(&blank, InteractionReply::WebSearchApproved) {
        Err(Error::Protocol(message)) => assert_eq!(message, "WebSearch is missing search_term"),
        other => panic!("unexpected {other:?}"),
    }
    let missing = call("WebFetch", vec![("link", s("https://example.com"))]);
    match web_fetch_url(&missing) {
        Err(Error::Protocol(message)) => assert_eq!(message, "WebFetch is missing url"),
        other => panic!("unexpected {other:?}"),
    }
    let not_text = call("WebSearch", vec![("search_term", Json::Bool(true))]);
    assert!(web_search_query(&not_text).is_err());
}
