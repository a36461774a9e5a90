use std::time::Duration;

use cursor_server::error::Error;
use cursor_server::json::Json;
use cursor_server::model::{ConversationId, ModelSpec, PromptSpec, RunId};
use cursor_server::router::{
    build, custom_headers, finish_stream, new_llm_call, plugin_routed_model, provider_config,
    provider_kind, require_model, route, stream_step, FinishAction, ModelInvocation, ModelLatency,
    PluginModel, ProviderKind, ProviderRouter, ProviderType, Route, StreamAction, StreamEvent,
    StreamStage, BUILTIN_PROVIDER_RETRIES,
};

fn object(members: Vec<(&str, Json)>) -> Json {
    Json::Object(members.into_iter().map(|(k, v)| (k.to_string(), v)).collect())
}

fn s(text: &str) -> Json {
    Json::Str(text.to_string())
}

fn config_message<T: std::fmt::Debug>(result: Result<T, Error>) -> String {
    match result {
        Err(Error::Config(message)) => message,
        other => panic!("expected a configuration error, got {other:?}"),
    }
}

#[test]
fn provider_types_map_to_their_providers() {
    assert_eq!(provider_kind(ProviderType::OpenAiChat), ProviderKind::OpenAiChat);
    assert_eq!(provider_kind(ProviderType::OpenAiResponses), ProviderKind::OpenAiResponses);
    assert_eq!(provider_kind(ProviderType::Anthropic), ProviderKind::Anthropic);
}

#[test]
fn router_keeps_what_it_was_built_with() {
    let router = ProviderRouter::new("store", 7u8, Duration::from_secs(30));
    assert_eq!(*router.store(), "store");
    assert_eq!(*router.plugins(), 7);
    assert_eq!(*router.request_timeout(), Duration::from_secs(30));
}

#[test]
fn prefixed_ids_route_to_plugins() {
    assert_eq!(route("plugin:codex/gpt", "plugin:"), Route::Plugin);
    assert_eq!(route("plugin:", "plugin:"), Route::Plugin);
    assert_eq!(route("abc123", "plugin:"), Route::Builtin);
    assert_eq!(route("plug", "plugin:"), Route::Builtin);
}

#[test]
fn plugin_limits_fill_only_what_the_request_left_open() {
    let mut model = ModelSpec::new("plugin:codex/gpt");
    model.max_output_tokens = Some(100);
    let plugin = PluginModel {
        model_id: "gpt".to_string(),
        display_name: "GPT".to_string(),
        context_window_tokens: Some(272_000),
        max_output_tokens: Some(128_000),
    };
    let routed = plugin_routed_model(&model, &plugin);
    assert_eq!(routed.model_id, "plugin:codex/gpt");
    assert_eq!(routed.display_name.as_deref(), Some("GPT"));
    assert_eq!(routed.context_window_tokens, Some(272_000));
    assert_eq!(routed.max_output_tokens, Some(100));
}

#[test]
fn unknown_models_are_provider_errors() {
    assert_eq!(require_model(Some(3), "m").unwrap(), 3);
    match require_model::<u8>(None, "missing") {
        Err(Error::Provider(message)) => assert_eq!(message, "unknown model: missing"),
        other => panic!("unexpected {other:?}"),
    }
}

#[test]
fn call_records_cap_the_index_and_count_the_request() {
    let invocation = ModelInvocation {
        call_id: "call".to_string(),
        run_id: RunId::new("run"),
        conversation_id: ConversationId::new("conversation"),
        provider_call_index: u64::MAX,
        model: ModelSpec::new("m1"),
        reasoning_effort: Some("high".to_string()),
        latency: ModelLatency::Fast,
        history: Vec::new(),
        prompt: PromptSpec {
            instructions: String::new(),
            tools: Vec::new(),
        },
    };
    let record = new_llm_call(&invocation, "hash", "Name", ProviderType::Anthropic, "https://x", "model");
    assert_eq!(record.provider_call_index, i64::MAX);
    assert!(record.fast);
    assert_eq!(record.model_hash, "hash");
    assert_eq!(record.provider_url, "https://x");
    assert_eq!(record.request_url, "https://x");
    assert_eq!(record.request_type, ProviderType::Anthropic);
    assert_eq!(record.reasoning_effort.as_deref(), Some("high"));
    assert_eq!(record.message_count, 0);
    assert!(!record.detailed);
    let mut small = invocation;
    small.provider_call_index = 3;
    small.latency = ModelLatency::Standard;
    let record = new_llm_call(&small, "hash", "Name", ProviderType::Anthropic, "https://x", "model");
    assert_eq!(record.provider_call_index, 3);
    assert!(!record.fast);
}

#[test]
fn streams_end_by_their_recorder_state() {
    assert!(matches!(finish_stream(true, false), FinishAction::Finished));
    assert!(matches!(finish_stream(true, true), FinishAction::Finished));
    assert!(matches!(finish_stream(false, true), FinishAction::Cancelled));
    match finish_stream(false, false) {
        FinishAction::Failed(Error::Provider(message)) => {
            assert_eq!(message, "provider stream ended without Done")
        }
        other => panic!("unexpected {other:?}"),
    }
}

#[test]
fn custom_headers_are_normalized_and_later_ones_win() {
    let headers = custom_headers(&object(vec![
        ("X-Trace", s("one")),
        ("x-trace", s("two")),
        ("Authorization", s("Bearer\tabc")),
    ]))
    .unwrap();
    assert_eq!(headers.len(), 2);
    assert_eq!(headers.get("x-trace").unwrap(), "two");
    assert_eq!(headers.get("authorization").unwrap(), "Bearer\tabc");
}

#[test]
fn custom_headers_report_each_refusal() {
    assert_eq!(
        config_message(custom_headers(&Json::Array(Vec::new()))),
        "custom headers must be an object"
    );
    assert_eq!(
        config_message(custom_headers(&object(vec![("bad header", s("x"))]))),
        "invalid custom header name: invalid HTTP header name"
    );
    assert_eq!(
        config_message(custom_headers(&object(vec![("x-count", Json::Number("1".to_string()))]))),
        "custom header values must be strings"
    );
    assert_eq!(
        config_message(custom_headers(&object(vec![("x-line", s("a\nb"))]))),
        "invalid custom header value: failed to parse header value"
    );
    assert!(custom_headers(&object(vec![])).unwrap().is_empty());
}

#[test]
fn provider_configs_use_headers_only_when_enabled() {
    let setting = object(vec![("X-Team", s("core"))]);
    let enabled = provider_config(
        ProviderType::OpenAiResponses,
        "https://api.example.com/v1/responses".to_string(),
        "key".to_string(),
        true,
        &setting,
        Some(4096),
        Duration::from_secs(5),
    )
    .unwrap();
    assert_eq!(enabled.kind, ProviderKind::OpenAiResponses);
    assert_eq!(enabled.custom_headers.get("x-team").unwrap(), "core");
    assert_eq!(enabled.retry_count, BUILTIN_PROVIDER_RETRIES);
    assert_eq!(enabled.retry_count, 5);
    assert!(enabled.allowed_body_fields.is_none());
    let disabled = provider_config(
        ProviderType::OpenAiChat,
        "u".to_string(),
        "k".to_string(),
        false,
        &Json::Null,
        None,
        Duration::from_secs(5),
    )
    .unwrap();
    assert!(disabled.custom_headers.is_empty());
    assert!(provider_config(
        ProviderType::Anthropic,
        "u".to_string(),
        "k".to_string(),
        true,
        &Json::Null,
        None,
        Duration::from_secs(5),
    )
    .is_err());
}

#[test]
fn built_providers_keep_their_kind() {
    let config = provider_config(
        ProviderType::Anthropic,
        "u".to_string(),
        "k".to_string(),
        false,
        &Json::Null,
        None,
        Duration::from_secs(5),
    )
    .unwrap();
    let built = build(&config).unwrap();
    assert_eq!(built.kind, ProviderKind::Anthropic);
}

#[test]
fn unknown_models_end_the_stream_before_anything_is_recorded() {
    let (stage, action) = stream_step(
        StreamStage::Opening,
        StreamEvent::Resolved { found: false },
        "gpt-x",
    );
    assert_eq!(stage, StreamStage::Closed);
    match action {
        StreamAction::Fail(Error::Provider(message)) => assert_eq!(message, "unknown model: gpt-x"),
        other => panic!("unexpected {other:?}"),
    }
}

#[test]
fn routed_streams_open_the_record_then_forward_events() {
    let (stage, action) = stream_step(StreamStage::Opening, StreamEvent::Resolved { found: true }, "m");
    assert_eq!(stage, StreamStage::Opening);
    assert!(matches!(action, StreamAction::StartRecorder));
    let (stage, action) = stream_step(stage, StreamEvent::RecorderStarted, "m");
    assert_eq!(stage, StreamStage::Streaming);
    assert!(matches!(action, StreamAction::StartProvider));
    let (stage, action) = stream_step(stage, StreamEvent::ProviderEvent, "m");
    assert_eq!(stage, StreamStage::Streaming);
    assert!(matches!(action, StreamAction::RecordAndForward));
    let (closed, action) = stream_step(stage, StreamEvent::ProviderFailed, "m");
    assert_eq!(closed, StreamStage::Closed);
    assert!(matches!(action, StreamAction::RecordFailureAndStop));
    let (closed, action) = stream_step(
        stage,
        StreamEvent::ProviderEnded { recorder_finished: false, cancelled: true },
        "m",
    );
    assert_eq!(closed, StreamStage::Closed);
    assert!(matches!(action, StreamAction::Finish(FinishAction::Cancelled)));
    let (closed, action) = stream_step(
        stage,
        StreamEvent::ProviderEnded { recorder_finished: false, cancelled: false },
        "m",
    );
    assert_eq!(closed, StreamStage::Closed);
    match action {
        StreamAction::Finish(FinishAction::Failed(Error::Provider(message))) => {
            assert_eq!(message, "provider stream ended without Done")
        }
        other => panic!("unexpected {other:?}"),
    }
}

#[test]
fn events_out_of_place_change_nothing() {
    let (stage, action) = stream_step(StreamStage::Opening, StreamEvent::ProviderEvent, "m");
    assert_eq!(stage, StreamStage::Opening);
    assert!(matches!(action, StreamAction::Ignore));
    let (stage, action) = stream_step(StreamStage::Closed, StreamEvent::RecorderStarted, "m");
    assert_eq!(stage, StreamStage::Closed);
    assert!(matches!(action, StreamAction::Ignore));
}
