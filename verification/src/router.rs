//! Routes model requests to built-in provider configurations or to plugin
//! models, and decides how a routed provider stream is recorded and ended.
use std::time::Duration;

use vstd::prelude::*;

use crate::error::Error;
use reqwest::header::HeaderMap;

use crate::json::{lemma_members_view_len, members_view, Json, JsonV};
use crate::model::{CanonicalMessage, ConversationId, ModelSpec, PromptSpec, RunId};
use crate::network::{build_client, default_config, new_client_builder, with_timeout, BuilderConfig, HttpClient};
use crate::text::{concat2, has_prefix, lower};

verus! {

/// The API family that a configured model speaks.
#[derive(Clone, Copy, Debug, PartialEq, Eq, Structural)]
pub enum ProviderType {
    OpenAiChat,
    OpenAiResponses,
    Anthropic,
    Plugin,
}

/// The built-in provider implementations.
#[derive(Clone, Copy, Debug, PartialEq, Eq, Structural)]
pub enum ProviderKind {
    OpenAiChat,
    OpenAiResponses,
    Anthropic,
}

/// How fast the model is asked to answer.
#[derive(Clone, Copy, Debug, PartialEq, Eq, Structural)]
pub enum ModelLatency {
    Standard,
    Fast,
}

/// How many times a built-in provider retries a failed request.
pub const BUILTIN_PROVIDER_RETRIES: u32 = 5;

/// The built-in provider that serves a provider type; plugin models have none.
pub open spec fn kind_of(provider_type: ProviderType) -> Option<ProviderKind> {
    match provider_type {
        ProviderType::OpenAiChat => Some(ProviderKind::OpenAiChat),
        ProviderType::OpenAiResponses => Some(ProviderKind::OpenAiResponses),
        ProviderType::Anthropic => Some(ProviderKind::Anthropic),
        ProviderType::Plugin => None,
    }
}

/// The built-in provider for a configured model's type. Configured models
/// never have the plugin type: those are reached through the plugin route.
pub fn provider_kind(provider_type: ProviderType) -> (r: ProviderKind)
    requires
        provider_type != ProviderType::Plugin,
    ensures
        kind_of(provider_type) == Some(r),
{
    match provider_type {
        ProviderType::OpenAiChat => ProviderKind::OpenAiChat,
        ProviderType::OpenAiResponses => ProviderKind::OpenAiResponses,
        ProviderType::Anthropic => ProviderKind::Anthropic,
        ProviderType::Plugin => vstd::pervasive::unreached(),
    }
}

/// Routes model requests: to a plugin's model when the selected id carries
/// the plugin adapter prefix, otherwise to the stored model configuration.
pub struct ProviderRouter<S, P> {
    store: S,
    plugins: P,
    request_timeout: Duration,
}

impl<S, P> ProviderRouter<S, P> {
    /// The store, plugin registry and request timeout that the router holds.
    pub closed spec fn parts(&self) -> (S, P, Duration) {
        (self.store, self.plugins, self.request_timeout)
    }

    /// A router over the given store and plugins, whose built-in providers
    /// time requests out after `request_timeout`.
    pub fn new(store: S, plugins: P, request_timeout: Duration) -> (r: Self)
        ensures
            r.parts() == (store, plugins, request_timeout),
    {
        ProviderRouter { store, plugins, request_timeout }
    }

    pub fn store(&self) -> (r: &S)
        ensures
            *r == self.parts().0,
    {
        &self.store
    }

    pub fn plugins(&self) -> (r: &P)
        ensures
            *r == self.parts().1,
    {
        &self.plugins
    }

    pub fn request_timeout(&self) -> (r: &Duration)
        ensures
            *r == self.parts().2,
    {
        &self.request_timeout
    }
}

/// Where a model request goes.
#[derive(Clone, Copy, Debug, PartialEq, Eq, Structural)]
pub enum Route {
    /// A plugin model, named by its stable plugin model id.
    Plugin,
    /// A model configured in the store, named by its hash.
    Builtin,
}

/// The route of a selected model id.
pub open spec fn route_of(selected: Seq<char>, adapter_prefix: Seq<char>) -> Route {
    if selected.len() >= adapter_prefix.len() && selected.take(adapter_prefix.len() as int) == adapter_prefix {
        Route::Plugin
    } else {
        Route::Builtin
    }
}

/// Routes a selected model id: ids that begin with the plugin adapter prefix
/// name plugin models.
pub fn route(selected: &str, adapter_prefix: &str) -> (r: Route)
    ensures
        r == route_of(selected@, adapter_prefix@),
{
    if has_prefix(selected, adapter_prefix) {
        Route::Plugin
    } else {
        Route::Builtin
    }
}

/// What a plugin reports of one of its models.
#[derive(Debug)]
pub struct PluginModel {
    pub model_id: String,
    pub display_name: String,
    pub context_window_tokens: Option<u64>,
    pub max_output_tokens: Option<u64>,
}

/// The model a plugin request is sent with: the plugin's display name, and the
/// plugin's limits only where the request did not set its own.
pub fn plugin_routed_model(model: &ModelSpec, plugin: &PluginModel) -> (r: ModelSpec)
    ensures
        r.model_id@ == model.model_id@,
        r.display_name matches Some(n) && n@ == plugin.display_name@,
        r.context_window_tokens == (if model.context_window_tokens is Some {
            model.context_window_tokens
        } else {
            plugin.context_window_tokens
        }),
        r.max_output_tokens == (if model.max_output_tokens is Some {
            model.max_output_tokens
        } else {
            plugin.max_output_tokens
        }),
{
    let context_window_tokens = match model.context_window_tokens {
        Some(tokens) => Some(tokens),
        None => plugin.context_window_tokens,
    };
    let max_output_tokens = match model.max_output_tokens {
        Some(tokens) => Some(tokens),
        None => plugin.max_output_tokens,
    };
    ModelSpec {
        model_id: model.model_id.clone(),
        display_name: Some(plugin.display_name.clone()),
        context_window_tokens,
        max_output_tokens,
    }
}

/// The configured model that a built-in route found, or the error that the
/// selected model is unknown.
pub fn require_model<M>(found: Option<M>, selected: &str) -> (r: Result<M, Error>)
    ensures
        match found {
            Some(m) => r == Ok::<M, Error>(m),
            None => r matches Err(Error::Provider(e)) && e@ == "unknown model: "@ + selected@,
        },
{
    match found {
        Some(m) => Ok(m),
        None => Err(Error::Provider(concat2("unknown model: ", selected))),
    }
}

/// A request to a model, as the router sees it.
#[derive(Debug)]
pub struct ModelInvocation {
    pub call_id: String,
    pub run_id: RunId,
    pub conversation_id: ConversationId,
    pub provider_call_index: u64,
    pub model: ModelSpec,
    pub reasoning_effort: Option<String>,
    pub latency: ModelLatency,
    pub history: Vec<CanonicalMessage>,
    pub prompt: PromptSpec,
}

/// The record opened for one provider call.
#[derive(Debug)]
pub struct NewLlmCall {
    pub call_id: String,
    pub run_id: String,
    pub conversation_id: String,
    pub provider_call_index: i64,
    pub model_hash: String,
    pub provider_type: ProviderType,
    pub provider_url: String,
    pub request_type: ProviderType,
    pub request_url: String,
    pub model_id: String,
    pub display_name: String,
    pub reasoning_effort: Option<String>,
    pub fast: bool,
    pub message_count: usize,
    pub tool_count: usize,
    pub detailed: bool,
}

pub open spec fn same_text(a: Option<String>, b: Option<String>) -> bool {
    match (a, b) {
        (Some(x), Some(y)) => x@ == y@,
        (None, None) => true,
        _ => false,
    }
}

/// The call record for a routed invocation: the invocation's ids and counts,
/// its index capped at the largest signed 64-bit value, and the routed
/// model's identity, with the provider's URL as request URL.
pub fn new_llm_call(
    invocation: &ModelInvocation,
    model_hash: &str,
    display_name: &str,
    provider_type: ProviderType,
    request_url: &str,
    model_id: &str,
) -> (r: NewLlmCall)
    ensures
        r.call_id@ == invocation.call_id@,
        r.run_id@ == invocation.run_id.0@,
        r.conversation_id@ == invocation.conversation_id.0@,
        r.provider_call_index == (if invocation.provider_call_index <= i64::MAX {
            invocation.provider_call_index as int
        } else {
            i64::MAX as int
        }),
        r.model_hash@ == model_hash@,
        r.provider_type == provider_type,
        r.provider_url@ == request_url@,
        r.request_type == provider_type,
        r.request_url@ == request_url@,
        r.model_id@ == model_id@,
        r.display_name@ == display_name@,
        same_text(r.reasoning_effort, invocation.reasoning_effort),
        r.fast == (invocation.latency == ModelLatency::Fast),
        r.message_count == invocation.history.len(),
        r.tool_count == invocation.prompt.tools.len(),
        !r.detailed,
{
    let index: i64 = if invocation.provider_call_index <= 9223372036854775807u64 {
        invocation.provider_call_index as i64
    } else {
        9223372036854775807i64
    };
    let reasoning_effort = match &invocation.reasoning_effort {
        Some(effort) => Some(effort.clone()),
        None => None,
    };
    NewLlmCall {
        call_id: invocation.call_id.clone(),
        run_id: invocation.run_id.0.clone(),
        conversation_id: invocation.conversation_id.0.clone(),
        provider_call_index: index,
        model_hash: model_hash.to_owned(),
        provider_type,
        provider_url: request_url.to_owned(),
        request_type: provider_type,
        request_url: request_url.to_owned(),
        model_id: model_id.to_owned(),
        display_name: display_name.to_owned(),
        reasoning_effort,
        fast: invocation.latency == ModelLatency::Fast,
        message_count: invocation.history.len(),
        tool_count: invocation.prompt.tools.len(),
        detailed: false,
    }
}

/// What happens when a routed provider stream runs out.
#[derive(Debug)]
pub enum FinishAction {
    /// The call record was already closed by the stream's own end.
    Finished,
    /// The run was cancelled: the call record is closed as cancelled.
    Cancelled,
    /// The stream ended without its final event: the call record is closed
    /// as failed with this error, which also ends the stream.
    Failed(Error),
}

/// Decides how a routed stream that ran out is closed.
pub fn finish_stream(recorder_finished: bool, cancelled: bool) -> (r: FinishAction)
    ensures
        recorder_finished ==> r is Finished,
        !recorder_finished && cancelled ==> r is Cancelled,
        !recorder_finished && !cancelled ==> (r matches FinishAction::Failed(Error::Provider(m))
            && m@ == "provider stream ended without Done"@),
{
    if recorder_finished {
        FinishAction::Finished
    } else if cancelled {
        FinishAction::Cancelled
    } else {
        FinishAction::Failed(Error::Provider(String::from_str("provider stream ended without Done")))
    }
}

/// Where a routed provider stream stands.
#[derive(Clone, Copy, Debug, PartialEq, Eq, Structural)]
pub enum StreamStage {
    /// The route is being resolved; nothing has been recorded.
    Opening,
    /// The call record is open and the provider's events are flowing.
    Streaming,
    /// The stream is over.
    Closed,
}

/// What the driver of a routed stream reports back.
#[derive(Clone, Copy, Debug)]
pub enum StreamEvent {
    /// The selected model was looked up; a plugin model's plan always finds it.
    Resolved { found: bool },
    /// The call record was opened.
    RecorderStarted,
    /// The provider yielded an event.
    ProviderEvent,
    /// The provider yielded an error.
    ProviderFailed,
    /// The provider's stream ran out.
    ProviderEnded { recorder_finished: bool, cancelled: bool },
}

/// What the driver of a routed stream does next.
#[derive(Debug)]
pub enum StreamAction {
    /// Open the call record for the resolved model.
    StartRecorder,
    /// Start the provider's stream.
    StartProvider,
    /// Record the provider's event, then pass it on.
    RecordAndForward,
    /// Record the provider's error as the call's failure, then end the
    /// stream with it.
    RecordFailureAndStop,
    /// End the stream with this error; nothing was recorded.
    Fail(Error),
    /// Close the call record as [`finish_stream`] decided.
    Finish(FinishAction),
    /// The event does not belong to this stage; nothing happens.
    Ignore,
}

/// Whether an action touches the call record.
pub open spec fn records(action: StreamAction) -> bool {
    action is RecordAndForward || action is RecordFailureAndStop || action is Finish
}

/// One step of a routed stream: the next stage and what the driver does.
/// An unknown model ends the stream before anything is recorded; the call
/// record is opened before the provider starts; each provider event is
/// recorded and passed on; a provider error is recorded and ends the stream;
/// a stream that runs out is closed as [`finish_stream`] decides; a closed
/// stream stays closed. So the call record is touched only while streaming,
/// which begins only once the record is open.
pub fn stream_step(stage: StreamStage, event: StreamEvent, selected: &str) -> (r: (StreamStage, StreamAction))
    ensures
        stage == StreamStage::Opening && (event matches StreamEvent::Resolved { found: false }) ==> (r.0
            == StreamStage::Closed && (r.1 matches StreamAction::Fail(Error::Provider(m)) && m@
            == "unknown model: "@ + selected@)),
        stage == StreamStage::Opening && (event matches StreamEvent::Resolved { found: true }) ==> (r.0
            == StreamStage::Opening && r.1 is StartRecorder),
        stage == StreamStage::Opening && event is RecorderStarted ==> (r.0 == StreamStage::Streaming
            && r.1 is StartProvider),
        stage == StreamStage::Streaming && event is ProviderEvent ==> (r.0 == StreamStage::Streaming
            && r.1 is RecordAndForward),
        stage == StreamStage::Streaming && event is ProviderFailed ==> (r.0 == StreamStage::Closed
            && r.1 is RecordFailureAndStop),
        event matches StreamEvent::ProviderEnded { recorder_finished, cancelled } ==> (stage
            == StreamStage::Streaming ==> r.0 == StreamStage::Closed && (r.1 matches StreamAction::Finish(f) && (recorder_finished ==> f is Finished)
            && (!recorder_finished && cancelled ==> f is Cancelled) && (!recorder_finished
            && !cancelled ==> (f matches FinishAction::Failed(Error::Provider(m)) && m@
            == "provider stream ended without Done"@)))),
        !(stage == StreamStage::Opening && (event is Resolved || event is RecorderStarted)) && !(stage
            == StreamStage::Streaming && (event is ProviderEvent || event is ProviderFailed
            || event is ProviderEnded)) ==> (r.0 == stage && r.1 is Ignore),
        records(r.1) ==> stage == StreamStage::Streaming,
        r.0 == StreamStage::Streaming ==> stage == StreamStage::Streaming || (stage
            == StreamStage::Opening && event is RecorderStarted),
        stage == StreamStage::Closed ==> r.0 == StreamStage::Closed,
{
    match (stage, event) {
        (StreamStage::Opening, StreamEvent::Resolved { found }) => {
            if found {
                (StreamStage::Opening, StreamAction::StartRecorder)
            } else {
                (StreamStage::Closed, StreamAction::Fail(Error::Provider(concat2("unknown model: ", selected))))
            }
        },
        (StreamStage::Opening, StreamEvent::RecorderStarted) => (StreamStage::Streaming, StreamAction::StartProvider),
        (StreamStage::Streaming, StreamEvent::ProviderEvent) => (StreamStage::Streaming, StreamAction::RecordAndForward),
        (StreamStage::Streaming, StreamEvent::ProviderFailed) => (StreamStage::Closed, StreamAction::RecordFailureAndStop),
        (StreamStage::Streaming, StreamEvent::ProviderEnded { recorder_finished, cancelled }) => {
            (StreamStage::Closed, StreamAction::Finish(finish_stream(recorder_finished, cancelled)))
        },
        _ => (stage, StreamAction::Ignore),
    }
}

// ---------------------------------------------------------------------------
// Custom headers
// ---------------------------------------------------------------------------

#[verifier::external_type_specification]
#[verifier::external_body]
#[verifier::reject_recursive_types(T)]
pub struct ExHeaderMap<T>(HeaderMap<T>);

#[verifier::external_type_specification]
#[verifier::external_body]
pub struct ExHeaderValue(reqwest::header::HeaderValue);

/// What a header map holds: each lower-cased header name with its value.
pub uninterp spec fn header_entries(headers: HeaderMap) -> Map<Seq<char>, Seq<char>>;

/// A number of headers below which inserting one more stays within the
/// map's fixed maximum of 32768 table slots, whatever its hashing met. The
/// table doubles only when it is three-quarters full, or, after a long probe
/// sequence, when it has at most five slots per header; otherwise a long
/// probe sequence rebuilds it in place. With fewer headers than this, a full
/// table has at most 8192 slots, and a table of 32768 slots has more than
/// five per header, so no doubling goes past the maximum.
pub open spec fn header_room() -> nat {
    6554
}

/// Whether a character may stand in a header name (an HTTP token character).
pub open spec fn is_token_char(c: char) -> bool {
    ('a' <= c && c <= 'z') || ('A' <= c && c <= 'Z') || ('0' <= c && c <= '9') || c == '!' || c
        == '#' || c == '$' || c == '%' || c == '&' || c == '\'' || c == '*' || c == '+' || c == '-'
        || c == '.' || c == '^' || c == '_' || c == '`' || c == '|' || c == '~'
}

/// Whether text is a header name: one to 65535 token characters.
pub open spec fn is_header_name(name: Seq<char>) -> bool {
    1 <= name.len() <= 65535 && forall|i: int| 0 <= i < name.len() ==> is_token_char(#[trigger] name[i])
}

/// Whether text may be a header value: tabs and characters from the space on,
/// except DEL.
pub open spec fn is_header_value(value: Seq<char>) -> bool {
    forall|i: int|
        0 <= i < value.len() ==> (#[trigger] value[i] == '\t' || (' ' <= value[i] && value[i] != '\x7f'))
}

/// The contents of an empty header map.
pub open spec fn no_headers() -> Map<Seq<char>, Seq<char>> {
    Map::empty()
}

/// `HeaderMap::new`: a map with no headers.
#[verifier::external_body]
fn empty_headers() -> (r: HeaderMap)
    ensures
        header_entries(r) == no_headers(),
{
    HeaderMap::new()
}

/// `HeaderName::from_bytes` on the name's bytes: it accepts exactly one to
/// 65535 token characters, and its error reads "invalid HTTP header name".
#[verifier::external_body]
fn check_header_name(name: &str) -> (r: Result<(), String>)
    ensures
        r is Ok <==> is_header_name(name@),
        r matches Err(e) ==> e@ == "invalid HTTP header name"@,
{
    match reqwest::header::HeaderName::from_bytes(name.as_bytes()) {
        Ok(_) => Ok(()),
        Err(error) => Err(error.to_string()),
    }
}

/// `HeaderValue::from_str`: it accepts exactly the texts whose bytes are tabs
/// or at least a space and not DEL, and its error reads "failed to parse
/// header value".
#[verifier::external_body]
fn check_header_value(value: &str) -> (r: Result<(), String>)
    ensures
        r is Ok <==> is_header_value(value@),
        r matches Err(e) ==> e@ == "failed to parse header value"@,
{
    match reqwest::header::HeaderValue::from_str(value) {
        Ok(_) => Ok(()),
        Err(error) => Err(error.to_string()),
    }
}

/// `HeaderMap::insert` of a checked name and value: the name, lower-cased as
/// `HeaderName` normalizes it, now maps to this value alone. The map panics
/// only past its maximum capacity, which a map with fewer than
/// [`header_room`] headers does not reach.
#[verifier::external_body]
fn insert_header(headers: &mut HeaderMap, name: &str, value: &str)
    requires
        is_header_name(name@),
        is_header_value(value@),
        header_entries(*old(headers)).len() < header_room(),
    ensures
        header_entries(*final(headers)) == header_entries(*old(headers)).insert(lower(name@), value@),
{
    let name = reqwest::header::HeaderName::from_bytes(name.as_bytes()).expect("checked header name");
    let value = reqwest::header::HeaderValue::from_str(value).expect("checked header value");
    headers.insert(name, value);
}

/// The headers that a custom header object's members give, read in order;
/// the first refused member decides the error.
pub open spec fn headers_from(members: Seq<(Seq<char>, JsonV)>) -> Result<Map<Seq<char>, Seq<char>>, Seq<char>>
    decreases members.len(),
{
    if members.len() == 0 {
        Ok(Map::empty())
    } else {
        match headers_from(members.drop_last()) {
            Err(e) => Err(e),
            Ok(headers) => {
                let (name, value) = members.last();
                if !is_header_name(name) {
                    Err("invalid custom header name: "@ + "invalid HTTP header name"@)
                } else {
                    match value {
                        JsonV::Str(v) => if is_header_value(v) {
                            Ok(headers.insert(lower(name), v))
                        } else {
                            Err("invalid custom header value: "@ + "failed to parse header value"@)
                        },
                        _ => Err("custom header values must be strings"@),
                    }
                }
            },
        }
    }
}

/// The headers that a model's custom header setting gives, or why it is
/// refused.
pub open spec fn custom_headers_of(value: JsonV) -> Result<Map<Seq<char>, Seq<char>>, Seq<char>> {
    match value {
        JsonV::Object(members) => headers_from(members),
        _ => Err("custom headers must be an object"@),
    }
}

proof fn lemma_headers_error_stays(members: Seq<(Seq<char>, JsonV)>, k: int)
    requires
        0 <= k <= members.len(),
        headers_from(members.take(k)) is Err,
    ensures
        headers_from(members) == headers_from(members.take(k)),
    decreases members.len() - k,
{
    if k < members.len() {
        assert(members.take(k + 1).drop_last() =~= members.take(k));
        lemma_headers_error_stays(members, k + 1);
    } else {
        assert(members.take(k) =~= members);
    }
}

proof fn lemma_headers_size(members: Seq<(Seq<char>, JsonV)>)
    ensures
        headers_from(members) matches Ok(h) ==> h.dom().finite() && h.len() <= members.len(),
    decreases members.len(),
{
    if members.len() > 0 {
        lemma_headers_size(members.drop_last());
    }
}

/// Reads a model's custom header setting: an object whose members name
/// headers and give their string values.
pub fn custom_headers(value: &Json) -> (r: Result<HeaderMap, Error>)
    requires
        value matches Json::Object(members) ==> members.len() <= header_room(),
    ensures
        match custom_headers_of(value.view_json()) {
            Ok(h) => r matches Ok(headers) && header_entries(headers) == h,
            Err(e) => r matches Err(Error::Config(m)) && m@ == e,
        },
{
    let members = match value {
        Json::Object(members) => members,
        _ => return Err(Error::Config(String::from_str("custom headers must be an object"))),
    };
    let ghost ms = members_view(members@);
    proof {
        lemma_members_view_len(members@);
    }
    assert(custom_headers_of(value.view_json()) == headers_from(ms));
    let mut headers = empty_headers();
    let mut i: usize = 0;
    while i < members.len()
        invariant
            i <= members.len() <= header_room(),
            ms == members_view(members@),
            custom_headers_of(value.view_json()) == headers_from(ms),
            ms.len() == members.len(),
            forall|k: int| 0 <= k < members.len() ==> #[trigger] ms[k] == (members@[k].0@, members@[k].1.view_json()),
            headers_from(ms.take(i as int)) == Ok::<Map<Seq<char>, Seq<char>>, Seq<char>>(header_entries(headers)),
        decreases members.len() - i,
    {
        assert(ms.take(i + 1).drop_last() =~= ms.take(i as int));
        proof {
            lemma_headers_size(ms.take(i as int));
        }
        let name = members[i].0.as_str();
        match check_header_name(name) {
            Ok(()) => {},
            Err(error) => {
                proof {
                    lemma_headers_error_stays(ms, i + 1);
                }
                return Err(Error::Config(concat2("invalid custom header name: ", error.as_str())));
            },
        }
        let text = match &members[i].1 {
            Json::Str(text) => text,
            _ => {
                proof {
                    lemma_headers_error_stays(ms, i + 1);
                }
                return Err(Error::Config(String::from_str("custom header values must be strings")));
            },
        };
        match check_header_value(text.as_str()) {
            Ok(()) => {},
            Err(error) => {
                proof {
                    lemma_headers_error_stays(ms, i + 1);
                }
                return Err(Error::Config(concat2("invalid custom header value: ", error.as_str())));
            },
        }
        insert_header(&mut headers, name, text.as_str());
        i += 1;
    }
    assert(ms.take(ms.len() as int) =~= ms);
    Ok(headers)
}

// ---------------------------------------------------------------------------
// Built-in provider configuration
// ---------------------------------------------------------------------------

/// Everything a built-in provider needs to talk to its endpoint.
pub struct ProviderConfig {
    pub kind: ProviderKind,
    pub request_url: String,
    pub api_key: String,
    pub custom_headers: HeaderMap,
    pub max_output_tokens: Option<u64>,
    pub request_timeout: Duration,
    pub retry_count: u32,
    pub allowed_body_fields: Option<Vec<String>>,
}

/// The provider configuration of a configured model: its kind from its type,
/// its custom headers only where they are enabled, the router's timeout, the
/// built-in retry count, and no restriction of body fields.
pub fn provider_config(
    provider_type: ProviderType,
    request_url: String,
    api_key: String,
    custom_headers_enabled: bool,
    custom_header_setting: &Json,
    max_output_tokens: Option<u64>,
    request_timeout: Duration,
) -> (r: Result<ProviderConfig, Error>)
    requires
        provider_type != ProviderType::Plugin,
        custom_headers_enabled ==> (custom_header_setting matches Json::Object(members) ==> members.len()
            <= header_room()),
    ensures
        custom_headers_enabled && custom_headers_of(custom_header_setting.view_json()) is Err ==> (
        r matches Err(Error::Config(m)) && m@ == custom_headers_of(
            custom_header_setting.view_json(),
        )->Err_0),
        !(custom_headers_enabled && custom_headers_of(custom_header_setting.view_json()) is Err) ==> (
        r matches Ok(c) && Some(c.kind) == kind_of(provider_type) && c.request_url@ == request_url@
            && c.api_key@ == api_key@ && header_entries(c.custom_headers) == (if custom_headers_enabled {
            custom_headers_of(custom_header_setting.view_json())->Ok_0
        } else {
            no_headers()
        }) && c.max_output_tokens == max_output_tokens && c.request_timeout == request_timeout
            && c.retry_count == BUILTIN_PROVIDER_RETRIES && c.allowed_body_fields is None),
{
    let custom_headers = if custom_headers_enabled {
        match custom_headers(custom_header_setting) {
            Ok(headers) => headers,
            Err(error) => return Err(error),
        }
    } else {
        empty_headers()
    };
    Ok(ProviderConfig {
        kind: provider_kind(provider_type),
        request_url,
        api_key,
        custom_headers,
        max_output_tokens,
        request_timeout,
        retry_count: BUILTIN_PROVIDER_RETRIES,
        allowed_body_fields: None,
    })
}

/// A built-in provider as built: the implementation of its kind, over an HTTP
/// client, behind the normalizing layer that every provider gets.
pub struct BuiltProvider {
    pub kind: ProviderKind,
    pub client: HttpClient,
}

/// The provider that a built-in route runs over a given client.
pub fn build_with_client(config: &ProviderConfig, client: HttpClient) -> (r: BuiltProvider)
    ensures
        r.kind == config.kind,
        r.client == client,
{
    BuiltProvider { kind: config.kind, client }
}

/// The configuration of the client that [`build`] makes for a provider: the
/// defaults, with the provider's request timeout.
pub open spec fn provider_client_config(config: ProviderConfig) -> BuilderConfig {
    BuilderConfig { timeout: Some(config.request_timeout), ..default_config() }
}

/// Builds the provider of a configuration over a fresh client with the
/// configured timeout; a client that cannot be built is an HTTP error.
pub fn build(config: &ProviderConfig) -> (r: Result<BuiltProvider, Error>)
    ensures
        r matches Ok(p) ==> p.kind == config.kind && p.client@ == provider_client_config(*config),
        r is Err ==> r matches Err(Error::Http(_)),
{
    match build_client(with_timeout(new_client_builder(), config.request_timeout)) {
        Ok(client) => Ok(build_with_client(config, client)),
        Err(error) => Err(Error::Http(error)),
    }
}

} // verus!
