//! Projects streamed tool-call argument text into incremental presentation messages.
use vstd::prelude::*;

use crate::error::Error;
use crate::json_stream::{
    group, law_lex_chunking, law_lex_failure_is_final, lex_run, lex_start, FieldEventV, Fragment,
    JsonStringFields, LexState, Phase, StringFieldEvent,
};
use crate::model::ToolCall;
use crate::text::{chars_of, lower_char, lower_char_exec, str_eq, string_from_chars};

verus! {

/// Whether a character is an ASCII letter or digit.
pub open spec fn is_ascii_alnum(c: char) -> bool {
    ('a' <= c && c <= 'z') || ('A' <= c && c <= 'Z') || ('0' <= c && c <= '9')
}

/// A tool name reduced to its lower-cased ASCII letters and digits.
pub open spec fn normalized_name(value: Seq<char>) -> Seq<char>
    decreases value.len(),
{
    if value.len() == 0 {
        Seq::empty()
    } else {
        let rest = normalized_name(value.drop_last());
        if is_ascii_alnum(value.last()) {
            rest.push(lower_char(value.last()))
        } else {
            rest
        }
    }
}

/// Reduces a tool name to its lower-cased ASCII letters and digits, so that
/// `StrReplace`, `str_replace` and `strreplace` name the same tool.
pub fn normalized(value: &str) -> (r: String)
    ensures
        r@ == normalized_name(value@),
{
    let chars = chars_of(value);
    let mut out: Vec<char> = Vec::new();
    let mut i: usize = 0;
    while i < chars.len()
        invariant
            i <= chars.len(),
            chars@ == value@,
            out@ == normalized_name(value@.take(i as int)),
        decreases chars.len() - i,
    {
        let c = chars[i];
        assert(value@.take(i + 1).drop_last() == value@.take(i as int));
        if ('a' <= c && c <= 'z') || ('A' <= c && c <= 'Z') || ('0' <= c && c <= '9') {
            out.push(lower_char_exec(c));
        }
        i += 1;
    }
    assert(value@.take(value@.len() as int) == value@);
    string_from_chars(&out)
}

/// One step of line-ending normalization: the output for character `c` and
/// whether a carriage return is still pending. A carriage return is held back
/// until the next character shows whether it begins a CRLF pair; either way it
/// becomes one line feed.
pub open spec fn newline_step(pending_cr: bool, c: char) -> (Seq<char>, bool) {
    if pending_cr {
        if c == '\n' {
            (seq!['\n'], false)
        } else if c == '\r' {
            (seq!['\n'], true)
        } else {
            (seq!['\n', c], false)
        }
    } else if c == '\r' {
        (Seq::empty(), true)
    } else {
        (seq![c], false)
    }
}

/// Normalizes `text` starting with `pending_cr`: the output so far and whether
/// a carriage return is still pending.
pub open spec fn newline_run(pending_cr: bool, text: Seq<char>) -> (Seq<char>, bool)
    decreases text.len(),
{
    if text.len() == 0 {
        (Seq::empty(), pending_cr)
    } else {
        let (out, pending) = newline_run(pending_cr, text.drop_last());
        let (more, next) = newline_step(pending, text.last());
        (out + more, next)
    }
}

/// Converts CRLF and lone CR line endings in streamed text to LF, holding a
/// trailing CR back until the next chunk or the end of the stream.
pub struct NewlineStream {
    pub pending_cr: bool,
}

impl NewlineStream {
    pub fn new() -> (r: Self)
        ensures
            !r.pending_cr,
    {
        NewlineStream { pending_cr: false }
    }

    /// Normalizes the next chunk; when `finished`, a pending CR is flushed as LF.
    pub fn push(&mut self, text: &str, finished: bool) -> (r: String)
        ensures
            ({
                let (out, pending) = newline_run(old(self).pending_cr, text@);
                if finished && pending {
                    r@ == out.push('\n') && !final(self).pending_cr
                } else {
                    r@ == out && final(self).pending_cr == pending
                }
            }),
    {
        let chars = chars_of(text);
        let mut output: Vec<char> = Vec::new();
        let mut i: usize = 0;
        while i < chars.len()
            invariant
                i <= chars.len(),
                chars@ == text@,
                (output@, self.pending_cr) == newline_run(old(self).pending_cr, text@.take(i as int)),
            decreases chars.len() - i,
        {
            let c = chars[i];
            assert(text@.take(i + 1).drop_last() == text@.take(i as int));
            let ghost before = output@;
            if self.pending_cr {
                output.push('\n');
                self.pending_cr = false;
                if c == '\r' {
                    self.pending_cr = true;
                } else if c != '\n' {
                    output.push(c);
                }
            } else if c == '\r' {
                self.pending_cr = true;
            } else {
                output.push(c);
            }
            proof {
                let (more, _) = newline_step(newline_run(old(self).pending_cr, text@.take(i as int)).1, c);
                assert(output@ =~= before + more);
            }
            i += 1;
        }
        assert(text@.take(text@.len() as int) == text@);
        if finished && self.pending_cr {
            output.push('\n');
            self.pending_cr = false;
        }
        string_from_chars(&output)
    }
}

/// Normalizing two chunks one after the other gives the same text and the
/// same pending state as normalizing them at once: chunk boundaries, even one
/// that splits a CRLF pair, do not change the result.
pub proof fn law_newline_chunking(pending_cr: bool, a: Seq<char>, b: Seq<char>)
    ensures
        ({
            let (out_a, mid) = newline_run(pending_cr, a);
            let (out_b, end) = newline_run(mid, b);
            newline_run(pending_cr, a + b) == (out_a + out_b, end)
        }),
    decreases b.len(),
{
    if b.len() == 0 {
        assert(a + b =~= a);
    } else {
        law_newline_chunking(pending_cr, a, b.drop_last());
        assert((a + b).drop_last() =~= a + b.drop_last());
        assert((a + b).last() == b.last());
        let (out_a, mid) = newline_run(pending_cr, a);
        let (out_b, _) = newline_run(mid, b.drop_last());
        let (more, _) = newline_step(newline_run(mid, b.drop_last()).1, b.last());
        assert(out_a + out_b + more =~= out_a + (out_b + more));
    }
}

/// Normalized text never holds a carriage return.
pub proof fn law_newline_output_has_no_cr(pending_cr: bool, text: Seq<char>)
    ensures
        !newline_run(pending_cr, text).0.contains('\r'),
    decreases text.len(),
{
    if text.len() > 0 {
        law_newline_output_has_no_cr(pending_cr, text.drop_last());
        let (out, pending) = newline_run(pending_cr, text.drop_last());
        let (more, _) = newline_step(pending, text.last());
        assert(!more.contains('\r'));
        assert forall|i: int| 0 <= i < (out + more).len() implies (out + more)[i] != '\r' by {
            if i < out.len() {
                assert(out[i] != '\r');
            } else {
                assert(more[i - out.len()] != '\r');
            }
        }
    }
}

/// Text with its line endings normalized: each CRLF pair, and then each
/// remaining lone CR, becomes one LF.
pub open spec fn crlf_normalized(text: Seq<char>) -> Seq<char>
    decreases text.len(),
{
    if text.len() == 0 {
        Seq::empty()
    } else if text.last() == '\n' && text.len() >= 2 && text[text.len() - 2] == '\r' {
        crlf_normalized(text.drop_last().drop_last()).push('\n')
    } else if text.last() == '\r' {
        crlf_normalized(text.drop_last()).push('\n')
    } else {
        crlf_normalized(text.drop_last()).push(text.last())
    }
}

/// Normalizing text from the start holds back exactly a final CR, and what
/// it gives, with that CR flushed, is the text with its line endings
/// normalized.
proof fn lemma_newline_run_normalizes(text: Seq<char>)
    ensures
        ({
            let (out, pending) = newline_run(false, text);
            &&& pending == (text.len() > 0 && text.last() == '\r')
            &&& (if pending { out.push('\n') } else { out }) == crlf_normalized(text)
        }),
    decreases text.len(),
{
    if text.len() > 0 {
        let init = text.drop_last();
        let c = text.last();
        lemma_newline_run_normalizes(init);
        let (out0, p0) = newline_run(false, init);
        let (more, p) = newline_step(p0, c);
        assert(newline_run(false, text) == (out0 + more, p));
        if text.len() >= 2 {
            assert(text[text.len() - 2] == init.last());
            assert(text.drop_last().drop_last() =~= init.drop_last());
        }
        if p0 {
            assert(crlf_normalized(init) == crlf_normalized(init.drop_last()).push('\n'));
            if c == '\n' {
                assert(out0 + more =~= out0.push('\n'));
            } else if c == '\r' {
                assert(out0 + more =~= out0.push('\n'));
            } else {
                assert(out0 + more =~= out0.push('\n').push(c));
            }
        } else {
            if c == '\r' {
                assert(out0 + more =~= out0);
            } else {
                assert(out0 + more =~= out0.push(c));
            }
        }
    }
}

/// The chunks of a stream, joined.
pub open spec fn joined(chunks: Seq<Seq<char>>) -> Seq<char>
    decreases chunks.len(),
{
    if chunks.len() == 0 {
        Seq::empty()
    } else {
        joined(chunks.drop_last()) + chunks.last()
    }
}

/// Normalizing chunks one after the other, as successive unfinished pushes
/// do: all output so far and whether a CR is still pending.
pub open spec fn newline_chunks(pending_cr: bool, chunks: Seq<Seq<char>>) -> (Seq<char>, bool)
    decreases chunks.len(),
{
    if chunks.len() == 0 {
        (Seq::empty(), pending_cr)
    } else {
        let (out, pending) = newline_chunks(pending_cr, chunks.drop_last());
        let (more, next) = newline_run(pending, chunks.last());
        (out + more, next)
    }
}

proof fn lemma_newline_chunks_joined(chunks: Seq<Seq<char>>)
    ensures
        newline_chunks(false, chunks) == newline_run(false, joined(chunks)),
    decreases chunks.len(),
{
    if chunks.len() > 0 {
        lemma_newline_chunks_joined(chunks.drop_last());
        law_newline_chunking(false, joined(chunks.drop_last()), chunks.last());
    }
}

/// However a text is cut into chunks, a stream that starts afresh, pushes
/// every chunk and flushes at the end outputs the whole text with each CRLF
/// pair and each remaining lone CR turned into one LF.
pub proof fn law_newline_stream_normalizes(chunks: Seq<Seq<char>>)
    ensures
        ({
            let (out, pending) = newline_chunks(false, chunks);
            (if pending { out.push('\n') } else { out }) == crlf_normalized(joined(chunks))
        }),
{
    lemma_newline_chunks_joined(chunks);
    lemma_newline_run_normalizes(joined(chunks));
}

/// A dynamic MCP tool that a call belongs to.
#[derive(Debug)]
pub struct McpToolDefinition {
    pub name: String,
    pub provider_identifier: String,
    pub tool_name: String,
}

/// A message the server streams to the client while a tool call's arguments arrive.
#[derive(Debug)]
pub enum ServerMessage {
    /// Raw argument text of a plain tool call.
    ArgumentsDelta { call_id: String, delta: String },
    /// Raw argument text of a dynamic MCP tool call.
    McpArgumentsDelta { call_id: String, delta: String, provider_identifier: String, tool_name: String },
    /// The completed path of an edit.
    EditPath { call_id: String, path: String },
    /// Further content of an edit, line endings normalized.
    EditContentDelta { call_id: String, content: String },
    /// The plan's fields as they stand after a field completed.
    CreatePlanPartial { call_id: String, name: String, plan: String, overview: String },
}

pub enum ServerMessageV {
    ArgumentsDelta { call_id: Seq<char>, delta: Seq<char> },
    McpArgumentsDelta {
        call_id: Seq<char>,
        delta: Seq<char>,
        provider_identifier: Seq<char>,
        tool_name: Seq<char>,
    },
    EditPath { call_id: Seq<char>, path: Seq<char> },
    EditContentDelta { call_id: Seq<char>, content: Seq<char> },
    CreatePlanPartial { call_id: Seq<char>, name: Seq<char>, plan: Seq<char>, overview: Seq<char> },
}

impl View for ServerMessage {
    type V = ServerMessageV;

    open spec fn view(&self) -> ServerMessageV {
        match self {
            ServerMessage::ArgumentsDelta { call_id, delta } => ServerMessageV::ArgumentsDelta {
                call_id: call_id@,
                delta: delta@,
            },
            ServerMessage::McpArgumentsDelta { call_id, delta, provider_identifier, tool_name } =>
                ServerMessageV::McpArgumentsDelta {
                call_id: call_id@,
                delta: delta@,
                provider_identifier: provider_identifier@,
                tool_name: tool_name@,
            },
            ServerMessage::EditPath { call_id, path } => ServerMessageV::EditPath {
                call_id: call_id@,
                path: path@,
            },
            ServerMessage::EditContentDelta { call_id, content } => ServerMessageV::EditContentDelta {
                call_id: call_id@,
                content: content@,
            },
            ServerMessage::CreatePlanPartial { call_id, name, plan, overview } =>
                ServerMessageV::CreatePlanPartial {
                call_id: call_id@,
                name: name@,
                plan: plan@,
                overview: overview@,
            },
        }
    }
}

pub open spec fn messages_view(messages: Seq<ServerMessage>) -> Seq<ServerMessageV> {
    messages.map_values(|m: ServerMessage| m@)
}

/// The state of an edit's projection: the path read so far and whether a
/// carriage return of the content is pending.
pub struct EditState {
    pub path: Seq<char>,
    pub pending_cr: bool,
}

/// The content message for normalized text, if the text is not empty.
pub open spec fn content_message(call_id: Seq<char>, content: Seq<char>) -> Seq<ServerMessageV> {
    if content.len() > 0 {
        seq![ServerMessageV::EditContentDelta { call_id, content }]
    } else {
        Seq::empty()
    }
}

/// One field event of an edit: the path field accumulates and is announced
/// once complete; the content field streams out as normalized deltas.
pub open spec fn edit_event(
    path_field: Seq<char>,
    content_field: Seq<char>,
    call_id: Seq<char>,
    st: EditState,
    event: FieldEventV,
) -> (EditState, Seq<ServerMessageV>) {
    match event {
        FieldEventV::Delta { name, text } => if name == path_field {
            (EditState { path: st.path + text, ..st }, Seq::empty())
        } else if name == content_field {
            let (out, pending) = newline_run(st.pending_cr, text);
            (EditState { pending_cr: pending, ..st }, content_message(call_id, out))
        } else {
            (st, Seq::empty())
        },
        FieldEventV::End { name } => if name == path_field {
            (st, seq![ServerMessageV::EditPath { call_id, path: st.path }])
        } else if name == content_field {
            if st.pending_cr {
                (EditState { pending_cr: false, ..st }, content_message(call_id, seq!['\n']))
            } else {
                (st, Seq::empty())
            }
        } else {
            (st, Seq::empty())
        },
    }
}

/// The field events of an edit, in order.
pub open spec fn edit_events(
    path_field: Seq<char>,
    content_field: Seq<char>,
    call_id: Seq<char>,
    st: EditState,
    events: Seq<FieldEventV>,
) -> (EditState, Seq<ServerMessageV>)
    decreases events.len(),
{
    if events.len() == 0 {
        (st, Seq::empty())
    } else {
        let (mid, out) = edit_events(path_field, content_field, call_id, st, events.drop_last());
        let (end, more) = edit_event(path_field, content_field, call_id, mid, events.last());
        (end, out + more)
    }
}

/// The state of a plan's projection: its fields so far, and whether one of
/// them completed in the current chunk.
pub struct PlanState {
    pub name: Seq<char>,
    pub plan: Seq<char>,
    pub overview: Seq<char>,
    pub completed: bool,
}

pub open spec fn plan_event(st: PlanState, event: FieldEventV) -> PlanState {
    match event {
        FieldEventV::Delta { name, text } => if name == "name"@ {
            PlanState { name: st.name + text, ..st }
        } else if name == "plan"@ {
            PlanState { plan: st.plan + text, ..st }
        } else if name == "overview"@ {
            PlanState { overview: st.overview + text, ..st }
        } else {
            st
        },
        FieldEventV::End { name } => if name == "name"@ || name == "plan"@ || name == "overview"@ {
            PlanState { completed: true, ..st }
        } else {
            st
        },
    }
}

pub open spec fn plan_events(st: PlanState, events: Seq<FieldEventV>) -> PlanState
    decreases events.len(),
{
    if events.len() == 0 {
        st
    } else {
        plan_event(plan_events(st, events.drop_last()), events.last())
    }
}

struct EditProjection {
    fields: JsonStringFields,
    path_field: &'static str,
    content_field: &'static str,
    path: String,
    content: NewlineStream,
}

struct CreatePlanProjection {
    fields: JsonStringFields,
    name: String,
    plan: String,
    overview: String,
}

enum Presentation {
    Plain,
    DynamicMcp(McpToolDefinition),
    Edit(EditProjection),
    CreatePlan(CreatePlanProjection),
}

/// How a tool call's argument stream is presented.
pub enum PresentationV {
    Plain,
    DynamicMcp { name: Seq<char>, provider_identifier: Seq<char>, tool_name: Seq<char> },
    Edit {
        fields: LexState,
        path_field: Seq<char>,
        content_field: Seq<char>,
        path: Seq<char>,
        pending_cr: bool,
    },
    CreatePlan { fields: LexState, name: Seq<char>, plan: Seq<char>, overview: Seq<char> },
}

/// Streams one tool call's arguments to the client in the form that suits
/// the tool: edits show their path and content as they arrive, plans show
/// their fields, other tools show the raw argument text.
pub struct ToolCallStream {
    presentation: Presentation,
}

/// The presentation chosen for a tool: dynamic MCP tools keep their own; by
/// normalized name, `write`, `strreplace` and `editnotebook` are edits (of
/// `contents`, `new_string`, `new_string`, at `path`, `path`,
/// `target_notebook`), `createplan` is a plan, all others are plain.
pub open spec fn initial_presentation(name: Seq<char>, dynamic: Option<McpToolDefinition>) -> PresentationV {
    match dynamic {
        Some(d) => PresentationV::DynamicMcp {
            name: d.name@,
            provider_identifier: d.provider_identifier@,
            tool_name: d.tool_name@,
        },
        None => {
            let n = normalized_name(name);
            if n == "write"@ {
                PresentationV::Edit {
                    fields: lex_start(),
                    path_field: "path"@,
                    content_field: "contents"@,
                    path: Seq::empty(),
                    pending_cr: false,
                }
            } else if n == "strreplace"@ {
                PresentationV::Edit {
                    fields: lex_start(),
                    path_field: "path"@,
                    content_field: "new_string"@,
                    path: Seq::empty(),
                    pending_cr: false,
                }
            } else if n == "editnotebook"@ {
                PresentationV::Edit {
                    fields: lex_start(),
                    path_field: "target_notebook"@,
                    content_field: "new_string"@,
                    path: Seq::empty(),
                    pending_cr: false,
                }
            } else if n == "createplan"@ {
                PresentationV::CreatePlan {
                    fields: lex_start(),
                    name: Seq::empty(),
                    plan: Seq::empty(),
                    overview: Seq::empty(),
                }
            } else {
                PresentationV::Plain
            }
        },
    }
}

impl ToolCallStream {
    pub closed spec fn view(&self) -> PresentationV {
        match &self.presentation {
            Presentation::Plain => PresentationV::Plain,
            Presentation::DynamicMcp(d) => PresentationV::DynamicMcp {
                name: d.name@,
                provider_identifier: d.provider_identifier@,
                tool_name: d.tool_name@,
            },
            Presentation::Edit(e) => PresentationV::Edit {
                fields: e.fields@,
                path_field: e.path_field@,
                content_field: e.content_field@,
                path: e.path@,
                pending_cr: e.content.pending_cr,
            },
            Presentation::CreatePlan(p) => PresentationV::CreatePlan {
                fields: p.fields@,
                name: p.name@,
                plan: p.plan@,
                overview: p.overview@,
            },
        }
    }

    pub closed spec fn wf(&self) -> bool {
        match &self.presentation {
            Presentation::Edit(e) => e.fields.wf(),
            Presentation::CreatePlan(p) => p.fields.wf(),
            _ => true,
        }
    }

    /// Chooses the presentation for a tool call.
    pub fn new(name: &str, dynamic_mcp: Option<&McpToolDefinition>) -> (r: Self)
        ensures
            r.wf(),
            r.view() == initial_presentation(
                name@,
                match dynamic_mcp {
                    Some(d) => Some(*d),
                    None => None,
                },
            ),
    {
        let presentation = match dynamic_mcp {
            Some(definition) => Presentation::DynamicMcp(
                McpToolDefinition {
                    name: definition.name.clone(),
                    provider_identifier: definition.provider_identifier.clone(),
                    tool_name: definition.tool_name.clone(),
                },
            ),
            None => {
                let n = normalized(name);
                proof {
                    reveal_strlit("write");
                    reveal_strlit("strreplace");
                    reveal_strlit("editnotebook");
                    reveal_strlit("createplan");
                }
                if str_eq(n.as_str(), "write") {
                    Presentation::Edit(EditProjection::new("path", "contents"))
                } else if str_eq(n.as_str(), "strreplace") {
                    Presentation::Edit(EditProjection::new("path", "new_string"))
                } else if str_eq(n.as_str(), "editnotebook") {
                    Presentation::Edit(EditProjection::new("target_notebook", "new_string"))
                } else if str_eq(n.as_str(), "createplan") {
                    Presentation::CreatePlan(
                        CreatePlanProjection {
                            fields: JsonStringFields::new(),
                            name: String::new(),
                            plan: String::new(),
                            overview: String::new(),
                        },
                    )
                } else {
                    Presentation::Plain
                }
            },
        };
        ToolCallStream { presentation }
    }
}

/// What a chunk of argument text does to a tool call's presentation: the
/// presentation after it, and the messages it produces, or none when the
/// arguments can no longer be a JSON object.
pub open spec fn stream_step(p: PresentationV, call_id: Seq<char>, raw: Seq<char>) -> (
    PresentationV,
    Option<Seq<ServerMessageV>>,
) {
    match p {
        PresentationV::Plain => (
            PresentationV::Plain,
            Some(seq![ServerMessageV::ArgumentsDelta { call_id, delta: raw }]),
        ),
        PresentationV::DynamicMcp { provider_identifier, tool_name, .. } => (
            p,
            Some(
                seq![
                    ServerMessageV::McpArgumentsDelta {
                        call_id,
                        delta: raw,
                        provider_identifier,
                        tool_name,
                    },
                ],
            ),
        ),
        PresentationV::Edit { fields, path_field, content_field, path, pending_cr } => {
            let (lex, frags) = lex_run(fields, raw);
            if lex.phase == Phase::Failed {
                (
                    PresentationV::Edit { fields: lex, path_field, content_field, path, pending_cr },
                    None,
                )
            } else {
                let (st, out) = edit_events(
                    path_field,
                    content_field,
                    call_id,
                    EditState { path, pending_cr },
                    group(frags),
                );
                (
                    PresentationV::Edit {
                        fields: lex,
                        path_field,
                        content_field,
                        path: st.path,
                        pending_cr: st.pending_cr,
                    },
                    Some(out),
                )
            }
        },
        PresentationV::CreatePlan { fields, name, plan, overview } => {
            let (lex, frags) = lex_run(fields, raw);
            if lex.phase == Phase::Failed {
                (PresentationV::CreatePlan { fields: lex, name, plan, overview }, None)
            } else {
                let st = plan_events(
                    PlanState { name, plan, overview, completed: false },
                    group(frags),
                );
                (
                    PresentationV::CreatePlan {
                        fields: lex,
                        name: st.name,
                        plan: st.plan,
                        overview: st.overview,
                    },
                    Some(
                        if st.completed {
                            seq![
                                ServerMessageV::CreatePlanPartial {
                                    call_id,
                                    name: st.name,
                                    plan: st.plan,
                                    overview: st.overview,
                                },
                            ]
                        } else {
                            Seq::empty()
                        },
                    ),
                )
            }
        },
    }
}

impl CreatePlanProjection {
    fn project(&mut self, call: &ToolCall, raw_delta: &str) -> (r: Result<Vec<ServerMessage>, Error>)
        requires
            old(self).fields.wf(),
        ensures
            final(self).fields.wf(),
            final(self).fields@ == lex_run(old(self).fields@, raw_delta@).0,
            final(self).fields@.phase == Phase::Failed ==> r is Err && final(self).name@ == old(
                self,
            ).name@ && final(self).plan@ == old(self).plan@ && final(self).overview@ == old(
                self,
            ).overview@,
            final(self).fields@.phase != Phase::Failed ==> ({
                let st = plan_events(
                    PlanState {
                        name: old(self).name@,
                        plan: old(self).plan@,
                        overview: old(self).overview@,
                        completed: false,
                    },
                    group(lex_run(old(self).fields@, raw_delta@).1),
                );
                &&& final(self).name@ == st.name
                &&& final(self).plan@ == st.plan
                &&& final(self).overview@ == st.overview
                &&& r matches Ok(messages) && messages_view(messages@) == if st.completed {
                    seq![
                        ServerMessageV::CreatePlanPartial {
                            call_id: call.call_id@,
                            name: st.name,
                            plan: st.plan,
                            overview: st.overview,
                        },
                    ]
                } else {
                    Seq::empty()
                }
            }),
    {
        let events = match self.fields.push(raw_delta) {
            Ok(events) => events,
            Err(error) => return Err(error),
        };
        proof {
            reveal_strlit("name");
            reveal_strlit("plan");
            reveal_strlit("overview");
        }
        let ghost evs = events@.map_values(|e: StringFieldEvent| e@);
        let ghost start = PlanState {
            name: self.name@,
            plan: self.plan@,
            overview: self.overview@,
            completed: false,
        };
        let mut completed_field = false;
        let mut i: usize = 0;
        while i < events.len()
            invariant
                i <= events.len(),
                evs == events@.map_values(|e: StringFieldEvent| e@),
                self.fields.wf(),
                self.fields@ == lex_run(old(self).fields@, raw_delta@).0,
                self.fields@.phase != Phase::Failed,
                evs == group(lex_run(old(self).fields@, raw_delta@).1),
                start == (PlanState {
                    name: old(self).name@,
                    plan: old(self).plan@,
                    overview: old(self).overview@,
                    completed: false,
                }),
                plan_events(start, evs.take(i as int)) == (PlanState {
                    name: self.name@,
                    plan: self.plan@,
                    overview: self.overview@,
                    completed: completed_field,
                }),
            decreases events.len() - i,
        {
            assert(evs.take(i + 1).drop_last() =~= evs.take(i as int));
            assert(evs.take(i + 1).last() == events@[i as int]@);
            match &events[i] {
                StringFieldEvent::Delta { name, text } => {
                    if str_eq(name.as_str(), "name") {
                        self.name.append(text.as_str());
                    } else if str_eq(name.as_str(), "plan") {
                        self.plan.append(text.as_str());
                    } else if str_eq(name.as_str(), "overview") {
                        self.overview.append(text.as_str());
                    }
                },
                StringFieldEvent::End { name } => {
                    if str_eq(name.as_str(), "name") || str_eq(name.as_str(), "plan") || str_eq(
                        name.as_str(),
                        "overview",
                    ) {
                        completed_field = true;
                    }
                },
            }
            i += 1;
        }
        assert(evs.take(evs.len() as int) =~= evs);
        let mut messages: Vec<ServerMessage> = Vec::new();
        if completed_field {
            messages.push(
                ServerMessage::CreatePlanPartial {
                    call_id: call.call_id.clone(),
                    name: self.name.clone(),
                    plan: self.plan.clone(),
                    overview: self.overview.clone(),
                },
            );
        }
        assert(messages_view(messages@) =~= if completed_field {
            seq![
                ServerMessageV::CreatePlanPartial {
                    call_id: call.call_id@,
                    name: self.name@,
                    plan: self.plan@,
                    overview: self.overview@,
                },
            ]
        } else {
            Seq::empty()
        });
        Ok(messages)
    }
}

impl ToolCallStream {
    /// Presents the next chunk of a tool call's argument text.
    pub fn arguments_delta(&mut self, call: &ToolCall, raw_delta: &str) -> (r: Result<
        Vec<ServerMessage>,
        Error,
    >)
        requires
            old(self).wf(),
        ensures
            final(self).wf(),
            (
                final(self).view(),
                match r {
                    Ok(messages) => Some(messages_view(messages@)),
                    Err(_) => None,
                },
            ) == stream_step(old(self).view(), call.call_id@, raw_delta@),
    {
        match &mut self.presentation {
            Presentation::Plain => {
                let mut messages: Vec<ServerMessage> = Vec::new();
                messages.push(
                    ServerMessage::ArgumentsDelta {
                        call_id: call.call_id.clone(),
                        delta: raw_delta.to_owned(),
                    },
                );
                assert(messages_view(messages@) =~= seq![ServerMessageV::ArgumentsDelta { call_id: call.call_id@, delta: raw_delta@ }]);
                Ok(messages)
            },
            Presentation::DynamicMcp(definition) => {
                let mut messages: Vec<ServerMessage> = Vec::new();
                messages.push(
                    ServerMessage::McpArgumentsDelta {
                        call_id: call.call_id.clone(),
                        delta: raw_delta.to_owned(),
                        provider_identifier: definition.provider_identifier.clone(),
                        tool_name: definition.tool_name.clone(),
                    },
                );
                assert(messages_view(messages@) =~= seq![
                    ServerMessageV::McpArgumentsDelta {
                        call_id: call.call_id@,
                        delta: raw_delta@,
                        provider_identifier: definition.provider_identifier@,
                        tool_name: definition.tool_name@,
                    },
                ]);
                Ok(messages)
            },
            Presentation::Edit(edit) => {
                let mut messages: Vec<ServerMessage> = Vec::new();
                match edit.project(call, raw_delta, &mut messages) {
                    Ok(()) => {
                        assert(messages_view(Seq::<ServerMessage>::empty()) =~= Seq::<ServerMessageV>::empty());
                        Ok(messages)
                    },
                    Err(error) => Err(error),
                }
            },
            Presentation::CreatePlan(plan) => plan.project(call, raw_delta),
        }
    }
}

impl EditProjection {
    fn new(path_field: &'static str, content_field: &'static str) -> (r: Self)
        ensures
            r.fields@ == lex_start(),
            r.fields.wf(),
            r.path_field@ == path_field@,
            r.content_field@ == content_field@,
            r.path@ == Seq::<char>::empty(),
            !r.content.pending_cr,
    {
        EditProjection {
            fields: JsonStringFields::new(),
            path_field,
            content_field,
            path: String::new(),
            content: NewlineStream::new(),
        }
    }

    fn project(&mut self, call: &ToolCall, raw_delta: &str, messages: &mut Vec<ServerMessage>) -> (r:
        Result<(), Error>)
        requires
            old(self).fields.wf(),
        ensures
            final(self).fields.wf(),
            final(self).path_field == old(self).path_field,
            final(self).content_field == old(self).content_field,
            final(self).fields@ == lex_run(old(self).fields@, raw_delta@).0,
            final(self).fields@.phase == Phase::Failed ==> r is Err && final(self).path@ == old(
                self,
            ).path@ && final(self).content.pending_cr == old(self).content.pending_cr
                && final(messages)@ == old(messages)@,
            final(self).fields@.phase != Phase::Failed ==> ({
                let (st, out) = edit_events(
                    old(self).path_field@,
                    old(self).content_field@,
                    call.call_id@,
                    EditState { path: old(self).path@, pending_cr: old(self).content.pending_cr },
                    group(lex_run(old(self).fields@, raw_delta@).1),
                );
                &&& r is Ok
                &&& messages_view(final(messages)@) == messages_view(old(messages)@) + out
                &&& final(self).path@ == st.path
                &&& final(self).content.pending_cr == st.pending_cr
            }),
    {
        let events = match self.fields.push(raw_delta) {
            Ok(events) => events,
            Err(error) => return Err(error),
        };
        let ghost evs = events@.map_values(|e: StringFieldEvent| e@);
        let ghost start = EditState { path: self.path@, pending_cr: self.content.pending_cr };
        let ghost base = messages_view(messages@);
        let mut i: usize = 0;
        while i < events.len()
            invariant
                i <= events.len(),
                evs == events@.map_values(|e: StringFieldEvent| e@),
                self.fields.wf(),
                self.fields@ == lex_run(old(self).fields@, raw_delta@).0,
                self.fields@.phase != Phase::Failed,
                evs == group(lex_run(old(self).fields@, raw_delta@).1),
                self.path_field == old(self).path_field,
                self.content_field == old(self).content_field,
                start == (EditState { path: old(self).path@, pending_cr: old(self).content.pending_cr }),
                base == messages_view(old(messages)@),
                ({
                    let (st, out) = edit_events(
                        self.path_field@,
                        self.content_field@,
                        call.call_id@,
                        start,
                        evs.take(i as int),
                    );
                    &&& messages_view(messages@) == base + out
                    &&& self.path@ == st.path
                    &&& self.content.pending_cr == st.pending_cr
                }),
            decreases events.len() - i,
        {
            assert(evs.take(i + 1).drop_last() =~= evs.take(i as int));
            assert(evs.take(i + 1).last() == events@[i as int]@);
            let ghost before = messages_view(messages@);
            match &events[i] {
                StringFieldEvent::Delta { name, text } => {
                    if str_eq(name.as_str(), self.path_field) {
                        self.path.append(text.as_str());
                    } else if str_eq(name.as_str(), self.content_field) {
                        let content = self.content.push(text.as_str(), false);
                        if !content.as_str().is_empty() {
                            messages.push(
                                ServerMessage::EditContentDelta { call_id: call.call_id.clone(), content },
                            );
                        }
                        assert(messages_view(messages@) =~= before + content_message(call.call_id@, content@));
                    }
                },
                StringFieldEvent::End { name } => {
                    if str_eq(name.as_str(), self.path_field) {
                        messages.push(
                            ServerMessage::EditPath { call_id: call.call_id.clone(), path: self.path.clone() },
                        );
                        assert(messages_view(messages@) =~= before + seq![ServerMessageV::EditPath { call_id: call.call_id@, path: self.path@ }]);
                    } else if str_eq(name.as_str(), self.content_field) {
                        let ghost pend = self.content.pending_cr;
                        let content = self.content.push("", true);
                        proof {
                            reveal_strlit("");
                            assert(""@ =~= Seq::<char>::empty());
                        }
                        if !content.as_str().is_empty() {
                            messages.push(
                                ServerMessage::EditContentDelta { call_id: call.call_id.clone(), content },
                            );
                        }
                        assert(messages_view(messages@) =~= before + (if pend { content_message(call.call_id@, seq!['\n']) } else { Seq::empty() }));
                    }
                },
            }
            i += 1;
        }
        assert(evs.take(evs.len() as int) =~= evs);
        Ok(())
    }
}

// ---------------------------------------------------------------------------
// Edits do not depend on how their arguments are chunked
// ---------------------------------------------------------------------------

/// The edit content that messages carry, in order.
pub open spec fn content_text(messages: Seq<ServerMessageV>) -> Seq<char>
    decreases messages.len(),
{
    if messages.len() == 0 {
        Seq::empty()
    } else {
        content_text(messages.drop_last()) + match messages.last() {
            ServerMessageV::EditContentDelta { content, .. } => content,
            _ => Seq::empty(),
        }
    }
}

/// The edit paths that messages announce, in order.
pub open spec fn announced_paths(messages: Seq<ServerMessageV>) -> Seq<Seq<char>>
    decreases messages.len(),
{
    if messages.len() == 0 {
        Seq::empty()
    } else {
        announced_paths(messages.drop_last()) + match messages.last() {
            ServerMessageV::EditPath { path, .. } => seq![path],
            _ => Seq::empty(),
        }
    }
}

proof fn lemma_content_text_concat(a: Seq<ServerMessageV>, b: Seq<ServerMessageV>)
    ensures
        content_text(a + b) == content_text(a) + content_text(b),
        announced_paths(a + b) == announced_paths(a) + announced_paths(b),
    decreases b.len(),
{
    if b.len() == 0 {
        assert(a + b =~= a);
        assert(content_text(a) + Seq::<char>::empty() =~= content_text(a));
        assert(announced_paths(a) + Seq::<Seq<char>>::empty() =~= announced_paths(a));
    } else {
        lemma_content_text_concat(a, b.drop_last());
        assert((a + b).drop_last() =~= a + b.drop_last());
        assert((a + b).last() == b.last());
        let t = match b.last() {
            ServerMessageV::EditContentDelta { content, .. } => content,
            _ => Seq::empty(),
        };
        let q = match b.last() {
            ServerMessageV::EditPath { path, .. } => seq![path],
            _ => Seq::<Seq<char>>::empty(),
        };
        assert(content_text(a) + content_text(b.drop_last()) + t =~= content_text(a) + (content_text(
            b.drop_last(),
        ) + t));
        assert(announced_paths(a) + announced_paths(b.drop_last()) + q =~= announced_paths(a) + (
        announced_paths(b.drop_last()) + q));
    }
}

proof fn lemma_content_message_text(call_id: Seq<char>, content: Seq<char>)
    ensures
        content_text(content_message(call_id, content)) == content,
        announced_paths(content_message(call_id, content)) == Seq::<Seq<char>>::empty(),
{
    let m = content_message(call_id, content);
    assert(content_text(Seq::<ServerMessageV>::empty()) == Seq::<char>::empty());
    assert(announced_paths(Seq::<ServerMessageV>::empty()) == Seq::<Seq<char>>::empty());
    if content.len() > 0 {
        assert(m.drop_last() =~= Seq::<ServerMessageV>::empty());
        assert(content_text(m) == content_text(m.drop_last()) + content);
        assert(Seq::<char>::empty() + content =~= content);
        assert(Seq::<Seq<char>>::empty() + Seq::<Seq<char>>::empty() =~= Seq::<Seq<char>>::empty());
    } else {
        assert(content =~= Seq::<char>::empty());
        assert(m == Seq::<ServerMessageV>::empty());
    }
}

/// What one decoded fragment does to an edit: the state after it, the
/// content it adds, and the paths it announces.
pub open spec fn fragment_step(path_field: Seq<char>, content_field: Seq<char>, st: EditState, fragment: Fragment) -> (
    EditState,
    Seq<char>,
    Seq<Seq<char>>,
) {
    match fragment {
        Fragment::Text(name, c) => if name == path_field {
            (EditState { path: st.path.push(c), ..st }, Seq::empty(), Seq::empty())
        } else if name == content_field {
            let (out, pending) = newline_step(st.pending_cr, c);
            (EditState { pending_cr: pending, ..st }, out, Seq::empty())
        } else {
            (st, Seq::empty(), Seq::empty())
        },
        Fragment::End(name) => if name == path_field {
            (st, Seq::empty(), seq![st.path])
        } else if name == content_field {
            if st.pending_cr {
                (EditState { pending_cr: false, ..st }, seq!['\n'], Seq::empty())
            } else {
                (st, Seq::empty(), Seq::empty())
            }
        } else {
            (st, Seq::empty(), Seq::empty())
        },
    }
}

/// What a run of decoded fragments does to an edit.
pub open spec fn fragment_run(path_field: Seq<char>, content_field: Seq<char>, st: EditState, fragments: Seq<Fragment>) -> (
    EditState,
    Seq<char>,
    Seq<Seq<char>>,
)
    decreases fragments.len(),
{
    if fragments.len() == 0 {
        (st, Seq::empty(), Seq::empty())
    } else {
        let (mid, text, paths) = fragment_run(path_field, content_field, st, fragments.drop_last());
        let (end, more, announced) = fragment_step(path_field, content_field, mid, fragments.last());
        (end, text + more, paths + announced)
    }
}

proof fn lemma_fragment_run_concat(
    path_field: Seq<char>,
    content_field: Seq<char>,
    st: EditState,
    a: Seq<Fragment>,
    b: Seq<Fragment>,
)
    ensures
        ({
            let (mid, ta, pa) = fragment_run(path_field, content_field, st, a);
            let (end, tb, pb) = fragment_run(path_field, content_field, mid, b);
            fragment_run(path_field, content_field, st, a + b) == (end, ta + tb, pa + pb)
        }),
    decreases b.len(),
{
    let (mid, ta, pa) = fragment_run(path_field, content_field, st, a);
    if b.len() == 0 {
        assert(a + b =~= a);
        assert(ta + Seq::<char>::empty() =~= ta);
        assert(pa + Seq::<Seq<char>>::empty() =~= pa);
    } else {
        lemma_fragment_run_concat(path_field, content_field, st, a, b.drop_last());
        assert((a + b).drop_last() =~= a + b.drop_last());
        assert((a + b).last() == b.last());
        let (m2, tb, pb) = fragment_run(path_field, content_field, mid, b.drop_last());
        let (end, more, announced) = fragment_step(path_field, content_field, m2, b.last());
        assert(ta + tb + more =~= ta + (tb + more));
        assert(pa + pb + announced =~= pa + (pb + announced));
    }
}

/// A field's end does to an edit what the matching fragment does.
proof fn lemma_edit_end_step(
    path_field: Seq<char>,
    content_field: Seq<char>,
    call_id: Seq<char>,
    m0: EditState,
    o0: Seq<ServerMessageV>,
    name: Seq<char>,
)
    ensures
        ({
            let (m1, o1) = edit_event(path_field, content_field, call_id, m0, FieldEventV::End { name });
            let (f1, more, announced) = fragment_step(path_field, content_field, m0, Fragment::End(name));
            m1 == f1 && content_text(o0 + o1) == content_text(o0) + more && announced_paths(o0 + o1)
                == announced_paths(o0) + announced
        }),
{
    let (m1, o1) = edit_event(path_field, content_field, call_id, m0, FieldEventV::End { name });
    lemma_content_text_concat(o0, o1);
    assert(content_text(Seq::<ServerMessageV>::empty()) == Seq::<char>::empty());
    assert(announced_paths(Seq::<ServerMessageV>::empty()) == Seq::<Seq<char>>::empty());
    if name == path_field {
        let m = seq![ServerMessageV::EditPath { call_id, path: m0.path }];
        assert(m.drop_last() =~= Seq::<ServerMessageV>::empty());
        assert(content_text(m) == content_text(m.drop_last()) + Seq::<char>::empty());
        assert(announced_paths(m) == announced_paths(m.drop_last()) + seq![m0.path]);
        assert(Seq::<Seq<char>>::empty() + seq![m0.path] =~= seq![m0.path]);
        assert(Seq::<char>::empty() + Seq::<char>::empty() =~= Seq::<char>::empty());
    } else if name == content_field && m0.pending_cr {
        lemma_content_message_text(call_id, seq!['\n']);
    }
}

/// A new one-character field delta does to an edit what the fragment does.
proof fn lemma_edit_char_step(
    path_field: Seq<char>,
    content_field: Seq<char>,
    call_id: Seq<char>,
    m0: EditState,
    o0: Seq<ServerMessageV>,
    name: Seq<char>,
    c: char,
)
    ensures
        ({
            let (m1, o1) = edit_event(path_field, content_field, call_id, m0, FieldEventV::Delta { name, text: seq![c] });
            let (f1, more, announced) = fragment_step(path_field, content_field, m0, Fragment::Text(name, c));
            m1 == f1 && content_text(o0 + o1) == content_text(o0) + more && announced_paths(o0 + o1)
                == announced_paths(o0) + announced
        }),
{
    let (m1, o1) = edit_event(path_field, content_field, call_id, m0, FieldEventV::Delta { name, text: seq![c] });
    lemma_content_text_concat(o0, o1);
    assert(content_text(Seq::<ServerMessageV>::empty()) == Seq::<char>::empty());
    assert(announced_paths(Seq::<ServerMessageV>::empty()) == Seq::<Seq<char>>::empty());
    if name == path_field {
        assert(m0.path + seq![c] =~= m0.path.push(c));
    } else if name == content_field {
        assert(seq![c].drop_last() =~= Seq::<char>::empty());
        assert(newline_run(m0.pending_cr, Seq::<char>::empty()) == (Seq::<char>::empty(), m0.pending_cr));
        let (step, pend_c) = newline_step(m0.pending_cr, c);
        assert(newline_run(m0.pending_cr, seq![c]) == (Seq::<char>::empty() + step, pend_c));
        assert(Seq::<char>::empty() + step =~= step);
        lemma_content_message_text(call_id, step);
    }
}

/// Extending a field delta by one character does to an edit what the
/// fragment does after the shorter delta.
proof fn lemma_edit_extend_step(
    path_field: Seq<char>,
    content_field: Seq<char>,
    call_id: Seq<char>,
    mb: EditState,
    ob: Seq<ServerMessageV>,
    name: Seq<char>,
    t: Seq<char>,
    c: char,
)
    ensures
        ({
            let (m_old, o_old) = edit_event(path_field, content_field, call_id, mb, FieldEventV::Delta { name, text: t });
            let (m_new, o_new) = edit_event(path_field, content_field, call_id, mb, FieldEventV::Delta { name, text: t.push(c) });
            let (f1, more, announced) = fragment_step(path_field, content_field, m_old, Fragment::Text(name, c));
            m_new == f1 && content_text(ob + o_new) == content_text(ob + o_old) + more
                && announced_paths(ob + o_new) == announced_paths(ob + o_old) + announced
        }),
{
    let (m_old, o_old) = edit_event(path_field, content_field, call_id, mb, FieldEventV::Delta { name, text: t });
    let (m_new, o_new) = edit_event(path_field, content_field, call_id, mb, FieldEventV::Delta { name, text: t.push(c) });
    lemma_content_text_concat(ob, o_old);
    lemma_content_text_concat(ob, o_new);
    assert(content_text(Seq::<ServerMessageV>::empty()) == Seq::<char>::empty());
    assert(announced_paths(Seq::<ServerMessageV>::empty()) == Seq::<Seq<char>>::empty());
    if name == path_field {
        assert(mb.path + t.push(c) =~= (mb.path + t).push(c));
        assert(content_text(ob) + Seq::<char>::empty() =~= content_text(ob));
        assert(announced_paths(ob) + Seq::<Seq<char>>::empty() =~= announced_paths(ob));
    } else if name == content_field {
        assert(t.push(c).drop_last() =~= t);
        let (out_t, pend_t) = newline_run(mb.pending_cr, t);
        let (step, pend_c) = newline_step(pend_t, c);
        assert(newline_run(mb.pending_cr, t.push(c)) == (out_t + step, pend_c));
        lemma_content_message_text(call_id, out_t);
        lemma_content_message_text(call_id, out_t + step);
        assert(content_text(ob) + (out_t + step) =~= content_text(ob) + out_t + step);
        assert(announced_paths(ob) + Seq::<Seq<char>>::empty() =~= announced_paths(ob));
    } else {
        assert(content_text(ob) + Seq::<char>::empty() =~= content_text(ob));
        assert(announced_paths(ob) + Seq::<Seq<char>>::empty() =~= announced_paths(ob));
    }
}

/// Grouping fragments into field events changes neither the edit state
/// reached nor the content and paths it streams.
proof fn lemma_group_edit(
    path_field: Seq<char>,
    content_field: Seq<char>,
    call_id: Seq<char>,
    st: EditState,
    fragments: Seq<Fragment>,
)
    ensures
        ({
            let (s1, out) = edit_events(path_field, content_field, call_id, st, group(fragments));
            let (s2, text, paths) = fragment_run(path_field, content_field, st, fragments);
            s1 == s2 && content_text(out) == text && announced_paths(out) == paths
        }),
    decreases fragments.len(),
{
    if fragments.len() > 0 {
        let init = fragments.drop_last();
        lemma_group_edit(path_field, content_field, call_id, st, init);
        let evs = group(init);
        let (m0, o0) = edit_events(path_field, content_field, call_id, st, evs);
        match fragments.last() {
            Fragment::Text(name, c) => {
                if evs.len() > 0 && evs.last() is Delta && evs.last()->Delta_name == name {
                    let t = evs.last()->Delta_text;
                    let before = evs.drop_last();
                    let merged = before.push(FieldEventV::Delta { name, text: t.push(c) });
                    assert(group(fragments) == merged);
                    assert(merged.drop_last() =~= before);
                    assert(evs =~= before.push(FieldEventV::Delta { name, text: t }));
                    let (mb, ob) = edit_events(path_field, content_field, call_id, st, before);
                    lemma_edit_extend_step(path_field, content_field, call_id, mb, ob, name, t, c);
                } else {
                    let ev = FieldEventV::Delta { name, text: seq![c] };
                    assert(group(fragments) == evs.push(ev));
                    assert(evs.push(ev).drop_last() =~= evs);
                    lemma_edit_char_step(path_field, content_field, call_id, m0, o0, name, c);
                }
            },
            Fragment::End(name) => {
                let ev = FieldEventV::End { name };
                assert(group(fragments) == evs.push(ev));
                assert(evs.push(ev).drop_last() =~= evs);
                lemma_edit_end_step(path_field, content_field, call_id, m0, o0, name);
            },
        }
    } else {
        assert(group(fragments) == Seq::<FieldEventV>::empty());
        assert(content_text(Seq::<ServerMessageV>::empty()) == Seq::<char>::empty());
        assert(announced_paths(Seq::<ServerMessageV>::empty()) == Seq::<Seq<char>>::empty());
    }
}

/// How an edit's argument text is split into chunks changes nothing that
/// the client sees: streaming two chunks one after the other fails exactly
/// when streaming them at once does, and otherwise reaches the same state,
/// streams the same content (line endings normalized across the split) and
/// announces the same paths.
pub proof fn law_edit_stream_chunking(p: PresentationV, call_id: Seq<char>, a: Seq<char>, b: Seq<char>)
    requires
        p is Edit,
    ensures
        ({
            let (p1, o1) = stream_step(p, call_id, a);
            let (p2, o2) = stream_step(p1, call_id, b);
            let (q, o) = stream_step(p, call_id, a + b);
            &&& (o1 is Some && o2 is Some) <==> o is Some
            &&& o is Some ==> p2 == q && content_text(o1->0 + o2->0) == content_text(o->0)
                && announced_paths(o1->0 + o2->0) == announced_paths(o->0)
        }),
{
    match p {
        PresentationV::Edit { fields, path_field, content_field, path, pending_cr } => {
            law_lex_chunking(fields, a, b);
            let (mid, fa) = lex_run(fields, a);
            let (end, fb) = lex_run(mid, b);
            if mid.phase == Phase::Failed {
                law_lex_failure_is_final(mid, b);
            } else {
                let st = EditState { path, pending_cr };
                lemma_group_edit(path_field, content_field, call_id, st, fa);
                let (s1, out1) = edit_events(path_field, content_field, call_id, st, group(fa));
                lemma_group_edit(path_field, content_field, call_id, s1, fb);
                lemma_group_edit(path_field, content_field, call_id, st, fa + fb);
                lemma_fragment_run_concat(path_field, content_field, st, fa, fb);
                let (s2, out2) = edit_events(path_field, content_field, call_id, s1, group(fb));
                lemma_content_text_concat(out1, out2);
            }
        },
        _ => {},
    }
}

/// What one decoded fragment does to a plan's fields.
pub open spec fn plan_fragment(st: PlanState, fragment: Fragment) -> PlanState {
    match fragment {
        Fragment::Text(name, c) => plan_event(st, FieldEventV::Delta { name, text: seq![c] }),
        Fragment::End(name) => plan_event(st, FieldEventV::End { name }),
    }
}

/// What a run of decoded fragments does to a plan's fields.
pub open spec fn plan_fragments(st: PlanState, fragments: Seq<Fragment>) -> PlanState
    decreases fragments.len(),
{
    if fragments.len() == 0 {
        st
    } else {
        plan_fragment(plan_fragments(st, fragments.drop_last()), fragments.last())
    }
}

proof fn lemma_plan_fragments_concat(st: PlanState, a: Seq<Fragment>, b: Seq<Fragment>)
    ensures
        plan_fragments(st, a + b) == plan_fragments(plan_fragments(st, a), b),
    decreases b.len(),
{
    if b.len() == 0 {
        assert(a + b =~= a);
    } else {
        lemma_plan_fragments_concat(st, a, b.drop_last());
        assert((a + b).drop_last() =~= a + b.drop_last());
        assert((a + b).last() == b.last());
    }
}

/// Grouping fragments into field events does not change the plan's fields,
/// nor whether one of them completed.
proof fn lemma_group_plan(st: PlanState, fragments: Seq<Fragment>)
    ensures
        plan_events(st, group(fragments)) == plan_fragments(st, fragments),
    decreases fragments.len(),
{
    if fragments.len() > 0 {
        let init = fragments.drop_last();
        lemma_group_plan(st, init);
        let evs = group(init);
        match fragments.last() {
            Fragment::Text(name, c) => {
                if evs.len() > 0 && evs.last() is Delta && evs.last()->Delta_name == name {
                    let t = evs.last()->Delta_text;
                    let before = evs.drop_last();
                    let merged = before.push(FieldEventV::Delta { name, text: t.push(c) });
                    assert(group(fragments) == merged);
                    assert(merged.drop_last() =~= before);
                    assert(evs =~= before.push(FieldEventV::Delta { name, text: t }));
                    let mb = plan_events(st, before);
                    assert(mb.name + t.push(c) =~= (mb.name + t) + seq![c]);
                    assert(mb.plan + t.push(c) =~= (mb.plan + t) + seq![c]);
                    assert(mb.overview + t.push(c) =~= (mb.overview + t) + seq![c]);
                } else {
                    let ev = FieldEventV::Delta { name, text: seq![c] };
                    assert(group(fragments) == evs.push(ev));
                    assert(evs.push(ev).drop_last() =~= evs);
                }
            },
            Fragment::End(name) => {
                let ev = FieldEventV::End { name };
                assert(group(fragments) == evs.push(ev));
                assert(evs.push(ev).drop_last() =~= evs);
            },
        }
    }
}

/// How a plan's argument text is split into chunks does not change the
/// fields it ends with: streaming two chunks one after the other fails
/// exactly when streaming them at once does, and otherwise reaches the same
/// state.
pub proof fn law_plan_stream_chunking(p: PresentationV, call_id: Seq<char>, a: Seq<char>, b: Seq<char>)
    requires
        p is CreatePlan,
    ensures
        ({
            let (p1, o1) = stream_step(p, call_id, a);
            let (p2, o2) = stream_step(p1, call_id, b);
            let (q, o) = stream_step(p, call_id, a + b);
            &&& (o1 is Some && o2 is Some) <==> o is Some
            &&& o is Some ==> p2 == q
        }),
{
    match p {
        PresentationV::CreatePlan { fields, name, plan, overview } => {
            law_lex_chunking(fields, a, b);
            let (mid, fa) = lex_run(fields, a);
            if mid.phase == Phase::Failed {
                law_lex_failure_is_final(mid, b);
            } else {
                let (end, fb) = lex_run(mid, b);
                let st = PlanState { name, plan, overview, completed: false };
                lemma_group_plan(st, fa);
                let s1 = plan_events(st, group(fa));
                let st1 = PlanState { name: s1.name, plan: s1.plan, overview: s1.overview, completed: false };
                lemma_group_plan(st1, fb);
                lemma_group_plan(st, fa + fb);
                lemma_plan_fragments_concat(st, fa, fb);
                lemma_plan_fields_ignore_completed(s1, st1, fb);
            }
        },
        _ => {},
    }
}

/// The fields a plan reaches do not depend on whether a field had already
/// completed.
proof fn lemma_plan_fields_ignore_completed(a: PlanState, b: PlanState, fragments: Seq<Fragment>)
    requires
        a.name == b.name,
        a.plan == b.plan,
        a.overview == b.overview,
    ensures
        plan_fragments(a, fragments).name == plan_fragments(b, fragments).name,
        plan_fragments(a, fragments).plan == plan_fragments(b, fragments).plan,
        plan_fragments(a, fragments).overview == plan_fragments(b, fragments).overview,
    decreases fragments.len(),
{
    if fragments.len() > 0 {
        lemma_plan_fields_ignore_completed(a, b, fragments.drop_last());
    }
}

// ---------------------------------------------------------------------------
// What a whole edit stream shows
// ---------------------------------------------------------------------------

/// The decoded text of one field: the characters of its text fragments, in
/// order.
pub open spec fn field_text(field: Seq<char>, fragments: Seq<Fragment>) -> Seq<char>
    decreases fragments.len(),
{
    if fragments.len() == 0 {
        Seq::empty()
    } else {
        let text = field_text(field, fragments.drop_last());
        match fragments.last() {
            Fragment::Text(name, c) => if name == field {
                text.push(c)
            } else {
                text
            },
            Fragment::End(_) => text,
        }
    }
}

/// Whether a fragment belongs to the given field.
pub open spec fn of_field(field: Seq<char>, fragment: Fragment) -> bool {
    match fragment {
        Fragment::Text(name, _) => name == field,
        Fragment::End(name) => name == field,
    }
}

/// Streaming chunks one after the other: the presentation after them and all
/// the messages they produced, or none once a chunk failed.
pub open spec fn stream_chunks(p: PresentationV, call_id: Seq<char>, chunks: Seq<Seq<char>>) -> (
    PresentationV,
    Option<Seq<ServerMessageV>>,
)
    decreases chunks.len(),
{
    if chunks.len() == 0 {
        (p, Some(Seq::empty()))
    } else {
        let (q, o) = stream_chunks(p, call_id, chunks.drop_last());
        match o {
            None => (q, None),
            Some(out) => {
                let (r, more) = stream_step(q, call_id, chunks.last());
                match more {
                    None => (r, None),
                    Some(m) => (r, Some(out + m)),
                }
            },
        }
    }
}

/// Streaming chunks one after the other shows what streaming them joined
/// shows: it fails exactly then, and otherwise ends in the same state with
/// the same content and paths.
proof fn lemma_stream_chunks_joined(p: PresentationV, call_id: Seq<char>, chunks: Seq<Seq<char>>)
    requires
        p is Edit,
        chunks.len() > 0,
    ensures
        ({
            let (q, o) = stream_chunks(p, call_id, chunks);
            let (r, w) = stream_step(p, call_id, joined(chunks));
            &&& o is Some <==> w is Some
            &&& o is Some ==> q == r && content_text(o->0) == content_text(w->0) && announced_paths(o->0)
                == announced_paths(w->0)
        }),
    decreases chunks.len(),
{
    if chunks.len() == 1 {
        assert(chunks.drop_last() =~= Seq::<Seq<char>>::empty());
        assert(joined(chunks) =~= chunks.last());
        let (r, w) = stream_step(p, call_id, chunks.last());
        if w is Some {
            assert(Seq::<ServerMessageV>::empty() + w->0 =~= w->0);
        }
    } else {
        let init = chunks.drop_last();
        lemma_stream_chunks_joined(p, call_id, init);
        assert(joined(chunks) == joined(init) + chunks.last());
        law_edit_stream_chunking(p, call_id, joined(init), chunks.last());
        let (q1, o1) = stream_chunks(p, call_id, init);
        let (p1, w1) = stream_step(p, call_id, joined(init));
        if o1 is Some && w1 is Some {
            let (p2, w2) = stream_step(p1, call_id, chunks.last());
            if w2 is Some {
                lemma_content_text_concat(o1->0, w2->0);
                lemma_content_text_concat(w1->0, w2->0);
            }
        }
    }
}

/// Before its field ends, an edit's content streams as the normalized text
/// of that field so far, with a CR held back.
proof fn lemma_content_before_end(path_field: Seq<char>, content_field: Seq<char>, st: EditState, fragments: Seq<Fragment>)
    requires
        path_field != content_field,
        !st.pending_cr,
        forall|i: int| 0 <= i < fragments.len() ==> #[trigger] fragments[i] != Fragment::End(content_field),
    ensures
        ({
            let (end, text, _) = fragment_run(path_field, content_field, st, fragments);
            (text, end.pending_cr) == newline_run(false, field_text(content_field, fragments))
        }),
    decreases fragments.len(),
{
    if fragments.len() > 0 {
        let init = fragments.drop_last();
        assert forall|i: int| 0 <= i < init.len() implies #[trigger] init[i] != Fragment::End(content_field) by {
            assert(init[i] == fragments[i]);
        }
        lemma_content_before_end(path_field, content_field, st, init);
        let (mid, text0, _) = fragment_run(path_field, content_field, st, init);
        assert(fragments.last() == fragments[fragments.len() - 1]);
        match fragments.last() {
            Fragment::Text(name, c) => {
                if name == content_field {
                    let t = field_text(content_field, init);
                    assert(t.push(c).drop_last() =~= t);
                } else {
                    assert(text0 + Seq::<char>::empty() =~= text0);
                }
            },
            Fragment::End(name) => {
                assert(text0 + Seq::<char>::empty() =~= text0);
            },
        }
    }
}

/// Fragments of other fields add no content and leave the pending CR alone.
proof fn lemma_content_after_end(path_field: Seq<char>, content_field: Seq<char>, st: EditState, fragments: Seq<Fragment>)
    requires
        path_field != content_field,
        forall|i: int| 0 <= i < fragments.len() ==> !of_field(content_field, #[trigger] fragments[i]),
    ensures
        ({
            let (end, text, _) = fragment_run(path_field, content_field, st, fragments);
            text == Seq::<char>::empty() && end.pending_cr == st.pending_cr
        }),
        field_text(content_field, fragments) == Seq::<char>::empty(),
    decreases fragments.len(),
{
    if fragments.len() > 0 {
        let init = fragments.drop_last();
        assert forall|i: int| 0 <= i < init.len() implies !of_field(content_field, #[trigger] init[i]) by {
            assert(init[i] == fragments[i]);
        }
        lemma_content_after_end(path_field, content_field, st, init);
        assert(!of_field(content_field, fragments[fragments.len() - 1]));
        assert(Seq::<char>::empty() + Seq::<char>::empty() =~= Seq::<char>::empty());
    }
}

/// A whole edit stream, however its argument text is cut into chunks, shows
/// as content exactly the decoded content field with each CRLF pair and each
/// lone CR turned into one LF, when that field ends once and nothing of it
/// follows its end.
pub proof fn law_edit_content_is_the_normalized_field(
    p: PresentationV,
    call_id: Seq<char>,
    chunks: Seq<Seq<char>>,
    before: Seq<Fragment>,
    after: Seq<Fragment>,
)
    requires
        p matches PresentationV::Edit { fields, path_field, content_field, pending_cr, .. } && !pending_cr
            && path_field != content_field && lex_run(fields, joined(chunks)).1 == before.push(
            Fragment::End(content_field),
        ) + after && (forall|i: int| 0 <= i < before.len() ==> #[trigger] before[i] != Fragment::End(content_field))
            && (forall|i: int| 0 <= i < after.len() ==> !of_field(content_field, #[trigger] after[i])),
    ensures
        stream_chunks(p, call_id, chunks).1 matches Some(out) ==> content_text(out) == crlf_normalized(
            field_text(p->content_field, before),
        ),
{
    if chunks.len() == 0 {
        assert(joined(chunks) == Seq::<char>::empty());
        assert(lex_run(p->Edit_fields, Seq::<char>::empty()).1 == Seq::<Fragment>::empty());
        assert((before.push(Fragment::End(p->content_field)) + after).len() > 0);
        return;
    }
    lemma_stream_chunks_joined(p, call_id, chunks);
    match p {
        PresentationV::Edit { fields, path_field, content_field, path, pending_cr } => {
            let (lex, frags) = lex_run(fields, joined(chunks));
            if lex.phase != Phase::Failed {
                let st = EditState { path, pending_cr };
                lemma_group_edit(path_field, content_field, call_id, st, frags);
                let closed = before.push(Fragment::End(content_field));
                lemma_fragment_run_concat(path_field, content_field, st, closed, after);
                lemma_fragment_run_concat(path_field, content_field, st, before, seq![Fragment::End(content_field)]);
                assert(before + seq![Fragment::End(content_field)] =~= closed);
                lemma_content_before_end(path_field, content_field, st, before);
                lemma_newline_run_normalizes(field_text(content_field, before));
                let (mid, text_b, _) = fragment_run(path_field, content_field, st, before);
                assert(seq![Fragment::End(content_field)].drop_last() =~= Seq::<Fragment>::empty());
                assert(seq![Fragment::End(content_field)].last() == Fragment::End(content_field));
                let (m2, text_e, _) = fragment_run(path_field, content_field, mid, seq![Fragment::End(content_field)]);
                assert(fragment_run(path_field, content_field, mid, Seq::<Fragment>::empty()) == (mid, Seq::<char>::empty(), Seq::<Seq<char>>::empty()));
                assert(text_e == Seq::<char>::empty() + fragment_step(path_field, content_field, mid, Fragment::End(content_field)).1);
                assert(Seq::<char>::empty() + seq!['\n'] =~= seq!['\n']);
                assert(Seq::<char>::empty() + Seq::<char>::empty() =~= Seq::<char>::empty());
                lemma_content_after_end(path_field, content_field, m2, after);
                let (m3, text_a, _) = fragment_run(path_field, content_field, m2, after);
                assert(text_b + text_e + text_a =~= text_b + text_e);
                if mid.pending_cr {
                    assert(text_b + text_e =~= text_b.push('\n'));
                } else {
                    assert(text_b + text_e =~= text_b);
                }
            }
        },
        _ => {},
    }
}

/// Before its field ends, an edit's path gathers that field's text and
/// nothing is announced.
proof fn lemma_path_before_end(path_field: Seq<char>, content_field: Seq<char>, st: EditState, fragments: Seq<Fragment>)
    requires
        forall|i: int| 0 <= i < fragments.len() ==> #[trigger] fragments[i] != Fragment::End(path_field),
    ensures
        ({
            let (end, _, paths) = fragment_run(path_field, content_field, st, fragments);
            end.path == st.path + field_text(path_field, fragments) && paths == Seq::<Seq<char>>::empty()
        }),
    decreases fragments.len(),
{
    if fragments.len() == 0 {
        assert(st.path + Seq::<char>::empty() =~= st.path);
    } else {
        let init = fragments.drop_last();
        assert forall|i: int| 0 <= i < init.len() implies #[trigger] init[i] != Fragment::End(path_field) by {
            assert(init[i] == fragments[i]);
        }
        lemma_path_before_end(path_field, content_field, st, init);
        assert(fragments.last() == fragments[fragments.len() - 1]);
        let t = field_text(path_field, init);
        assert(Seq::<Seq<char>>::empty() + Seq::<Seq<char>>::empty() =~= Seq::<Seq<char>>::empty());
        match fragments.last() {
            Fragment::Text(name, c) => {
                if name == path_field {
                    assert((st.path + t).push(c) =~= st.path + t.push(c));
                }
            },
            Fragment::End(_) => {},
        }
    }
}

/// Fragments of other fields announce no path.
proof fn lemma_path_after_end(path_field: Seq<char>, content_field: Seq<char>, st: EditState, fragments: Seq<Fragment>)
    requires
        forall|i: int| 0 <= i < fragments.len() ==> !of_field(path_field, #[trigger] fragments[i]),
    ensures
        fragment_run(path_field, content_field, st, fragments).2 == Seq::<Seq<char>>::empty(),
    decreases fragments.len(),
{
    if fragments.len() > 0 {
        let init = fragments.drop_last();
        assert forall|i: int| 0 <= i < init.len() implies !of_field(path_field, #[trigger] init[i]) by {
            assert(init[i] == fragments[i]);
        }
        lemma_path_after_end(path_field, content_field, st, init);
        assert(!of_field(path_field, fragments[fragments.len() - 1]));
        assert(Seq::<Seq<char>>::empty() + Seq::<Seq<char>>::empty() =~= Seq::<Seq<char>>::empty());
    }
}

/// A whole edit stream, however its argument text is cut into chunks,
/// announces exactly one path, the decoded path field, when that field ends
/// once and nothing of it follows its end.
pub proof fn law_edit_announces_the_path_once(
    p: PresentationV,
    call_id: Seq<char>,
    chunks: Seq<Seq<char>>,
    before: Seq<Fragment>,
    after: Seq<Fragment>,
)
    requires
        p matches PresentationV::Edit { fields, path_field, path, .. } && path.len() == 0 && lex_run(
            fields,
            joined(chunks),
        ).1 == before.push(Fragment::End(path_field)) + after && (forall|i: int|
            0 <= i < before.len() ==> #[trigger] before[i] != Fragment::End(path_field)) && (forall|i: int|
            0 <= i < after.len() ==> !of_field(path_field, #[trigger] after[i])),
    ensures
        stream_chunks(p, call_id, chunks).1 matches Some(out) ==> announced_paths(out) == seq![
            field_text(p->path_field, before),
        ],
{
    if chunks.len() == 0 {
        assert(joined(chunks) == Seq::<char>::empty());
        assert(lex_run(p->Edit_fields, Seq::<char>::empty()).1 == Seq::<Fragment>::empty());
        assert((before.push(Fragment::End(p->path_field)) + after).len() > 0);
        return;
    }
    lemma_stream_chunks_joined(p, call_id, chunks);
    match p {
        PresentationV::Edit { fields, path_field, content_field, path, pending_cr } => {
            let (lex, frags) = lex_run(fields, joined(chunks));
            if lex.phase != Phase::Failed {
                let st = EditState { path, pending_cr };
                lemma_group_edit(path_field, content_field, call_id, st, frags);
                let end = seq![Fragment::End(path_field)];
                let closed = before.push(Fragment::End(path_field));
                lemma_fragment_run_concat(path_field, content_field, st, closed, after);
                lemma_fragment_run_concat(path_field, content_field, st, before, end);
                assert(before + end =~= closed);
                lemma_path_before_end(path_field, content_field, st, before);
                assert(path + field_text(path_field, before) =~= field_text(path_field, before));
                let (mid, _, paths_b) = fragment_run(path_field, content_field, st, before);
                assert(end.drop_last() =~= Seq::<Fragment>::empty());
                assert(end.last() == Fragment::End(path_field));
                assert(fragment_run(path_field, content_field, mid, Seq::<Fragment>::empty()) == (mid, Seq::<char>::empty(), Seq::<Seq<char>>::empty()));
                let (m2, _, paths_e) = fragment_run(path_field, content_field, mid, end);
                assert(paths_e == Seq::<Seq<char>>::empty() + seq![mid.path]);
                assert(Seq::<Seq<char>>::empty() + seq![mid.path] =~= seq![mid.path]);
                lemma_path_after_end(path_field, content_field, m2, after);
                let (_, _, paths_a) = fragment_run(path_field, content_field, m2, after);
                assert(paths_b + paths_e + paths_a =~= seq![mid.path]);
            }
        },
        _ => {},
    }
}

/// Whether a fragment ends one of a plan's fields.
pub open spec fn ends_plan_field(fragment: Fragment) -> bool {
    fragment matches Fragment::End(name) && (name == "name"@ || name == "plan"@ || name == "overview"@)
}

proof fn lemma_plan_completed(st: PlanState, fragments: Seq<Fragment>)
    ensures
        plan_fragments(st, fragments).completed <==> st.completed || exists|i: int|
            0 <= i < fragments.len() && ends_plan_field(#[trigger] fragments[i]),
    decreases fragments.len(),
{
    if fragments.len() > 0 {
        let init = fragments.drop_last();
        lemma_plan_completed(st, init);
        let n = fragments.len() - 1;
        if exists|i: int| 0 <= i < init.len() && ends_plan_field(#[trigger] init[i]) {
            let k = choose|k: int| 0 <= k < init.len() && ends_plan_field(#[trigger] init[k]);
            assert(fragments[k] == init[k]);
        }
        if exists|i: int| 0 <= i < fragments.len() && ends_plan_field(#[trigger] fragments[i]) {
            let k = choose|k: int| 0 <= k < fragments.len() && ends_plan_field(#[trigger] fragments[k]);
            if k < n {
                assert(init[k] == fragments[k]);
            }
        }
        assert(fragments.last() == fragments[n]);
    }
}

/// A chunk of a plan's arguments yields at most one message, a partial plan
/// holding each field's text received so far, and yields it exactly when
/// the chunk ends the plan's name, plan or overview.
pub proof fn law_plan_partial_when_a_field_ends(p: PresentationV, call_id: Seq<char>, raw: Seq<char>)
    requires
        p is CreatePlan,
    ensures
        stream_step(p, call_id, raw).1 matches Some(out) ==> out.len() <= 1 && (out.len() == 1 <==> exists|i: int|
            0 <= i < lex_run(p->CreatePlan_fields, raw).1.len() && ends_plan_field(
                #[trigger] lex_run(p->CreatePlan_fields, raw).1[i],
            )),
{
    match p {
        PresentationV::CreatePlan { fields, name, plan, overview } => {
            let frags = lex_run(fields, raw).1;
            let st = PlanState { name, plan, overview, completed: false };
            lemma_group_plan(st, frags);
            lemma_plan_completed(st, frags);
        },
        _ => {},
    }
}

/// Whether a tool, by its name reduced to lower-case letters and digits,
/// streams as an edit reading its path from `path_field` and its content
/// from `content_field`: `write` reads `path` and `contents`, `strreplace`
/// reads `path` and `new_string`, `editnotebook` reads `target_notebook` and
/// `new_string`.
pub open spec fn edit_tool_fields(tool: Seq<char>, path_field: Seq<char>, content_field: Seq<char>) -> bool {
    ||| tool == "write"@ && path_field == "path"@ && content_field == "contents"@
    ||| tool == "strreplace"@ && path_field == "path"@ && content_field == "new_string"@
    ||| tool == "editnotebook"@ && path_field == "target_notebook"@ && content_field == "new_string"@
}

/// A stream for a tool that is not a dynamic MCP tool and whose name reduces
/// to `write`, `strreplace` or `editnotebook` starts as an edit with nothing
/// read yet, taking its path and content from that tool's fields.
pub proof fn law_edit_tools_read_their_fields(
    name: Seq<char>,
    path_field: Seq<char>,
    content_field: Seq<char>,
)
    requires
        edit_tool_fields(normalized_name(name), path_field, content_field),
    ensures
        initial_presentation(name, None) == (PresentationV::Edit {
            fields: lex_start(),
            path_field,
            content_field,
            path: Seq::empty(),
            pending_cr: false,
        }),
{
    reveal_strlit("write");
    reveal_strlit("strreplace");
    reveal_strlit("editnotebook");
    let n = normalized_name(name);
    if n == "strreplace"@ {
        assert(n != "write"@) by { assert(n.len() == 10); }
    }
    if n == "editnotebook"@ {
        assert(n != "write"@) by { assert(n.len() == 12); }
        assert(n != "strreplace"@) by { assert(n.len() == 12); }
    }
}

/// A whole edit stream of such a tool, however its argument text is cut
/// into chunks, shows as content exactly that tool's content field
/// (`contents` for `write`, `new_string` for `strreplace` and
/// `editnotebook`), decoded, with each CRLF pair and each lone CR turned into
/// one LF, when that field ends once and nothing of it follows its end.
pub proof fn law_edit_tools_show_their_content_field(
    name: Seq<char>,
    path_field: Seq<char>,
    content_field: Seq<char>,
    call_id: Seq<char>,
    chunks: Seq<Seq<char>>,
    before: Seq<Fragment>,
    after: Seq<Fragment>,
)
    requires
        edit_tool_fields(normalized_name(name), path_field, content_field),
        lex_run(lex_start(), joined(chunks)).1 == before.push(Fragment::End(content_field)) + after,
        forall|i: int| 0 <= i < before.len() ==> #[trigger] before[i] != Fragment::End(content_field),
        forall|i: int| 0 <= i < after.len() ==> !of_field(content_field, #[trigger] after[i]),
    ensures
        stream_chunks(initial_presentation(name, None), call_id, chunks).1 matches Some(out) ==> content_text(out)
            == crlf_normalized(field_text(content_field, before)),
{
    law_edit_tools_read_their_fields(name, path_field, content_field);
    reveal_strlit("path");
    reveal_strlit("contents");
    reveal_strlit("new_string");
    reveal_strlit("target_notebook");
    assert(path_field != content_field) by {
        if path_field == "path"@ {
            assert(path_field.len() == 4);
        } else {
            assert(path_field.len() == 15);
        }
    }
    law_edit_content_is_the_normalized_field(initial_presentation(name, None), call_id, chunks, before, after);
}

} // verus!
