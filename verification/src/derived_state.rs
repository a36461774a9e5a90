//! Builds deterministic prompt state derived from a conversation's history:
//! the current todo list and plan, as the successful tool calls left them.
use vstd::prelude::*;

use crate::json::{
    get_member, key_index, lemma_items_view_len, lemma_key_index_in, lemma_members_view_len, member_index,
    items_view, json_get, members_view, Json, JsonV,
};
use crate::model::{messages_view, CanonicalMessage, ContentV, MessageContent, MessageV, ToolCall, ToolCallV};
use crate::stream::{normalized, normalized_name};
use crate::text::str_eq;

verus! {

// ---------------------------------------------------------------------------
// Object members
// ---------------------------------------------------------------------------

/// The members with `key` set to `value`: a member with that key keeps its
/// place and takes the new value; otherwise the member is added at the end.
pub open spec fn insert_member(members: Seq<(Seq<char>, JsonV)>, key: Seq<char>, value: JsonV) -> Seq<(Seq<char>, JsonV)> {
    match key_index(members, key) {
        Some(i) => members.update(i, (key, value)),
        None => members.push((key, value)),
    }
}

/// The members after each member of `patch` was set in turn.
pub open spec fn extend_members(members: Seq<(Seq<char>, JsonV)>, patch: Seq<(Seq<char>, JsonV)>) -> Seq<(Seq<char>, JsonV)>
    decreases patch.len(),
{
    if patch.len() == 0 {
        members
    } else {
        let before = extend_members(members, patch.drop_last());
        insert_member(before, patch.last().0, patch.last().1)
    }
}

/// Sets `key` to `value` among an object's members.
fn set_member(members: &mut Vec<(String, Json)>, key: String, value: Json)
    ensures
        members_view(final(members)@) == insert_member(members_view(old(members)@), key@, value.view_json()),
{
    let ghost before = members_view(members@);
    proof {
        lemma_members_view_len(members@);
    }
    let found = member_index(members, key.as_str());
    match found {
        Some(i) => {
            proof {
                lemma_key_index_in(before, key@, 0);
            }
            members.remove(i);
            members.insert(i, (key, value));
            proof {
                lemma_members_view_len(members@);
                assert(members_view(members@) =~= before.update(i as int, (key@, value.view_json())));
            }
        },
        None => {
            members.push((key, value));
            proof {
                lemma_members_view_len(members@);
                assert(members_view(members@) =~= before.push((key@, value.view_json())));
            }
        },
    }
}

/// Sets each member of `patch`, in order, among `members`.
fn extend_object(members: &mut Vec<(String, Json)>, patch: &Vec<(String, Json)>)
    ensures
        members_view(final(members)@) == extend_members(members_view(old(members)@), members_view(patch@)),
{
    let ghost start = members_view(members@);
    let ghost ps = members_view(patch@);
    proof {
        lemma_members_view_len(patch@);
    }
    let mut i: usize = 0;
    while i < patch.len()
        invariant
            i <= patch.len() == ps.len(),
            ps == members_view(patch@),
            forall|k: int| 0 <= k < patch.len() ==> #[trigger] ps[k] == (patch@[k].0@, patch@[k].1.view_json()),
            members_view(members@) == extend_members(start, ps.take(i as int)),
        decreases patch.len() - i,
    {
        assert(ps.take(i + 1).drop_last() =~= ps.take(i as int));
        let value = patch[i].1.clone_json();
        set_member(members, patch[i].0.clone(), value);
        i += 1;
    }
    assert(ps.take(ps.len() as int) =~= ps);
}

// ---------------------------------------------------------------------------
// Todo lists
// ---------------------------------------------------------------------------

/// The items of an array; no items for anything else.
pub open spec fn array_items(value: Option<JsonV>) -> Seq<JsonV> {
    match value {
        Some(JsonV::Array(items)) => items,
        _ => Seq::empty(),
    }
}

/// The string id of a todo, if it has one.
pub open spec fn todo_id(todo: JsonV) -> Option<Seq<char>> {
    match json_get(todo, "id"@) {
        Some(JsonV::Str(id)) => Some(id),
        _ => None,
    }
}

/// The first todo at or after `i` with the given id.
pub open spec fn find_todo_from(todos: Seq<JsonV>, id: Seq<char>, i: int) -> Option<int>
    decreases todos.len() - i,
{
    if i < 0 || i >= todos.len() {
        None
    } else if todo_id(todos[i]) == Some(id) {
        Some(i)
    } else {
        find_todo_from(todos, id, i + 1)
    }
}

/// The todos after one patch: a patch whose id names an existing todo object
/// is merged into it member by member; any other patch is appended.
pub open spec fn apply_patch(todos: Seq<JsonV>, patch: JsonV) -> Seq<JsonV> {
    let existing = match todo_id(patch) {
        Some(id) => find_todo_from(todos, id, 0),
        None => None,
    };
    match existing {
        Some(i) => match (todos[i], patch) {
            (JsonV::Object(todo), JsonV::Object(fields)) => todos.update(
                i,
                JsonV::Object(extend_members(todo, fields)),
            ),
            _ => todos.push(patch),
        },
        None => todos.push(patch),
    }
}

/// The todos after each patch was applied in turn.
pub open spec fn apply_patches(todos: Seq<JsonV>, patches: Seq<JsonV>) -> Seq<JsonV>
    decreases patches.len(),
{
    if patches.len() == 0 {
        todos
    } else {
        apply_patch(apply_patches(todos, patches.drop_last()), patches.last())
    }
}

/// Whether a todo write asks to merge into the current list.
pub open spec fn is_merge(input: JsonV) -> bool {
    json_get(input, "merge"@) == Some(JsonV::Bool(true))
}

/// The todo state after a successful todo write: a write that does not ask to
/// merge replaces the state; a merging write applies its todos as patches to
/// the current list and records the result with `merge` set to false.
pub open spec fn todo_write(current: Option<JsonV>, input: JsonV) -> JsonV {
    if !is_merge(input) {
        input
    } else {
        let todos = array_items(
            match current {
                Some(c) => json_get(c, "todos"@),
                None => None,
            },
        );
        let merged = apply_patches(todos, array_items(json_get(input, "todos"@)));
        match input {
            JsonV::Object(members) => JsonV::Object(
                insert_member(
                    insert_member(members, "merge"@, JsonV::Bool(false)),
                    "todos"@,
                    JsonV::Array(merged),
                ),
            ),
            _ => input,
        }
    }
}

proof fn lemma_find_todo_in(todos: Seq<JsonV>, id: Seq<char>, i: int)
    requires
        0 <= i,
    ensures
        find_todo_from(todos, id, i) matches Some(j) ==> i <= j < todos.len() && todo_id(todos[j]) == Some(id),
    decreases todos.len() - i,
{
    if i < todos.len() && todo_id(todos[i]) != Some(id) {
        lemma_find_todo_in(todos, id, i + 1);
    }
}

/// The id of a todo, if it has a string one.
fn todo_id_of(todo: &Json) -> (r: Option<String>)
    ensures
        match todo_id(todo.view_json()) {
            Some(id) => r matches Some(s) && s@ == id,
            None => r is None,
        },
{
    match get_member(todo, "id") {
        Some(Json::Str(id)) => Some(id.clone()),
        _ => None,
    }
}

/// Finds the first todo with the given id.
fn find_todo(todos: &Vec<Json>, id: &str) -> (r: Option<usize>)
    ensures
        r is None <==> find_todo_from(items_view(todos@), id@, 0) is None,
        r matches Some(i) ==> find_todo_from(items_view(todos@), id@, 0) == Some(i as int),
{
    let ghost ts = items_view(todos@);
    proof {
        lemma_items_view_len(todos@);
    }
    let mut i: usize = 0;
    while i < todos.len()
        invariant
            i <= todos.len() == ts.len(),
            ts == items_view(todos@),
            forall|k: int| 0 <= k < todos.len() ==> #[trigger] ts[k] == todos@[k].view_json(),
            find_todo_from(ts, id@, 0) == find_todo_from(ts, id@, i as int),
        decreases todos.len() - i,
    {
        let found = todo_id_of(&todos[i]);
        match found {
            Some(s) => {
                if str_eq(s.as_str(), id) {
                    return Some(i);
                }
            },
            None => {},
        }
        i += 1;
    }
    None
}

/// Applies one patch to a todo list.
fn patch_todos(todos: &mut Vec<Json>, patch: Json)
    ensures
        items_view(final(todos)@) == apply_patch(items_view(old(todos)@), patch.view_json()),
{
    let ghost before = items_view(todos@);
    let ghost pv = patch.view_json();
    proof {
        lemma_items_view_len(todos@);
    }
    let id = todo_id_of(&patch);
    let existing = match id {
        Some(id) => find_todo(todos, id.as_str()),
        None => None,
    };
    match existing {
        Some(i) => {
            proof {
                lemma_find_todo_in(before, todo_id(pv)->0, 0);
            }
            let todo = todos.remove(i);
            match (todo, patch) {
                (Json::Object(mut fields), Json::Object(patch_fields)) => {
                    extend_object(&mut fields, &patch_fields);
                    let merged = Json::Object(fields);
                    let ghost mv = merged.view_json();
                    todos.insert(i, merged);
                    proof {
                        lemma_items_view_len(todos@);
                        assert(items_view(todos@) =~= before.update(i as int, mv));
                    }
                },
                (todo, patch) => {
                    todos.insert(i, todo);
                    todos.push(patch);
                    proof {
                        lemma_items_view_len(todos@);
                        assert(items_view(todos@) =~= before.push(pv));
                    }
                },
            }
        },
        None => {
            todos.push(patch);
            proof {
                lemma_items_view_len(todos@);
                assert(items_view(todos@) =~= before.push(pv));
            }
        },
    }
}

/// A copy of a list of values.
fn clone_items(items: &Vec<Json>) -> (r: Vec<Json>)
    ensures
        items_view(r@) == items_view(items@),
{
    let mut out: Vec<Json> = Vec::new();
    let mut i: usize = 0;
    while i < items.len()
        invariant
            i <= items.len(),
            out.len() == i,
            forall|j: int| 0 <= j < i ==> #[trigger] out@[j].view_json() == items@[j].view_json(),
        decreases items.len() - i,
    {
        out.push(items[i].clone_json());
        i += 1;
    }
    proof {
        crate::json::lemma_items_view_ext(out@, items@);
    }
    out
}

/// The items of an array value, copied; none for anything else.
fn array_copy(value: Option<&Json>) -> (r: Vec<Json>)
    ensures
        items_view(r@) == array_items(
            match value {
                Some(v) => Some(v.view_json()),
                None => None,
            },
        ),
{
    match value {
        Some(Json::Array(items)) => clone_items(items),
        _ => {
            let r: Vec<Json> = Vec::new();
            assert(items_view(r@) =~= Seq::<JsonV>::empty());
            r
        },
    }
}

/// Applies a successful todo write to the current todo state.
pub fn apply_todo_write(current: Option<Json>, input: Json) -> (r: Json)
    ensures
        r.view_json() == todo_write(
            match current {
                Some(c) => Some(c.view_json()),
                None => None,
            },
            input.view_json(),
        ),
{
    let merge = match get_member(&input, "merge") {
        Some(Json::Bool(b)) => *b,
        _ => false,
    };
    if !merge {
        return input;
    }
    let mut todos = match &current {
        Some(c) => array_copy(get_member(c, "todos")),
        None => array_copy(None),
    };
    let patches = array_copy(get_member(&input, "todos"));
    let ghost start = items_view(todos@);
    let ghost ps = items_view(patches@);
    proof {
        lemma_items_view_len(patches@);
    }
    let mut i: usize = 0;
    while i < patches.len()
        invariant
            i <= patches.len() == ps.len(),
            ps == items_view(patches@),
            forall|k: int| 0 <= k < patches.len() ==> #[trigger] ps[k] == patches@[k].view_json(),
            items_view(todos@) == apply_patches(start, ps.take(i as int)),
        decreases patches.len() - i,
    {
        assert(ps.take(i + 1).drop_last() =~= ps.take(i as int));
        patch_todos(&mut todos, patches[i].clone_json());
        i += 1;
    }
    assert(ps.take(ps.len() as int) =~= ps);
    match input {
        Json::Object(mut members) => {
            set_member(&mut members, String::from_str("merge"), Json::Bool(false));
            set_member(&mut members, String::from_str("todos"), Json::Array(todos));
            Json::Object(members)
        },
        other => other,
    }
}

// ---------------------------------------------------------------------------
// Folding a history
// ---------------------------------------------------------------------------

/// The todo list and plan that a history leaves, as raw tool arguments.
pub struct DerivedV {
    pub todos: Option<JsonV>,
    pub plan: Option<JsonV>,
}

/// A tool call remembered while folding: its id, its tool's name, and its
/// arguments.
pub type CallEntry = (Seq<char>, Seq<char>, JsonV);

/// The state of a fold: what was derived so far and the calls seen so far.
pub type FoldV = (DerivedV, Seq<CallEntry>);

/// The prompt state derived from a conversation's history.
#[derive(Debug)]
pub struct DerivedState {
    pub todos: Option<Json>,
    pub plan: Option<Json>,
}

pub open spec fn option_view(value: Option<Json>) -> Option<JsonV> {
    match value {
        Some(v) => Some(v.view_json()),
        None => None,
    }
}

impl DerivedState {
    pub open spec fn view_state(&self) -> DerivedV {
        DerivedV { todos: option_view(self.todos), plan: option_view(self.plan) }
    }
}

/// The most recent call with the given id: a later call under the same id
/// replaces an earlier one.
pub open spec fn latest_call(calls: Seq<CallEntry>, id: Seq<char>) -> Option<(Seq<char>, JsonV)>
    decreases calls.len(),
{
    if calls.len() == 0 {
        None
    } else if calls.last().0 == id {
        Some((calls.last().1, calls.last().2))
    } else {
        latest_call(calls.drop_last(), id)
    }
}

/// The calls that an assistant message makes, in order.
pub open spec fn call_entries(calls: Seq<ToolCallV>) -> Seq<CallEntry> {
    calls.map_values(|c: ToolCallV| (c.call_id, c.name, c.arguments))
}

/// Whether a normalized tool name writes the todo list.
pub open spec fn is_todo_tool(name: Seq<char>) -> bool {
    name == "todowrite"@ || name == "updatetodos"@
}

/// Whether a normalized tool name writes the plan.
pub open spec fn is_plan_tool(name: Seq<char>) -> bool {
    name == "createplan"@ || name == "updateplan"@ || name == "writeplan"@
}

/// One message folded into the state: an assistant message records its
/// calls; a successful result of a known call to a todo tool applies that
/// call's arguments as a todo write, and one of a plan tool makes them the
/// plan; everything else leaves the state alone.
pub open spec fn fold_message(st: FoldV, message: MessageV) -> FoldV {
    match message.content {
        ContentV::Assistant { tool_calls, .. } => (st.0, st.1 + call_entries(tool_calls)),
        ContentV::ToolResult(result) => {
            if result.is_error {
                st
            } else {
                match latest_call(st.1, result.call_id) {
                    None => st,
                    Some((name, input)) => {
                        let tool = normalized_name(name);
                        if is_todo_tool(tool) {
                            (DerivedV { todos: Some(todo_write(st.0.todos, input)), plan: st.0.plan }, st.1)
                        } else if is_plan_tool(tool) {
                            (DerivedV { todos: st.0.todos, plan: Some(input) }, st.1)
                        } else {
                            st
                        }
                    },
                }
            }
        },
        _ => st,
    }
}

/// The state after folding a whole history, from nothing derived and no calls.
pub open spec fn fold_messages(messages: Seq<MessageV>) -> FoldV
    decreases messages.len(),
{
    if messages.len() == 0 {
        (DerivedV { todos: None, plan: None }, Seq::empty())
    } else {
        fold_message(fold_messages(messages.drop_last()), messages.last())
    }
}

/// The prompt state that a history derives.
pub open spec fn derived_of(messages: Seq<MessageV>) -> DerivedV {
    fold_messages(messages).0
}

/// The tool calls that the assistant messages of a history make, in order.
pub open spec fn history_calls(messages: Seq<MessageV>) -> Seq<CallEntry>
    decreases messages.len(),
{
    if messages.len() == 0 {
        Seq::empty()
    } else {
        match messages.last().content {
            ContentV::Assistant { tool_calls, .. } => history_calls(messages.drop_last()) + call_entries(
                tool_calls,
            ),
            _ => history_calls(messages.drop_last()),
        }
    }
}

/// Whether a message, after a history, is a successful result of a call
/// that the history made to a todo or plan tool.
pub open spec fn writes_derived_state(history: Seq<MessageV>, message: MessageV) -> bool {
    message.content matches ContentV::ToolResult(result) && !result.is_error && (latest_call(
        history_calls(history),
        result.call_id,
    ) matches Some((name, _)) && (is_todo_tool(normalized_name(name)) || is_plan_tool(
        normalized_name(name),
    )))
}

/// The calls a fold has seen are those of the history's assistant messages.
proof fn lemma_fold_calls(messages: Seq<MessageV>)
    ensures
        fold_messages(messages).1 == history_calls(messages),
    decreases messages.len(),
{
    if messages.len() > 0 {
        lemma_fold_calls(messages.drop_last());
    }
}

/// One more message changes the todo list and plan that a history derives
/// only when it is a successful result of a call that the history made to a
/// todo or plan tool: an assistant message, a failed result, the result of a
/// call that no assistant message made, the result of any other tool, and
/// any other message leave them as they were.
pub proof fn law_only_tool_writes_change_derived_state(history: Seq<MessageV>, message: MessageV)
    requires
        !writes_derived_state(history, message),
    ensures
        derived_of(history.push(message)) == derived_of(history),
{
    assert(history.push(message).drop_last() =~= history);
    lemma_fold_calls(history);
}

/// A successful result of a call that the history made to a tool whose name,
/// reduced to lower-case letters and digits, is `createplan`, `updateplan`
/// or `writeplan` makes that call's arguments the derived plan and leaves the
/// todo list as it was.
pub proof fn law_plan_writes_set_the_plan(
    history: Seq<MessageV>,
    message: MessageV,
    name: Seq<char>,
    input: JsonV,
)
    requires
        message.content matches ContentV::ToolResult(result) && !result.is_error && latest_call(
            history_calls(history),
            result.call_id,
        ) == Some((name, input)),
        normalized_name(name) == "createplan"@ || normalized_name(name) == "updateplan"@
            || normalized_name(name) == "writeplan"@,
    ensures
        derived_of(history.push(message)).plan == Some(input),
        derived_of(history.push(message)).todos == derived_of(history).todos,
{
    reveal_strlit("createplan");
    reveal_strlit("updateplan");
    reveal_strlit("writeplan");
    reveal_strlit("todowrite");
    reveal_strlit("updatetodos");
    let n = normalized_name(name);
    assert(!is_todo_tool(n)) by {
        if n == "todowrite"@ {
            assert(n[0] == 't');
        }
        if n == "updatetodos"@ {
            assert(n.len() == 11);
        }
    }
    assert(history.push(message).drop_last() =~= history);
    lemma_fold_calls(history);
}

/// A successful result of a call that the history made to a tool whose name,
/// reduced to lower-case letters and digits, is `todowrite` or `updatetodos`
/// applies that call's arguments to the derived todo list as a todo write and
/// leaves the plan as it was.
pub proof fn law_todo_writes_update_the_todos(
    history: Seq<MessageV>,
    message: MessageV,
    name: Seq<char>,
    input: JsonV,
)
    requires
        message.content matches ContentV::ToolResult(result) && !result.is_error && latest_call(
            history_calls(history),
            result.call_id,
        ) == Some((name, input)),
        normalized_name(name) == "todowrite"@ || normalized_name(name) == "updatetodos"@,
    ensures
        derived_of(history.push(message)).todos == Some(todo_write(derived_of(history).todos, input)),
        derived_of(history.push(message)).plan == derived_of(history).plan,
{
    assert(history.push(message).drop_last() =~= history);
    lemma_fold_calls(history);
}

pub open spec fn calls_view(calls: Seq<(String, String, Json)>) -> Seq<CallEntry> {
    calls.map_values(|c: (String, String, Json)| (c.0@, c.1@, c.2.view_json()))
}

/// Finds the most recent call with the given id.
fn latest_call_index(calls: &Vec<(String, String, Json)>, id: &str) -> (r: Option<usize>)
    ensures
        match latest_call(calls_view(calls@), id@) {
            Some(found) => r matches Some(k) && k < calls.len() && found == (
                calls@[k as int].1@,
                calls@[k as int].2.view_json(),
            ),
            None => r is None,
        },
{
    let ghost cs = calls_view(calls@);
    assert(cs.take(cs.len() as int) =~= cs);
    let mut k: usize = calls.len();
    while k > 0
        invariant
            k <= calls.len(),
            cs == calls_view(calls@),
            latest_call(cs, id@) == latest_call(cs.take(k as int), id@),
        decreases k,
    {
        assert(cs.take(k as int).drop_last() =~= cs.take(k - 1));
        if str_eq(calls[k - 1].0.as_str(), id) {
            return Some(k - 1);
        }
        k -= 1;
    }
    None
}

/// Whether a normalized tool name writes the todo list.
fn todo_tool(name: &str) -> (r: bool)
    ensures
        r == is_todo_tool(name@),
{
    str_eq(name, "todowrite") || str_eq(name, "updatetodos")
}

/// Whether a normalized tool name writes the plan.
fn plan_tool(name: &str) -> (r: bool)
    ensures
        r == is_plan_tool(name@),
{
    str_eq(name, "createplan") || str_eq(name, "updateplan") || str_eq(name, "writeplan")
}

/// Reduces a tool name to its lower-cased ASCII letters and digits.
pub fn normalize(value: &str) -> (r: String)
    ensures
        r@ == normalized_name(value@),
{
    normalized(value)
}

/// Folds a conversation's history into its current todo list and plan.
pub fn fold_derived_state(messages: &[CanonicalMessage]) -> (r: DerivedState)
    ensures
        r.view_state() == derived_of(messages_view(messages@)),
{
    let ghost mv = messages_view(messages@);
    let mut todos: Option<Json> = None;
    let mut plan: Option<Json> = None;
    let mut calls: Vec<(String, String, Json)> = Vec::new();
    assert(calls_view(calls@) =~= Seq::<CallEntry>::empty());
    let mut i: usize = 0;
    while i < messages.len()
        invariant
            i <= messages.len(),
            mv == messages_view(messages@),
            fold_messages(mv.take(i as int)) == (
                DerivedV { todos: option_view(todos), plan: option_view(plan) },
                calls_view(calls@),
            ),
        decreases messages.len() - i,
    {
        assert(mv.take(i + 1).drop_last() =~= mv.take(i as int));
        assert(mv.take(i + 1).last() == messages@[i as int]@);
        match &messages[i].content {
            MessageContent::Assistant { tool_calls, .. } => {
                let ghost base = calls_view(calls@);
                let ghost tcv = tool_calls@.map_values(|c: ToolCall| c@);
                let mut j: usize = 0;
                while j < tool_calls.len()
                    invariant
                        j <= tool_calls.len(),
                        tcv == tool_calls@.map_values(|c: ToolCall| c@),
                        calls_view(calls@) == base + call_entries(tcv.take(j as int)),
                    decreases tool_calls.len() - j,
                {
                    let call = &tool_calls[j];
                    let ghost before = calls_view(calls@);
                    let ghost entry: CallEntry = (call.call_id@, call.name@, call.arguments.view_json());
                    calls.push((call.call_id.clone(), call.name.clone(), call.arguments.clone_json()));
                    assert(calls_view(calls@) =~= before.push(entry));
                    assert(tcv[j as int] == call@);
                    assert(call_entries(tcv.take(j + 1)) =~= call_entries(tcv.take(j as int)).push(entry));
                    assert(calls_view(calls@) =~= base + call_entries(tcv.take(j + 1)));
                    j += 1;
                }
                assert(tcv.take(tcv.len() as int) =~= tcv);
            },
            MessageContent::ToolResult(result) => {
                if !result.is_error {
                    match latest_call_index(&calls, result.call_id.as_str()) {
                        Some(k) => {
                            let tool = normalize(calls[k].1.as_str());
                            let input = calls[k].2.clone_json();
                            if todo_tool(tool.as_str()) {
                                let current = todos;
                                todos = Some(apply_todo_write(current, input));
                            } else if plan_tool(tool.as_str()) {
                                plan = Some(input);
                            }
                        },
                        None => {},
                    }
                }
            },
            _ => {},
        }
        i += 1;
    }
    assert(mv.take(mv.len() as int) =~= mv);
    DerivedState { todos, plan }
}

} // verus!
