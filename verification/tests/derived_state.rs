use cursor_server::derived_state::{apply_todo_write, fold_derived_state, normalize, DerivedState};
use cursor_server::json::Json;
use cursor_server::model::{CanonicalMessage, MessageContent, Origin, Role, ToolCall, ToolResult};

fn s(text: &str) -> Json {
    Json::Str(text.to_string())
}

fn object(members: Vec<(&str, Json)>) -> Json {
    Json::Object(members.into_iter().map(|(k, v)| (k.to_string(), v)).collect())
}

fn todo(id: &str, status: &str) -> Json {
    object(vec![("id", s(id)), ("status", s(status))])
}

fn call(call_id: &str, name: &str, arguments: Json) -> ToolCall {
    ToolCall {
        index: 0,
        call_id: call_id.to_string(),
        model_call_id: call_id.to_string(),
        name: name.to_string(),
        arguments_text: String::new(),
        arguments,
    }
}

fn assistant(calls: Vec<ToolCall>) -> CanonicalMessage {
    CanonicalMessage {
        message_id: "assistant".to_string(),
        role: Role::Assistant,
        origin: Origin::Runtime,
        content: MessageContent::Assistant {
            text: String::new(),
            tool_calls: calls,
        },
    }
}

fn result(call_id: &str, is_error: bool) -> CanonicalMessage {
    CanonicalMessage {
        message_id: format!("result-{call_id}"),
        role: Role::Tool,
        origin: Origin::Runtime,
        content: MessageContent::ToolResult(ToolResult {
            call_id: call_id.to_string(),
            content: "ok".to_string(),
            is_error,
        }),
    }
}

fn member<'a>(value: &'a Json, key: &str) -> Option<&'a Json> {
    match value {
        Json::Object(members) => members.iter().find(|(k, _)| k == key).map(|(_, v)| v),
        _ => None,
    }
}

fn as_str(value: &Json) -> &str {
    match value {
        Json::Str(text) => text,
        other => panic!("expected a string, got {other:?}"),
    }
}

fn items(value: &Json) -> &Vec<Json> {
    match value {
        Json::Array(items) => items,
        other => panic!("expected an array, got {other:?}"),
    }
}

#[test]
fn tool_names_normalize_to_lower_case_letters_and_digits() {
    assert_eq!(normalize("TodoWrite"), "todowrite");
    assert_eq!(normalize("update_todos"), "updatetodos");
    assert_eq!(normalize("Create-Plan 2"), "createplan2");
}

#[test]
fn empty_history_derives_nothing() {
    let state: DerivedState = fold_derived_state(&[]);
    assert!(state.todos.is_none());
    assert!(state.plan.is_none());
}

#[test]
fn successful_plan_writes_set_the_plan() {
    let messages = vec![
        assistant(vec![call("c1", "CreatePlan", object(vec![("name", s("first"))]))]),
        result("c1", false),
        assistant(vec![call("c2", "update_plan", object(vec![("name", s("second"))]))]),
        result("c2", true),
    ];
    let state = fold_derived_state(&messages);
    let plan = state.plan.expect("plan");
    assert_eq!(as_str(member(&plan, "name").unwrap()), "first");
    assert!(state.todos.is_none());
}

#[test]
fn results_of_unknown_calls_and_other_tools_change_nothing() {
    let messages = vec![
        assistant(vec![call("c1", "Read", object(vec![("path", s("/tmp/a"))]))]),
        result("c1", false),
        result("missing", false),
    ];
    let state = fold_derived_state(&messages);
    assert!(state.todos.is_none());
    assert!(state.plan.is_none());
}

#[test]
fn a_later_call_with_the_same_id_wins() {
    let messages = vec![
        assistant(vec![
            call("c1", "TodoWrite", object(vec![("todos", Json::Array(vec![todo("a", "pending")]))])),
            call("c1", "CreatePlan", object(vec![("name", s("plan"))])),
        ]),
        result("c1", false),
    ];
    let state = fold_derived_state(&messages);
    assert!(state.todos.is_none());
    assert_eq!(as_str(member(state.plan.as_ref().unwrap(), "name").unwrap()), "plan");
}

#[test]
fn a_todo_write_without_merge_replaces_the_list() {
    let input = object(vec![("todos", Json::Array(vec![todo("b", "done")]))]);
    let current = object(vec![("todos", Json::Array(vec![todo("a", "pending")]))]);
    let written = apply_todo_write(Some(current), input);
    let list = items(member(&written, "todos").unwrap());
    assert_eq!(list.len(), 1);
    assert_eq!(as_str(member(&list[0], "id").unwrap()), "b");
    assert!(member(&written, "merge").is_none());
}

#[test]
fn a_merging_todo_write_patches_by_id_and_appends_the_rest() {
    let current = object(vec![(
        "todos",
        Json::Array(vec![todo("a", "pending"), todo("b", "pending")]),
    )]);
    let input = object(vec![
        ("merge", Json::Bool(true)),
        (
            "todos",
            Json::Array(vec![todo("b", "done"), todo("c", "pending"), object(vec![("note", s("x"))])]),
        ),
    ]);
    let written = apply_todo_write(Some(current), input);
    assert!(matches!(member(&written, "merge"), Some(Json::Bool(false))));
    let list = items(member(&written, "todos").unwrap());
    assert_eq!(list.len(), 4);
    assert_eq!(as_str(member(&list[0], "status").unwrap()), "pending");
    assert_eq!(as_str(member(&list[1], "id").unwrap()), "b");
    assert_eq!(as_str(member(&list[1], "status").unwrap()), "done");
    assert_eq!(as_str(member(&list[2], "id").unwrap()), "c");
    assert_eq!(as_str(member(&list[3], "note").unwrap()), "x");
}

#[test]
fn merging_into_nothing_starts_a_new_list() {
    let input = object(vec![
        ("merge", Json::Bool(true)),
        ("todos", Json::Array(vec![todo("a", "pending")])),
    ]);
    let written = apply_todo_write(None, input);
    let list = items(member(&written, "todos").unwrap());
    assert_eq!(list.len(), 1);
    assert!(matches!(member(&written, "merge"), Some(Json::Bool(false))));
}

#[test]
fn folded_todo_writes_merge_into_the_previous_state() {
    let first = object(vec![("todos", Json::Array(vec![todo("a", "pending")]))]);
    let second = object(vec![
        ("merge", Json::Bool(true)),
        ("todos", Json::Array(vec![todo("a", "done")])),
    ]);
    let messages = vec![
        assistant(vec![call("c1", "todo_write", first)]),
        result("c1", false),
        assistant(vec![call("c2", "UpdateTodos", second)]),
        result("c2", false),
    ];
    let state = fold_derived_state(&messages);
    let todos = state.todos.expect("todos");
    let list = items(member(&todos, "todos").unwrap());
    assert_eq!(list.len(), 1);
    assert_eq!(as_str(member(&list[0], "status").unwrap()), "done");
}
