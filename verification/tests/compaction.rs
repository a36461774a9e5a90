use cursor_server::compaction::{
    fallback_summary, input_budget, partition, should_compact, validate_compacted, RESERVE_TOKENS,
};
use cursor_server::json::Json;
use cursor_server::model::{
    estimate_context_tokens, project_messages, CanonicalMessage, CheckpointId, ConversationId,
    MessageContent, ModelSpec, Origin, PreparedRun, PromptSpec, Role, RunAction, RunId, RunKind,
    ToolCall,
};

fn prepared(context_window_tokens: u64) -> PreparedRun {
    let mut model = ModelSpec::new("model");
    model.context_window_tokens = Some(context_window_tokens);
    PreparedRun {
        run_id: RunId::new("run"),
        cursor_request_id: None,
        conversation_id: ConversationId::new("conversation"),
        kind: RunKind::Root,
        model,
        prompt: PromptSpec {
            instructions: String::new(),
            tools: Vec::new(),
        },
        initial_messages: Vec::new(),
        action: RunAction::Start,
        base_checkpoint_id: CheckpointId(1),
    }
}

#[test]
fn automatic_compaction_uses_fixed_reserve_for_every_action() {
    let messages = vec![CanonicalMessage::text(
        "user",
        Role::User,
        Origin::Runtime,
        "x".repeat(40_000),
    )];
    let projected = project_messages(&messages).unwrap();
    let estimated = estimate_context_tokens(&prepared(1).prompt, &projected);
    let mut prepared = prepared(estimated + RESERVE_TOKENS);

    assert!(!should_compact(&prepared, &projected));
    prepared.model.context_window_tokens = Some(estimated + RESERVE_TOKENS - 1);
    assert!(should_compact(&prepared, &projected));

    prepared.action = RunAction::Resume {
        pending_tool_round: None,
    };
    assert!(should_compact(&prepared, &projected));
}

#[test]
fn compacted_history_is_validated_against_the_same_budget() {
    let messages = vec![CanonicalMessage::text(
        "user",
        Role::User,
        Origin::Runtime,
        "x".repeat(40_000),
    )];
    let projected = project_messages(&messages).unwrap();
    let estimated = estimate_context_tokens(&prepared(1).prompt, &projected);

    assert_eq!(
        validate_compacted(&prepared(estimated + RESERVE_TOKENS), &projected),
        Ok(estimated)
    );
    assert!(
        validate_compacted(&prepared(estimated + RESERVE_TOKENS - 1), &projected)
            .unwrap_err()
            .contains("context overflow after compaction")
    );
}

#[test]
fn estimate_counts_four_characters_per_token_rounded_up() {
    let messages = vec![
        CanonicalMessage::text("a", Role::User, Origin::Client, "abcde".into()),
        CanonicalMessage::text("b", Role::Assistant, Origin::Runtime, "fgh".into()),
    ];
    let projected = project_messages(&messages).unwrap();
    assert_eq!(estimate_context_tokens(&prepared(1).prompt, &projected), 2);
    let mut run = prepared(1);
    run.prompt.instructions = "1234".into();
    assert_eq!(estimate_context_tokens(&run.prompt, &projected), 3);
}

#[test]
fn assistant_projection_appends_tool_calls() {
    let messages = vec![CanonicalMessage {
        message_id: "m".into(),
        role: Role::Assistant,
        origin: Origin::Runtime,
        content: MessageContent::Assistant {
            text: "ok ".into(),
            tool_calls: vec![ToolCall {
                index: 0,
                call_id: "c".into(),
                model_call_id: "m".into(),
                name: "Read".into(),
                arguments_text: "{}".into(),
                arguments: Json::Null,
            }],
        },
    }];
    let projected = project_messages(&messages).unwrap();
    assert_eq!(projected[0].text, "ok Read{}");
    assert_eq!(projected[0].role, Role::Assistant);
}

#[test]
fn budget_saturates_below_the_reserve() {
    assert_eq!(input_budget(&prepared(5)), Some(0));
    assert_eq!(input_budget(&prepared(50_000)), Some(40_000));
    let mut run = prepared(1);
    run.model.context_window_tokens = None;
    assert_eq!(input_budget(&run), None);
    assert!(!should_compact(&run, &[]));
    assert_eq!(validate_compacted(&run, &[]), Ok(0));
}

#[test]
fn overflow_error_reports_estimate_and_budget() {
    let messages = vec![CanonicalMessage::text("u", Role::User, Origin::Client, "x".repeat(8))];
    let projected = project_messages(&messages).unwrap();
    assert_eq!(
        validate_compacted(&prepared(10_001), &projected),
        Err("context overflow after compaction: estimated input 2 tokens exceeds budget 1 tokens".to_string())
    );
}

#[test]
fn partition_keeps_latest_request_context_and_current_turn_apart() {
    let messages = vec![
        CanonicalMessage::text("request-context:1", Role::User, Origin::Runtime, "old".into()),
        CanonicalMessage::text("a", Role::User, Origin::Client, "hello".into()),
        CanonicalMessage::text("request-context:2", Role::User, Origin::Runtime, "new".into()),
        CanonicalMessage::text("b", Role::Assistant, Origin::Runtime, "hi".into()),
        CanonicalMessage::text("current", Role::User, Origin::Client, "now".into()),
    ];
    let (compactable, retained) = partition(&messages, &["current".to_string()]);
    let ids: Vec<&str> = compactable.iter().map(|m| m.message_id.as_str()).collect();
    assert_eq!(ids, vec!["request-context:1", "a", "b"]);
    assert_eq!(retained.unwrap().message_id, "request-context:2");

    let (compactable, retained) = partition(&messages, &["request-context:2".to_string()]);
    assert_eq!(compactable.len(), 4);
    assert!(retained.is_none());

    let (compactable, retained) = partition(&messages[1..2], &[]);
    assert_eq!(compactable.len(), 1);
    assert!(retained.is_none());
}

#[test]
fn fallback_summary_keeps_the_recent_tail() {
    assert_eq!(
        fallback_summary("[1,2]"),
        "Durable recent conversation state:\n[1,2]"
    );
    let long = format!("{}{}", "a".repeat(5), "é".repeat(12_000));
    let summary = fallback_summary(&long);
    assert_eq!(
        summary,
        format!("Durable recent conversation state:\n{}", "é".repeat(12_000))
    );
}

#[test]
fn the_compaction_trigger_and_the_check_after_it_agree() {
    let messages = vec![CanonicalMessage::text(
        "user",
        Role::User,
        Origin::Runtime,
        "x".repeat(8_000),
    )];
    let projected = project_messages(&messages).unwrap();
    for window in [0u64, 11_000, 11_999, 12_000, 12_001, 50_000] {
        let prepared = prepared(window);
        assert_eq!(
            should_compact(&prepared, &projected),
            validate_compacted(&prepared, &projected).is_err()
        );
    }
}

#[test]
fn a_growing_history_keeps_its_projection_as_a_prefix() {
    let mut history = vec![
        CanonicalMessage::text("u1", Role::User, Origin::Client, "hello".to_string()),
        CanonicalMessage::text("a1", Role::Assistant, Origin::Runtime, "hi".to_string()),
    ];
    let before = project_messages(&history).unwrap();
    history.push(CanonicalMessage::text("u2", Role::User, Origin::Client, "again".to_string()));
    let after = project_messages(&history).unwrap();
    assert_eq!(after.len(), before.len() + 1);
    for (old, new) in before.iter().zip(after.iter()) {
        assert_eq!(old.role, new.role);
        assert_eq!(old.text, new.text);
    }
    assert_eq!(after[2].role, Role::User);
    assert_eq!(after[2].text, "again");
}
