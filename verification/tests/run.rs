use cursor_server::error::Error;
use cursor_server::model::{CanonicalMessage, ConversationId, Origin, Role, RunId};
use cursor_server::run::{ActiveRuns, InsertTarget, RunFailure};

#[test]
fn failures_name_their_category() {
    assert_eq!(RunFailure::Protocol("x".to_string()).category(), "protocol");
    assert_eq!(RunFailure::Provider("x".to_string()).category(), "provider");
    assert_eq!(RunFailure::Store("x".to_string()).category(), "store");
    assert_eq!(RunFailure::Client("x".to_string()).category(), "client");
}

#[test]
fn errors_become_run_failures() {
    assert_eq!(
        RunFailure::from(Error::Config("bad".to_string())),
        RunFailure::Protocol("bad".to_string())
    );
    assert_eq!(
        RunFailure::from(Error::Cancelled),
        RunFailure::Client("run was cancelled".to_string())
    );
    assert_eq!(
        RunFailure::from(Error::Http("timeout".to_string())),
        RunFailure::Provider("timeout".to_string())
    );
    assert_eq!(
        RunFailure::from(Error::RunNotFound("r1".to_string())),
        RunFailure::Store("run not found: r1".to_string())
    );
    assert_eq!(
        RunFailure::from(Error::Json("eof".to_string())),
        RunFailure::Protocol("eof".to_string())
    );
}

#[test]
fn activating_a_new_run_hands_back_the_replaced_one() {
    let mut runs: ActiveRuns<u32> = ActiveRuns::new();
    let conversation = ConversationId::new("c");
    assert_eq!(runs.activate(conversation.clone(), RunId::new("r1"), 1), None);
    assert_eq!(runs.activate(conversation.clone(), RunId::new("r1"), 2), None);
    assert_eq!(runs.activate(conversation.clone(), RunId::new("r2"), 3), Some(2));
    assert_eq!(runs.get(&conversation), Some(&3));
}

#[test]
fn only_the_current_run_releases_its_conversation() {
    let mut runs: ActiveRuns<u32> = ActiveRuns::new();
    let conversation = ConversationId::new("c");
    runs.activate(conversation.clone(), RunId::new("old"), 1);
    runs.activate(conversation.clone(), RunId::new("new"), 2);
    runs.release(&conversation, &RunId::new("old"));
    assert_eq!(runs.get(&conversation), Some(&2));
    runs.release(&conversation, &RunId::new("new"));
    assert_eq!(runs.get(&conversation), None);
}

#[test]
fn releasing_one_conversation_keeps_the_others() {
    let mut runs: ActiveRuns<u32> = ActiveRuns::new();
    runs.activate(ConversationId::new("a"), RunId::new("r"), 1);
    runs.activate(ConversationId::new("b"), RunId::new("r"), 2);
    runs.release(&ConversationId::new("a"), &RunId::new("r"));
    assert_eq!(runs.get(&ConversationId::new("a")), None);
    assert_eq!(runs.get(&ConversationId::new("b")), Some(&2));
}

#[test]
fn shutdown_hands_back_every_handle() {
    let mut runs: ActiveRuns<u32> = ActiveRuns::new();
    runs.activate(ConversationId::new("a"), RunId::new("r"), 1);
    runs.activate(ConversationId::new("b"), RunId::new("r"), 2);
    let mut handles = runs.shutdown();
    handles.sort();
    assert_eq!(handles, vec![1, 2]);
    assert_eq!(runs.get(&ConversationId::new("a")), None);
}

#[test]
fn inserted_messages_go_to_the_active_run() {
    let mut runs: ActiveRuns<u32> = ActiveRuns::new();
    let conversation = ConversationId::new("c");
    let message = CanonicalMessage::text("m", Role::User, Origin::Client, "hi".to_string());
    assert!(matches!(runs.insertion_target(&conversation, &[]), InsertTarget::Nothing));
    assert!(matches!(
        runs.insertion_target(&conversation, std::slice::from_ref(&message)),
        InsertTarget::NoActiveRun
    ));
    runs.activate(conversation.clone(), RunId::new("r"), 7);
    assert!(matches!(
        runs.insertion_target(&conversation, std::slice::from_ref(&message)),
        InsertTarget::Run(&7)
    ));
}
