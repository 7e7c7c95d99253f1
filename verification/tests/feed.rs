use squads_core::feed::{
    assemble, classify, expand_click, expansion_key, failure_notice, ConversationFetch,
    ExpansionStore, FeedEntry, FeedError,
};
use squads_core::model::{Activity, ChatMessage, Conversation, Intent};

fn activity(thread: &str, message: &str, chain: Option<&str>) -> Activity {
    Activity {
        source_thread_id: thread.to_string(),
        source_message_id: message.to_string(),
        source_reply_chain_id: chain.map(|c| c.to_string()),
    }
}

fn feed_item(id: &str, a: Activity) -> ChatMessage {
    ChatMessage { id: id.to_string(), content: None, activity: Some(a) }
}

fn plain(id: &str, content: &str) -> ChatMessage {
    ChatMessage { id: id.to_string(), content: Some(content.to_string()), activity: None }
}

fn expand(thread: &str, grouping: &str, key: &str) -> Intent {
    Intent::ExpandActivity {
        thread_id: thread.to_string(),
        grouping_id: grouping.to_string(),
        key: key.to_string(),
    }
}

fn two_activities() -> (Activity, Activity, Vec<ChatMessage>) {
    let a1 = activity("thread-1", "m-1", None);
    let a2 = activity("thread-2", "m-2", Some("chain-2"));
    let stream = vec![feed_item("x1", a1.clone()), feed_item("x2", a2.clone())];
    (a1, a2, stream)
}

#[test]
fn empty_store_gives_previews_newest_first() {
    let (a1, a2, stream) = two_activities();
    let store = ExpansionStore::new();
    let feed = assemble(&stream, &store).unwrap();
    assert_eq!(
        feed,
        vec![
            FeedEntry::Preview {
                activity: a2,
                on_click: expand("thread-2", "chain-2", "expanded_activity_0"),
            },
            FeedEntry::Preview {
                activity: a1,
                on_click: expand("thread-1", "m-1", "expanded_activity_1"),
            },
        ]
    );
}

#[test]
fn empty_payload_gives_failure_marker() {
    let (a1, _a2, stream) = two_activities();
    let mut store = ExpansionStore::new();
    store.fetched("expanded_activity_0", Some(Vec::new()));
    let feed = assemble(&stream, &store).unwrap();
    assert_eq!(
        feed,
        vec![
            FeedEntry::Failed { on_click: expand("thread-2", "chain-2", "expanded_activity_0") },
            FeedEntry::Preview {
                activity: a1,
                on_click: expand("thread-1", "m-1", "expanded_activity_1"),
            },
        ]
    );
}

#[test]
fn failed_fetch_gives_failure_marker() {
    let (_a1, _a2, stream) = two_activities();
    let mut store = ExpansionStore::new();
    store.fetched("expanded_activity_1", None);
    let feed = assemble(&stream, &store).unwrap();
    assert_eq!(
        feed[1],
        FeedEntry::Failed { on_click: expand("thread-1", "m-1", "expanded_activity_1") }
    );
    assert!(matches!(feed[0], FeedEntry::Preview { .. }));
}

#[test]
fn loaded_payload_gives_conversation_in_stored_order() {
    let (_a1, _a2, stream) = two_activities();
    let messages = vec![plain("r1", "first"), plain("r2", "second"), plain("r3", "third")];
    let mut store = ExpansionStore::new();
    store.fetched("expanded_activity_1", Some(messages.clone()));
    let feed = assemble(&stream, &store).unwrap();
    assert_eq!(feed.len(), 2);
    assert_eq!(
        feed[1],
        FeedEntry::Expanded {
            conversation: Conversation {
                id: "expanded_activity_1".to_string(),
                container_id: String::new(),
                latest_delivery_time: String::new(),
                messages,
            },
            on_click: Intent::CollapseActivity { key: "expanded_activity_1".to_string() },
        }
    );
}

#[test]
fn pending_key_still_previews() {
    let (_a1, a2, stream) = two_activities();
    let mut store = ExpansionStore::new();
    assert!(store.expand("expanded_activity_0"));
    let feed = assemble(&stream, &store).unwrap();
    assert_eq!(
        feed[0],
        FeedEntry::Preview {
            activity: a2,
            on_click: expand("thread-2", "chain-2", "expanded_activity_0"),
        }
    );
}

#[test]
fn empty_stream_gives_empty_feed() {
    let store = ExpansionStore::new();
    assert_eq!(assemble(&Vec::new(), &store), Ok(Vec::new()));
}

#[test]
fn message_without_activity_is_refused_at_first_feed_position() {
    let a = activity("t", "m", None);
    let stream = vec![
        plain("note-a", "oldest"),
        feed_item("x1", a.clone()),
        plain("note-b", "no activity"),
        feed_item("x3", a),
    ];
    let store = ExpansionStore::new();
    assert_eq!(assemble(&stream, &store), Err(FeedError::MissingActivity { position: 1 }));
}

#[test]
fn expansion_key_is_prefix_and_decimal_position() {
    assert_eq!(expansion_key(0), "expanded_activity_0");
    assert_eq!(expansion_key(7), "expanded_activity_7");
    assert_eq!(expansion_key(10), "expanded_activity_10");
    assert_eq!(expansion_key(1205), "expanded_activity_1205");
    assert_ne!(expansion_key(1), expansion_key(10));
}

#[test]
fn grouping_id_prefers_reply_chain() {
    assert_eq!(activity("t", "m", Some("c")).grouping_id(), "c");
    assert_eq!(activity("t", "m", None).grouping_id(), "m");
    assert_eq!(
        expand_click(&activity("t", "m", Some("c")), "k"),
        expand("t", "c", "k")
    );
}

#[test]
fn classify_covers_the_three_states() {
    let a = activity("t", "m", None);
    assert_eq!(
        classify(&a, "k", None),
        FeedEntry::Preview { activity: a.clone(), on_click: expand("t", "m", "k") }
    );
    let none: Vec<ChatMessage> = Vec::new();
    assert_eq!(
        classify(&a, "k", Some(&none)),
        FeedEntry::Failed { on_click: expand("t", "m", "k") }
    );
    let some = vec![plain("r", "hello")];
    match classify(&a, "k", Some(&some)) {
        FeedEntry::Expanded { conversation, on_click } => {
            assert_eq!(conversation.messages, some);
            assert_eq!(conversation.id, "k");
            assert_eq!(on_click, Intent::CollapseActivity { key: "k".to_string() });
        }
        other => panic!("not expanded: {:?}", other),
    }
}

#[test]
fn failure_notice_text() {
    assert_eq!(failure_notice(), "Failed to load conversation.");
}

#[test]
fn repeated_expand_starts_one_fetch() {
    let mut store = ExpansionStore::new();
    assert!(store.expand("k"));
    assert!(!store.expand("k"));
    assert!(!store.expand("k"));
    assert!(store.expand("other"));
    assert_eq!(store.lookup("k"), None);
}

#[test]
fn expand_after_failure_tries_again() {
    let mut store = ExpansionStore::new();
    assert!(store.expand("k"));
    store.fetched("k", None);
    assert_eq!(store.lookup("k"), Some(&Vec::new()));
    assert!(store.expand("k"));
    assert!(!store.expand("k"));
    assert_eq!(store.lookup("k"), None);
}

#[test]
fn expand_of_loaded_conversation_starts_nothing() {
    let mut store = ExpansionStore::new();
    assert!(store.expand("k"));
    let messages = vec![plain("r", "hello")];
    store.fetched("k", Some(messages.clone()));
    assert!(!store.expand("k"));
    assert_eq!(store.lookup("k"), Some(&messages));
}

#[test]
fn collapse_reverts_to_preview() {
    let (_a1, _a2, stream) = two_activities();
    let mut store = ExpansionStore::new();
    store.fetched("expanded_activity_0", Some(vec![plain("r", "hello")]));
    assert!(matches!(assemble(&stream, &store).unwrap()[0], FeedEntry::Expanded { .. }));
    store.collapse("expanded_activity_0");
    assert_eq!(store.lookup("expanded_activity_0"), None);
    assert!(matches!(assemble(&stream, &store).unwrap()[0], FeedEntry::Preview { .. }));
    assert!(store.expand("expanded_activity_0"));
}

#[test]
fn late_result_is_kept_after_collapse() {
    let mut store = ExpansionStore::new();
    assert!(store.expand("k"));
    store.collapse("k");
    let messages = vec![plain("r", "late")];
    store.fetched("k", Some(messages.clone()));
    assert_eq!(store.lookup("k"), Some(&messages));
}

#[test]
fn handle_applies_intents_and_names_the_fetch() {
    let mut store = ExpansionStore::new();
    let click = expand("thread-1", "chain-1", "expanded_activity_3");
    assert_eq!(
        store.handle(&click),
        Some(ConversationFetch {
            thread_id: "thread-1".to_string(),
            grouping_id: "chain-1".to_string(),
            key: "expanded_activity_3".to_string(),
        })
    );
    assert_eq!(store.handle(&click), None);
    store.fetched("expanded_activity_3", Some(vec![plain("r", "hello")]));
    assert_eq!(store.handle(&click), None);
    let open = Intent::OpenTeam { team_id: "t".to_string(), channel_id: "c".to_string() };
    assert_eq!(store.handle(&open), None);
    assert!(store.lookup("expanded_activity_3").is_some());
    let collapse = Intent::CollapseActivity { key: "expanded_activity_3".to_string() };
    assert_eq!(store.handle(&collapse), None);
    assert_eq!(store.lookup("expanded_activity_3"), None);
    assert!(store.handle(&click).is_some());
}
