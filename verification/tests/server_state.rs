use mcp_kit::server::cancellation::{pending_status, CancellationManager};
use mcp_kit::server::roots::RootsManager;
use mcp_kit::server::session::{Session, SessionId};
use mcp_kit::server::subscription::SubscriptionManager;
use mcp_kit::types::{ClientCapabilities, RequestId, Root, RootsCapability, SamplingCapability};

fn root(uri: &str, name: Option<&str>) -> Root {
    Root { uri: uri.to_string(), name: name.map(|n| n.to_string()) }
}

#[test]
fn test_register_and_cancel() {
    let mut mgr = CancellationManager::new();
    let session = SessionId::new();
    let request_id = RequestId::Number(1);

    let token = mgr.register(&session, &request_id);
    assert!(!token.is_cancelled());
    assert!(mgr.is_pending(&session, &request_id));

    mgr.cancel(&session, &request_id);
    assert!(token.is_cancelled());
}

#[test]
fn test_complete_removes() {
    let mut mgr = CancellationManager::new();
    let session = SessionId::new();
    let request_id = RequestId::Number(1);

    mgr.register(&session, &request_id);
    assert_eq!(mgr.pending_count(), 1);

    mgr.complete(&session, &request_id);
    assert_eq!(mgr.pending_count(), 0);
}

#[test]
fn cancel_reports_whether_found_and_keeps_tracking() {
    let mut mgr = CancellationManager::new();
    let session = SessionId("s1".to_string());
    let id = RequestId::String("abc".to_string());
    assert!(!mgr.cancel(&session, &id));
    mgr.register(&session, &id);
    assert!(mgr.cancel(&session, &id));
    assert_eq!(mgr.pending_count(), 1);
    assert!(!mgr.is_pending(&session, &id));
}

#[test]
fn register_twice_tracks_once() {
    let mut mgr = CancellationManager::new();
    let session = SessionId("s1".to_string());
    let id = RequestId::Number(7);
    let first = mgr.register(&session, &id);
    let second = mgr.register(&session, &id);
    assert_eq!(mgr.pending_count(), 1);
    mgr.cancel(&session, &id);
    assert!(second.is_cancelled());
    assert!(!first.is_cancelled());
}

#[test]
fn cancel_all_only_touches_one_session() {
    let mut mgr = CancellationManager::new();
    let a = SessionId("a".to_string());
    let b = SessionId("b".to_string());
    let ta1 = mgr.register(&a, &RequestId::Number(1));
    let ta2 = mgr.register(&a, &RequestId::Number(2));
    let tb = mgr.register(&b, &RequestId::Number(1));
    assert_eq!(mgr.pending_count(), 3);
    mgr.cancel_all(&a);
    assert!(ta1.is_cancelled());
    assert!(ta2.is_cancelled());
    assert!(!tb.is_cancelled());
    assert_eq!(mgr.pending_count(), 1);
    assert!(mgr.is_pending(&b, &RequestId::Number(1)));
    assert!(!mgr.is_pending(&a, &RequestId::Number(1)));
}

#[test]
fn number_and_string_ids_differ() {
    let mut mgr = CancellationManager::new();
    let s = SessionId("s".to_string());
    mgr.register(&s, &RequestId::Number(1));
    assert!(!mgr.is_pending(&s, &RequestId::String("1".to_string())));
    mgr.complete(&s, &RequestId::String("1".to_string()));
    assert_eq!(mgr.pending_count(), 1);
}

#[test]
fn test_set_and_get_roots() {
    let mut mgr = RootsManager::new();

    let roots = vec![root("file:///home/user/project", Some("Project")), root("file:///tmp", None)];

    mgr.set_roots(roots);

    assert_eq!(mgr.count(), 2);
    assert!(mgr.has_roots());
    let got = mgr.roots();
    assert_eq!(got.len(), 2);
    assert_eq!(got[0].uri, "file:///home/user/project");
    assert_eq!(got[0].name.as_deref(), Some("Project"));
    assert_eq!(got[1].uri, "file:///tmp");
    assert_eq!(got[1].name, None);
}

#[test]
fn test_is_within_roots() {
    let mut mgr = RootsManager::new();

    mgr.set_roots(vec![root("file:///home/user/project", None)]);

    assert!(mgr.is_within_roots("file:///home/user/project/src/main.rs"));
    assert!(!mgr.is_within_roots("file:///etc/passwd"));
}

#[test]
fn test_no_roots_allows_all() {
    let mgr = RootsManager::new();
    // No roots set = allow all
    assert!(mgr.is_within_roots("file:///anywhere"));
}

#[test]
fn find_root_returns_first_containing_root() {
    let mut mgr = RootsManager::new();
    mgr.set_roots(vec![root("file:///a", Some("A")), root("file:///a/b", Some("AB"))]);
    let found = mgr.find_root("file:///a/b/c.txt").unwrap();
    assert_eq!(found.name.as_deref(), Some("A"));
    assert!(mgr.find_root("file:///z").is_none());
    mgr.clear();
    assert!(!mgr.has_roots());
    assert_eq!(mgr.count(), 0);
    assert!(mgr.is_within_roots("file:///z"));
    assert!(mgr.find_root("file:///a").is_none());
}

#[test]
fn test_subscribe_unsubscribe() {
    let mut mgr = SubscriptionManager::new();
    let session = SessionId::new();

    assert!(mgr.subscribe(&session, "file:///test.txt"));
    assert!(!mgr.subscribe(&session, "file:///test.txt")); // duplicate

    assert!(mgr.is_subscribed(&session, "file:///test.txt"));
    assert_eq!(mgr.subscriber_count("file:///test.txt"), 1);

    assert!(mgr.unsubscribe(&session, "file:///test.txt"));
    assert!(!mgr.is_subscribed(&session, "file:///test.txt"));
}

#[test]
fn test_unsubscribe_all() {
    let mut mgr = SubscriptionManager::new();
    let session = SessionId::new();

    mgr.subscribe(&session, "file:///a.txt");
    mgr.subscribe(&session, "file:///b.txt");

    assert_eq!(mgr.subscriptions(&session).len(), 2);

    mgr.unsubscribe_all(&session);

    assert_eq!(mgr.subscriptions(&session).len(), 0);
    assert_eq!(mgr.total_subscriptions(), 0);
}

#[test]
fn subscriptions_across_sessions() {
    let mut mgr = SubscriptionManager::new();
    let a = SessionId("a".to_string());
    let b = SessionId("b".to_string());
    assert!(mgr.subscribe(&a, "r1"));
    assert!(mgr.subscribe(&b, "r1"));
    assert!(mgr.subscribe(&a, "r2"));
    assert_eq!(mgr.total_subscriptions(), 3);
    assert_eq!(mgr.subscriber_count("r1"), 2);
    assert_eq!(mgr.subscriber_count("r9"), 0);
    let mut subs: Vec<String> = mgr.subscribers("r1").into_iter().map(|s| s.0).collect();
    subs.sort();
    assert_eq!(subs, vec!["a".to_string(), "b".to_string()]);
    let mut uris = mgr.subscriptions(&a);
    uris.sort();
    assert_eq!(uris, vec!["r1".to_string(), "r2".to_string()]);

    assert!(!mgr.unsubscribe(&b, "r2"));
    mgr.unsubscribe_all(&a);
    assert_eq!(mgr.total_subscriptions(), 1);
    assert!(mgr.is_subscribed(&b, "r1"));
    assert!(!mgr.is_subscribed(&a, "r1"));
    assert_eq!(mgr.subscribers("r2").len(), 0);
    assert!(mgr.unsubscribe(&b, "r1"));
    assert_eq!(mgr.total_subscriptions(), 0);
    assert!(mgr.subscribe(&b, "r1"));
}

#[test]
fn session_ids_are_hyphenated_uuids() {
    let id = SessionId::new();
    let s = id.to_display_string();
    assert_eq!(s.len(), 36);
    for (i, c) in s.chars().enumerate() {
        if i == 8 || i == 13 || i == 18 || i == 23 {
            assert_eq!(c, '-');
        } else {
            assert!(c.is_ascii_hexdigit() && !c.is_ascii_uppercase());
        }
    }
    assert_ne!(SessionId::new().0, SessionId::new().0);
}

#[test]
fn session_capabilities() {
    let mut s = Session::new();
    assert!(!s.initialized);
    assert!(s.roots.is_empty());
    assert!(!s.supports_sampling());
    assert!(!s.supports_roots());
    s.client_capabilities = Some(ClientCapabilities { roots: Some(RootsCapability { list_changed: None }), sampling: None });
    assert!(!s.supports_roots());
    assert!(!s.supports_sampling());
    s.client_capabilities = Some(ClientCapabilities {
        roots: Some(RootsCapability { list_changed: Some(true) }),
        sampling: Some(SamplingCapability {}),
    });
    assert!(s.supports_roots());
    assert!(s.supports_sampling());
    s.client_capabilities = Some(ClientCapabilities { roots: Some(RootsCapability { list_changed: Some(false) }), sampling: None });
    assert!(!s.supports_roots());
}

#[test]
fn pending_status_only_when_tracked_and_uncancelled() {
    assert!(pending_status(true, false, false));
    assert!(!pending_status(true, true, false));
    assert!(!pending_status(true, false, true));
    assert!(!pending_status(false, false, false));
}

#[test]
fn token_for_and_remove_session() {
    let mut mgr = CancellationManager::new();
    let a = SessionId::new();
    let b = SessionId::new();
    let t1 = mgr.register(&a, &RequestId::Number(1));
    let _t2 = mgr.register(&a, &RequestId::Number(2));
    let t3 = mgr.register(&b, &RequestId::Number(1));
    assert!(mgr.token_for(&a, &RequestId::Number(1)).unwrap() == &t1);
    assert!(mgr.token_for(&b, &RequestId::Number(1)).unwrap() == &t3);
    assert!(mgr.token_for(&b, &RequestId::Number(2)).is_none());
    let removed = mgr.remove_session(&a);
    assert_eq!(removed.len(), 2);
    assert!(removed.contains(&t1));
    assert!(!removed.contains(&t3));
    assert!(!t1.is_cancelled());
    assert_eq!(mgr.pending_count(), 1);
    assert!(mgr.token_for(&a, &RequestId::Number(1)).is_none());
}

#[test]
fn cancel_reaches_the_handlers_token() {
    let mut mgr = CancellationManager::new();
    let s = SessionId::new();
    let t = mgr.register(&s, &RequestId::Number(5));
    assert!(mgr.cancel(&s, &RequestId::Number(5)));
    assert!(t.is_cancelled());
    let u = mgr.register(&s, &RequestId::Number(6));
    mgr.cancel_all(&s);
    assert!(u.is_cancelled());
}

#[test]
fn subscription_total_is_sum_over_sessions() {
    let mut m = SubscriptionManager::new();
    let a = SessionId::new();
    let b = SessionId::new();
    m.subscribe(&a, "x://1");
    m.subscribe(&a, "x://2");
    m.subscribe(&b, "x://1");
    assert_eq!(m.total_subscriptions(), m.subscriptions(&a).len() + m.subscriptions(&b).len());
}
