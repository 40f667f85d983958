use chat_relay::cookie::{logout_token_from_cookie, session_token_from_cookie};
use chat_relay::history::{chat_history, message_views, recent_messages, StoredMessage};
use chat_relay::lifecycle::{Action, Event, Phase, Supervisor};
use chat_relay::registry::ConnectionRegistry;
use chat_relay::relay::{
    authorize_upgrade, format_payload, open_connection, relay_message, AuthenticatedUser, ChatError,
};
use chat_relay::session::{
    credentials_match, decide_login, hash_matches, issue_session, password_hash, session_cookie,
    validate_session, LoginDecision, SessionRow,
};
use chat_relay::views::{chat_views, status};
use tokio::sync::mpsc::unbounded_channel;

fn user(id: i64, name: &str) -> AuthenticatedUser {
    AuthenticatedUser { user_id: id, username: name.to_string() }
}

fn msg(id: i64, room: i64, sender: &str, text: &str, timestamp: i64) -> StoredMessage {
    StoredMessage { id, room, sender: sender.to_string(), text: text.to_string(), timestamp }
}

#[test]
fn two_members_chat_in_general() {
    let general: i64 = 1;
    let mut registry = ConnectionRegistry::new();
    assert_eq!(registry.count(), 0);

    let grant_a = authorize_upgrade(Some(user(1, "A")), Ok(true));
    let grant_b = authorize_upgrade(Some(user(2, "B")), Ok(true));
    assert!(grant_a.is_ok() && grant_b.is_ok());
    let (tx_a, mut rx_a) = unbounded_channel::<String>();
    let (tx_b, mut rx_b) = unbounded_channel::<String>();
    let a = open_connection(&mut registry, general, &grant_a, tx_a).unwrap();
    let b = open_connection(&mut registry, general, &grant_b, tx_b).unwrap();
    assert_eq!(registry.count(), 2);

    let mut rows: Vec<StoredMessage> = Vec::new();
    rows.push(msg(1, general, "B", "hi", 100));
    let out = relay_message(&mut registry, b, general, "B", "hi", Ok(1)).unwrap();
    assert_eq!(out.deliveries.len(), 1);
    assert_eq!(out.deliveries[0].conn, a);
    assert_eq!(rx_a.try_recv().unwrap(), "B: hi");
    assert!(rx_b.try_recv().is_err());

    rows.push(msg(2, general, "A", "yo", 100));
    relay_message(&mut registry, a, general, "A", "yo", Ok(2)).unwrap();
    assert_eq!(rx_b.try_recv().unwrap(), "A: yo");
    assert!(rx_a.try_recv().is_err());

    registry.deregister(a);
    assert_eq!(registry.count(), 1);

    let recent = recent_messages(&rows, general, 10);
    let texts: Vec<String> = recent.iter().map(|m| format!("{}: {}", m.sender, m.text)).collect();
    assert_eq!(texts, vec!["A: yo".to_string(), "B: hi".to_string()]);
}

#[test]
fn expired_session_is_not_valid() {
    let rows = vec![SessionRow {
        user_id: 7,
        username: "carol".to_string(),
        token: "tok".to_string(),
        expires_at: 1_000,
    }];
    assert!(validate_session(&rows, "tok", 1_000).is_none());
    assert!(validate_session(&rows, "tok", 2_000).is_none());
    let u = validate_session(&rows, "tok", 999).unwrap();
    assert_eq!(u.user_id, 7);
    assert_eq!(u.username, "carol");
    assert!(validate_session(&rows, "other", 0).is_none());
}

#[test]
fn first_live_session_wins() {
    let rows = vec![
        SessionRow { user_id: 1, username: "old".to_string(), token: "t".to_string(), expires_at: 5 },
        SessionRow { user_id: 2, username: "new".to_string(), token: "t".to_string(), expires_at: 50 },
        SessionRow { user_id: 3, username: "later".to_string(), token: "t".to_string(), expires_at: 60 },
    ];
    assert_eq!(validate_session(&rows, "t", 10).unwrap().user_id, 2);
}

#[test]
fn upgrade_gate_outcomes() {
    assert!(matches!(authorize_upgrade(None, Ok(true)), Err(ChatError::Unauthenticated)));
    assert!(matches!(authorize_upgrade(Some(user(1, "a")), Ok(false)), Err(ChatError::Forbidden)));
    assert!(matches!(
        authorize_upgrade(Some(user(1, "a")), Err(ChatError::Persistence)),
        Err(ChatError::Persistence)
    ));
    let ok = authorize_upgrade(Some(user(4, "d")), Ok(true)).unwrap();
    assert_eq!(ok.user_id, 4);
}

#[test]
fn refused_upgrade_registers_nothing() {
    let mut registry = ConnectionRegistry::new();
    let (tx, _rx) = unbounded_channel::<String>();
    let grant = authorize_upgrade(Some(user(1, "a")), Ok(false));
    assert!(open_connection(&mut registry, 3, &grant, tx).is_none());
    assert_eq!(registry.count(), 0);
}

#[test]
fn failed_store_delivers_nothing() {
    let mut registry = ConnectionRegistry::new();
    let (tx1, _rx1) = unbounded_channel::<String>();
    let (tx2, mut rx2) = unbounded_channel::<String>();
    registry.register(1, 9, tx1);
    registry.register(2, 9, tx2);
    let r = relay_message(&mut registry, 1, 9, "x", "lost", Err(ChatError::Persistence));
    assert!(matches!(r, Err(ChatError::Persistence)));
    assert!(rx2.try_recv().is_err());
}

#[test]
fn broadcast_stays_in_room_and_skips_sender() {
    let mut registry = ConnectionRegistry::new();
    let (tx1, mut rx1) = unbounded_channel::<String>();
    let (tx2, mut rx2) = unbounded_channel::<String>();
    let (tx3, mut rx3) = unbounded_channel::<String>();
    let (tx4, mut rx4) = unbounded_channel::<String>();
    registry.register(1, 5, tx1);
    registry.register(2, 5, tx2);
    registry.register(3, 6, tx3);
    registry.register(4, 5, tx4);
    let out = relay_message(&mut registry, 1, 5, "ann", "hello", Ok(10)).unwrap();
    assert_eq!(out.message_id, 10);
    assert_eq!(out.payload, "ann: hello");
    assert_eq!(out.deliveries.len(), 2);
    assert!(rx1.try_recv().is_err());
    assert_eq!(rx2.try_recv().unwrap(), "ann: hello");
    assert!(rx2.try_recv().is_err());
    assert!(rx3.try_recv().is_err());
    assert_eq!(rx4.try_recv().unwrap(), "ann: hello");
}

#[test]
fn closed_recipient_does_not_stop_the_rest() {
    let mut registry = ConnectionRegistry::new();
    let (tx1, rx1) = unbounded_channel::<String>();
    let (tx2, mut rx2) = unbounded_channel::<String>();
    let (tx3, _rx3) = unbounded_channel::<String>();
    registry.register(1, 5, tx1);
    registry.register(2, 5, tx2);
    registry.register(3, 5, tx3);
    drop(rx1);
    let ds = registry.broadcast(5, 3, &"p".to_string());
    assert_eq!(ds.len(), 2);
    let first = ds.iter().find(|d| d.conn == 1).unwrap();
    assert!(!first.delivered);
    let second = ds.iter().find(|d| d.conn == 2).unwrap();
    assert!(second.delivered);
    assert_eq!(rx2.try_recv().unwrap(), "p");
}

#[test]
fn deregister_twice_and_unknown() {
    let mut registry = ConnectionRegistry::new();
    let (tx1, _rx1) = unbounded_channel::<String>();
    let (tx2, _rx2) = unbounded_channel::<String>();
    registry.register(1, 5, tx1);
    registry.register(2, 5, tx2);
    registry.deregister(1);
    assert_eq!(registry.count(), 1);
    registry.deregister(1);
    assert_eq!(registry.count(), 1);
    registry.deregister(99);
    assert_eq!(registry.count(), 1);
    assert!(registry.contains(2));
    assert!(!registry.contains(1));
}

#[test]
fn register_same_id_rebinds() {
    let mut registry = ConnectionRegistry::new();
    let (tx1, _rx1) = unbounded_channel::<String>();
    let (tx2, mut rx2) = unbounded_channel::<String>();
    registry.register(1, 5, tx1);
    registry.register(1, 6, tx2);
    assert_eq!(registry.count(), 1);
    let ds = registry.broadcast(6, 0, &"q".to_string());
    assert_eq!(ds.len(), 1);
    assert_eq!(rx2.try_recv().unwrap(), "q");
    assert!(registry.broadcast(5, 0, &"q".to_string()).is_empty());
}

#[test]
fn recent_is_newest_first_and_bounded() {
    let rows = vec![
        msg(1, 1, "a", "one", 10),
        msg(2, 2, "b", "other room", 11),
        msg(3, 1, "c", "three", 12),
        msg(4, 1, "d", "four", 12),
        msg(5, 1, "e", "five", 11),
    ];
    let r = recent_messages(&rows, 1, 3);
    let ids: Vec<i64> = r.iter().map(|m| m.id).collect();
    assert_eq!(ids, vec![4, 3, 5]);
    for w in r.windows(2) {
        assert!(w[0].timestamp >= w[1].timestamp);
    }
    let all = recent_messages(&rows, 1, 10);
    let ids: Vec<i64> = all.iter().map(|m| m.id).collect();
    assert_eq!(ids, vec![4, 3, 5, 1]);
    assert!(recent_messages(&rows, 1, 0).is_empty());
    assert!(recent_messages(&rows, 3, 5).is_empty());
    let mut rev = all;
    rev.reverse();
    let ids: Vec<i64> = rev.iter().map(|m| m.id).collect();
    assert_eq!(ids, vec![1, 5, 3, 4]);
}

#[test]
fn chat_history_is_last_fifty_oldest_first() {
    let mut rows = Vec::new();
    for i in 0..60i64 {
        rows.push(msg(i + 1, 1, "u", &format!("m{}", i + 1), 1000 + i / 7));
    }
    let h = chat_history(&rows, 1);
    assert_eq!(h.len(), 50);
    assert_eq!(h[0].id, 11);
    assert_eq!(h[49].id, 60);
    let views = message_views(&h);
    assert_eq!(views[0].username, "u");
    assert_eq!(views[0].text, "m11");
}

#[test]
fn payload_format() {
    assert_eq!(format_payload("B", "hi"), "B: hi");
    assert_eq!(format_payload("", ""), ": ");
}

#[test]
fn cookie_token_extraction() {
    assert_eq!(session_token_from_cookie("session_token=abc").unwrap(), "abc");
    assert_eq!(session_token_from_cookie("theme=dark; session_token=xyz; lang=en").unwrap(), "xyz");
    assert_eq!(session_token_from_cookie("a=1;\t session_token=q").unwrap(), "q");
    assert_eq!(session_token_from_cookie("session_token=").unwrap(), "");
    assert!(session_token_from_cookie("").is_none());
    assert!(session_token_from_cookie("theme=dark; lang=en").is_none());
    assert!(session_token_from_cookie("xsession_token=abc").is_none());
    assert_eq!(session_token_from_cookie("session_token=1; session_token=2").unwrap(), "1");
}

#[test]
fn logout_token_drops_trailing_spaces() {
    assert_eq!(logout_token_from_cookie("a=1; session_token=abc  ").unwrap(), "abc");
    assert_eq!(logout_token_from_cookie("session_token=   ").unwrap(), "");
    assert_eq!(logout_token_from_cookie("session_token=x y").unwrap(), "x y");
    assert!(logout_token_from_cookie("a=1").is_none());
}

#[test]
fn password_digest() {
    let h = password_hash("abc");
    assert_eq!(h, "ba7816bf8f01cfea414140de5dae2223b00361a396177a9cb410ff61f20015ad");
    assert!(credentials_match(&h, "abc"));
    assert!(!credentials_match(&h, "abd"));
    assert!(hash_matches(&"x".to_string(), &"x".to_string()));
    assert!(!hash_matches(&"x".to_string(), &"y".to_string()));
}

#[test]
fn session_cookies() {
    assert_eq!(session_cookie("t1"), "session_token=t1; HttpOnly; Path=/");
    let g = issue_session();
    assert_eq!(g.token.len(), 36);
    for (i, c) in g.token.chars().enumerate() {
        if i == 8 || i == 13 || i == 18 || i == 23 {
            assert_eq!(c, '-');
        } else {
            assert!(c.is_ascii_digit() || ('a'..='f').contains(&c));
        }
    }
    assert_eq!(g.cookie, format!("session_token={}; HttpOnly; Path=/", g.token));
    let g2 = issue_session();
    assert_ne!(g.token, g2.token);
}

#[test]
fn lifecycle_deregisters_once() {
    let mut s = Supervisor::new();
    assert_eq!(s.phase(), Phase::Upgrading);
    assert_eq!(s.step(Event::Granted), Action::Register);
    assert_eq!(s.step(Event::TextFrame), Action::Relay);
    assert_eq!(s.step(Event::OtherFrame), Action::Ignore);
    assert_eq!(s.step(Event::TransportError), Action::Deregister);
    assert_eq!(s.phase(), Phase::Closing);
    assert_eq!(s.step(Event::TextFrame), Action::Ignore);
    assert_eq!(s.step(Event::QueueClosed), Action::Ignore);
    assert_eq!(s.phase(), Phase::Closed);
    assert_eq!(s.step(Event::WriteFailed), Action::Ignore);
}

#[test]
fn lifecycle_refused_upgrade() {
    let mut s = Supervisor::new();
    assert_eq!(s.step(Event::Refused), Action::Refuse);
    assert_eq!(s.phase(), Phase::Closed);
    assert_eq!(s.step(Event::Granted), Action::Ignore);
}

#[test]
fn views_and_status() {
    let v = chat_views(vec![(3, "general".to_string()), (4, "random".to_string())]);
    assert_eq!(v.len(), 2);
    assert_eq!(v[1].id, 4);
    assert_eq!(v[1].name, "random");
    let mut registry = ConnectionRegistry::new();
    assert_eq!(status(&registry).connected_clients, 0);
    let (tx, _rx) = unbounded_channel::<String>();
    registry.register(1, 1, tx);
    assert_eq!(status(&registry).connected_clients, 1);
}

#[test]
fn login_decisions() {
    let stored = Ok(Some(password_hash("pw")));
    assert_eq!(decide_login(&stored, "pw"), LoginDecision::StartSession);
    assert_eq!(decide_login(&stored, "nope"), LoginDecision::Refuse);
    assert_eq!(decide_login(&Ok(None), "pw"), LoginDecision::Register);
    assert_eq!(decide_login(&Err(ChatError::Persistence), "pw"), LoginDecision::StoreFailed);
}
