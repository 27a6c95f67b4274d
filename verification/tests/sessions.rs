use ws_gateway::connection::{close_session, open_session};
use ws_gateway::decimal::decimal_string;
use ws_gateway::json::JsonValue;
use ws_gateway::session::Session;
use ws_gateway::shared::{clone_info, Client, SessionManager, Shared};

fn s(t: &str) -> Session {
    Session::from_text(t)
}

#[test]
fn decimal_of_small_and_large_numbers() {
    assert_eq!(decimal_string(0), "0");
    assert_eq!(decimal_string(7), "7");
    assert_eq!(decimal_string(10), "10");
    assert_eq!(decimal_string(12345), "12345");
    assert_eq!(decimal_string(u128::MAX), u128::MAX.to_string());
    assert_eq!(decimal_string(u128::MAX), "340282366920938463463374607431768211455");
}

#[test]
fn session_from_count_and_text() {
    assert_eq!(Session::from_count(42).as_str(), "42");
    assert_eq!(s("user_1").as_str(), "user_1");
    assert_eq!(Session::default().as_str(), "");
    assert!(s("a") == s("a"));
    assert!(s("a") != s("b"));
    assert_eq!(s("x").clone().as_str(), "x");
}

#[test]
fn session_display_is_debug_quoted() {
    assert_eq!(Session::from_count(5).to_display_string(), "\"5\"");
    assert_eq!(s("a\"b").to_display_string(), "\"a\\\"b\"");
    assert_eq!(s("line\n").to_display_string(), "\"line\\n\"");
}

#[test]
fn session_into_json_string() {
    let v: JsonValue = s("abc").into();
    match v {
        JsonValue::Str(t) => assert_eq!(t, "abc"),
        _ => panic!("not a string"),
    }
}

#[test]
fn manager_insert_get_remove() {
    let mut m: SessionManager<u32> = SessionManager::new();
    assert_eq!(m.len(), 0);
    assert_eq!(m.insert(s("a"), 1), None);
    assert_eq!(m.insert(s("b"), 2), None);
    assert_eq!(m.get(&s("a")), Some(&1));
    assert!(m.contains_key(&s("b")));
    assert!(!m.contains_key(&s("c")));
    assert_eq!(m.get(&s("c")), None);
    // Replacing a value returns the old one and keeps the order.
    assert_eq!(m.insert(s("a"), 10), Some(1));
    let keys: Vec<String> = m.keys().iter().map(|k| k.as_str().to_string()).collect();
    assert_eq!(keys, vec!["a", "b"]);
    assert_eq!(m.get(&s("a")), Some(&10));
    assert_eq!(m.remove(&s("a")), Some(10));
    assert_eq!(m.remove(&s("a")), None);
    assert!(!m.contains_key(&s("a")));
    assert_eq!(m.len(), 1);
    let (k, v) = m.entry_at(0);
    assert_eq!(k.as_str(), "b");
    assert_eq!(*v, 2);
}

#[test]
fn manager_keeps_insertion_order_after_remove() {
    let mut m: SessionManager<u8> = SessionManager::new();
    for (i, n) in ["c", "a", "d", "b"].iter().enumerate() {
        m.insert(s(n), i as u8);
    }
    m.remove(&s("a"));
    let keys: Vec<String> = m.keys().iter().map(|k| k.as_str().to_string()).collect();
    assert_eq!(keys, vec!["c", "d", "b"]);
}

#[test]
fn anonymous_sessions_are_numbered() {
    let mut shared: Shared<Client<u8>> = Shared::new();
    let a = open_session(&mut shared, None, 1);
    let b = open_session(&mut shared, None, 2);
    assert_eq!(a.as_str(), "1");
    assert_eq!(b.as_str(), "2");
    assert_eq!(shared.count, 2);
    assert_eq!(shared.session.get(&a).map(|c| c.sender), Some(1));
    assert!(shared.session.get(&b).unwrap().info.is_none());
}

#[test]
fn logged_in_session_keeps_its_name_and_info() {
    let mut shared: Shared<Client<u8>> = Shared::new();
    let info = Some(vec![("name".to_string(), JsonValue::Str("ann".to_string()))]);
    let sid = open_session(&mut shared, Some((s("ann-1"), info)), 9);
    assert_eq!(sid.as_str(), "ann-1");
    assert_eq!(shared.count, 0);
    let c = shared.session.get(&sid).unwrap();
    assert_eq!(**c, 9);
    let copy = clone_info(&c.info).unwrap();
    assert_eq!(copy[0].0, "name");
}

#[test]
fn close_undoes_open() {
    let mut shared: Shared<Client<u8>> = Shared::new();
    let keep = open_session(&mut shared, None, 1);
    let sid = open_session(&mut shared, None, 2);
    close_session(&mut shared, &sid);
    let keys: Vec<String> = shared.session.keys().iter().map(|k| k.as_str().to_string()).collect();
    assert_eq!(keys, vec!["1"]);
    assert_eq!(shared.session.len(), 1);
    assert!(shared.session.contains_key(&keep));
    assert!(!shared.session.contains_key(&sid));
    assert_eq!(shared.count, 2);
}

#[test]
fn anonymous_sessions_are_distinct() {
    let mut shared: Shared<Client<u8>> = Shared::new();
    let mut seen = std::collections::HashSet::new();
    for i in 0..50u8 {
        let sid = open_session(&mut shared, None, i);
        assert!(seen.insert(sid.as_str().to_string()));
    }
    assert_eq!(shared.session.len(), 50);
}

#[test]
fn session_and_client_deref() {
    let sid = s("abc");
    let text: &String = &sid;
    assert_eq!(text, "abc");
    let c = Client { sender: 5u8, info: None };
    assert_eq!(*c, 5);
}

#[test]
fn entry_or_insert_inserts_only_when_absent() {
    let mut m: SessionManager<u32> = SessionManager::new();
    let e = m.entry(s("a"));
    assert_eq!(e.key().as_str(), "a");
    assert_eq!(*e.or_insert(1), 1);
    assert_eq!(*m.entry(s("a")).or_insert(2), 1);
    assert_eq!(*m.entry(s("b")).or_insert(3), 3);
    assert_eq!(m.len(), 2);
    let keys: Vec<String> = m.keys().iter().map(|k| k.as_str().to_string()).collect();
    assert_eq!(keys, vec!["a", "b"]);
}
