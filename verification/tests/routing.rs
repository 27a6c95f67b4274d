use ws_gateway::admin::{accepts_json, echo_reply, login_reply, send_targets, user_lines, EchoReply};
use ws_gateway::connection::{
    connected_receivers, greet_step, inbound_message, open_session, open_user, push_targets, render_greeting,
    render_webhook_error, route_inbound, text_message, GreetStep, Inbound,
};
use ws_gateway::json::{Event, JsonValue};
use ws_gateway::message::ChatMessage;
use ws_gateway::session::Session;
use ws_gateway::settings::{Assets, AssetsVariant, Webhook, WebhookMap};
use ws_gateway::shared::{Client, SessionManager, Shared};
use ws_gateway::template::{render_payload, Tmpls};

fn s(t: &str) -> Session {
    Session::from_text(t)
}

fn obj(fields: Vec<(&str, JsonValue)>) -> JsonValue {
    JsonValue::Object(fields.into_iter().map(|(k, v)| (k.to_string(), v)).collect())
}

fn text(t: &str) -> JsonValue {
    JsonValue::Str(t.to_string())
}

fn ids(v: &[Session]) -> Vec<String> {
    v.iter().map(|x| x.as_str().to_string()).collect()
}

fn manager(names: &[&str]) -> SessionManager<u8> {
    let mut m = SessionManager::new();
    for (i, n) in names.iter().enumerate() {
        m.insert(s(n), i as u8);
    }
    m
}

#[test]
fn event_of_values() {
    assert_eq!(obj(vec![("event", text("chat"))]).event(), Some("chat"));
    assert_eq!(obj(vec![("a", text("x")), ("event", text("join"))]).event(), Some("join"));
    assert_eq!(obj(vec![("event", JsonValue::Bool(true))]).event(), None);
    assert_eq!(obj(vec![("other", text("chat"))]).event(), None);
    assert_eq!(text("event").event(), None);
    assert_eq!(JsonValue::Array(vec![obj(vec![("event", text("x"))])]).event(), None);
    assert_eq!(JsonValue::Null.event(), None);
}

#[test]
fn get_member() {
    let v = obj(vec![("a", JsonValue::Number("1".to_string())), ("b", text("x"))]);
    match v.get(&"a".to_string()) {
        Some(JsonValue::Number(n)) => assert_eq!(n, "1"),
        _ => panic!("member a"),
    }
    assert!(v.get(&"c".to_string()).is_none());
    assert!(text("a").get(&"a".to_string()).is_none());
}

#[test]
fn clone_is_deep() {
    let v = obj(vec![
        ("list", JsonValue::Array(vec![JsonValue::Null, JsonValue::Bool(false)])),
        ("event", text("e")),
    ]);
    let c = v.clone();
    assert_eq!(format!("{:?}", c), format!("{:?}", v));
    assert_eq!(c.event(), Some("e"));
}

#[test]
fn chat_message_from_pair_names_content_event() {
    let m: ChatMessage = (s("7"), obj(vec![("event", text("ping"))])).into();
    assert_eq!(m.sender.as_str(), "7");
    assert_eq!(m.event(), Some("ping"));
    let c = m.clone();
    assert_eq!(c.event(), Some("ping"));
}

fn webhooks() -> WebhookMap {
    WebhookMap::from_pairs(vec![
        (
            "hook".to_string(),
            Webhook { enable: true, endpoint: "http://h".to_string(), accept: "application/json".to_string() },
        ),
        (
            "off".to_string(),
            Webhook { enable: false, endpoint: "http://o".to_string(), accept: "application/json".to_string() },
        ),
    ])
}

#[test]
fn inbound_goes_to_enabled_webhook() {
    let w = webhooks();
    let m: ChatMessage = (s("1"), obj(vec![("event", text("hook"))])).into();
    match route_inbound(&m, &w, true) {
        Inbound::Post(wh) => assert_eq!(wh.endpoint, "http://h"),
        _ => panic!("expected a webhook"),
    }
}

#[test]
fn inbound_goes_to_queue_otherwise() {
    let w = webhooks();
    let off: ChatMessage = (s("1"), obj(vec![("event", text("off"))])).into();
    assert!(matches!(route_inbound(&off, &w, true), Inbound::Publish));
    let none: ChatMessage = (s("1"), text("hello")).into();
    assert!(matches!(route_inbound(&none, &w, true), Inbound::Publish));
    let unknown: ChatMessage = (s("1"), obj(vec![("event", text("x"))])).into();
    assert!(matches!(route_inbound(&unknown, &w, true), Inbound::Publish));
    assert!(matches!(route_inbound(&unknown, &w, false), Inbound::Ignore));
}

#[test]
fn push_goes_to_connected_receivers_only() {
    let m = manager(&["a", "b", "c"]);
    assert!(push_targets(&m, &vec![]).is_empty());
    assert_eq!(ids(&push_targets(&m, &vec![s("c"), s("x"), s("a"), s("c")])), vec!["c", "a", "c"]);
    assert_eq!(ids(&connected_receivers(&m, &vec![s("y")])), Vec::<String>::new());
}

#[test]
fn send_without_receivers_goes_to_everyone() {
    let m = manager(&["b", "a"]);
    assert_eq!(ids(&send_targets(&m, &vec![])), vec!["b", "a"]);
    assert_eq!(ids(&send_targets(&m, &vec![s("a"), s("z")])), vec!["a"]);
}

#[test]
fn user_list_shows_sessions_and_info() {
    let mut shared: Shared<Client<u8>> = Shared::new();
    open_session(&mut shared, None, 1);
    let info = Some(vec![("name".to_string(), text("bo"))]);
    open_session(&mut shared, Some((s("bo"), info)), 2);
    let lines = user_lines(&shared.session);
    assert_eq!(lines.len(), 2);
    assert_eq!(lines[0].id.as_str(), "1");
    assert!(lines[0].info.is_none());
    assert_eq!(lines[1].id.as_str(), "bo");
    assert_eq!(lines[1].info.as_ref().unwrap()[0].0, "name");
}

#[test]
fn login_reply_is_a_fresh_short_uuid() {
    let (a, info) = login_reply(vec![("x".to_string(), JsonValue::Null)]);
    let (b, _) = login_reply(vec![]);
    assert_eq!(a.as_str().chars().count(), 22);
    let alphabet = "123456789abcdefghijkmnopqrstuvwxyzABCDEFGHJKLMNPQRSTUVWXYZ";
    assert!(a.as_str().chars().all(|c| alphabet.contains(c)));
    assert!(a != b);
    assert_eq!(info.unwrap()[0].0, "x");
}

#[test]
fn echo_accepts_json_only_when_asked_exactly() {
    assert!(accepts_json(Some(b"application/json")));
    assert!(!accepts_json(Some(b"application/json; charset=utf-8")));
    assert!(!accepts_json(Some(b"text/plain")));
    assert!(!accepts_json(None));
}

#[test]
fn plain_channel_users_are_numbered() {
    let mut shared: Shared<u8> = Shared::new();
    assert_eq!(open_user(&mut shared, 1).as_str(), "user_1");
    assert_eq!(open_user(&mut shared, 2).as_str(), "user_2");
    let m = text_message(&s("user_1"), "hi");
    match m.content {
        JsonValue::Str(t) => assert_eq!(t, "hi"),
        _ => panic!("text content"),
    }
}

#[test]
fn greet_steps() {
    let off = Assets { enable: false, variant: AssetsVariant::Path { path: "a.json".to_string() } };
    assert!(matches!(greet_step(&off), GreetStep::Text(t) if t == "disabled"));
    let tpl = Assets { enable: true, variant: AssetsVariant::Path { path: "a.json".to_string() } };
    assert!(matches!(greet_step(&tpl), GreetStep::Render(p) if p == "a.json"));
    let wh = Assets {
        enable: true,
        variant: AssetsVariant::Webhook { endpoint: "http://g".to_string(), accept: "text/plain".to_string() },
    };
    assert!(matches!(greet_step(&wh), GreetStep::Post(e) if e == "http://g"));
}

fn templates() -> Tmpls {
    Tmpls::new(vec![
        ("greet.json".to_string(), "{\"hello\": \"{{ session_id }}\"}".to_string()),
        (
            "webhook_error.json".to_string(),
            "{\"event\": \"{{ event }}\", \"session\": \"{{ session_id }}\"}".to_string(),
        ),
        ("broken.txt".to_string(), "{{ x | nosuchfilter }}".to_string()),
    ])
    .unwrap()
}

#[test]
fn templates_that_do_not_compile_are_refused() {
    assert!(Tmpls::new(vec![("bad.txt".to_string(), "{% if %}".to_string())]).is_none());
    let ok = Tmpls::new(vec![("a.txt".to_string(), "x".to_string())]).unwrap();
    assert_eq!(ok.templates.len(), 1);
}

#[test]
fn debug_render_uses_the_json_payload() {
    let r = render_payload(&"t.txt".to_string(), &"{{ a }}-{{ b[1] }}".to_string(), &"{\"a\": \"x\", \"b\": [1, 2]}".to_string());
    assert_eq!(r.as_deref(), Some("x-2"));
    assert_eq!(render_payload(&"t.txt".to_string(), &"{{ a }}".to_string(), &"not json".to_string()), None);
    assert_eq!(render_payload(&"t.txt".to_string(), &"{% if %}".to_string(), &"{}".to_string()), None);
}

#[test]
fn echo_reencodes_json_bodies() {
    match echo_reply(Some(b"application/json"), "{ \"a\" : [1, true] }") {
        EchoReply::Json(t) => assert_eq!(t, "{\"a\":[1,true]}"),
        _ => panic!("expected JSON"),
    }
    assert!(matches!(echo_reply(Some(b"application/json"), "nope"), EchoReply::Invalid));
    assert!(matches!(echo_reply(Some(b"text/plain"), "nope"), EchoReply::Raw));
    assert!(matches!(echo_reply(None, "{}"), EchoReply::Raw));
}

#[test]
fn client_text_always_becomes_a_message() {
    let json = inbound_message(&s("3"), "{\"event\":\"hook\"}", Some(obj(vec![("event", text("hook"))])));
    assert_eq!(json.event(), Some("hook"));
    let plain = inbound_message(&s("3"), "hello there", None);
    assert_eq!(plain.sender.as_str(), "3");
    match &plain.content {
        JsonValue::Str(t) => assert_eq!(t, "hello there"),
        _ => panic!("text content"),
    }
    assert!(matches!(route_inbound(&plain, &webhooks(), true), Inbound::Publish));
}

#[test]
fn greeting_is_rendered_with_the_session() {
    let t = templates();
    assert!(t.contains(&"greet.json".to_string()));
    assert!(!t.contains(&"missing".to_string()));
    let r = render_greeting(&t, &"greet.json".to_string(), &s("42"));
    assert_eq!(r.as_deref(), Some("{\"hello\": \"42\"}"));
    assert_eq!(render_greeting(&t, &"broken.txt".to_string(), &s("1")), None);
}

#[test]
fn webhook_error_reply_names_session_and_event() {
    let t = templates();
    let r = render_webhook_error(&t, &s("9"), "pay");
    assert_eq!(r.as_deref(), Some("{\"event\": \"pay\", \"session\": \"9\"}"));
}
