use ws_gateway::kafka::{consumer_config, payload_text, producer_config};
use ws_gateway::settings::{
    default_accept, AssetsVariant, Login, LoginVariant, QueueEvent, QueuePush, Webhook, WebhookMap,
};

fn pairs(v: Vec<(String, String)>) -> Vec<(String, String)> {
    v
}

fn own(v: &[(&str, &str)]) -> Vec<(String, String)> {
    v.iter().map(|(a, b)| (a.to_string(), b.to_string())).collect()
}

#[test]
fn default_accept_is_json() {
    assert_eq!(default_accept(), "application/json");
}

#[test]
fn webhook_from_webhook_variant_is_enabled() {
    let w = Webhook::from_variant(AssetsVariant::Webhook {
        endpoint: "http://x/greet".to_string(),
        accept: "text/plain".to_string(),
    });
    assert!(w.enable);
    assert_eq!(w.endpoint, "http://x/greet");
    assert_eq!(w.accept, "text/plain");
}

#[test]
fn webhook_from_path_variant_is_disabled() {
    let w = Webhook::from_variant(AssetsVariant::Path { path: "hello.json".to_string() });
    assert!(!w.enable);
    assert_eq!(w.endpoint, "");
    assert_eq!(w.accept, "application/json");
}

#[test]
fn only_webhook_sources_have_an_endpoint() {
    let wh = AssetsVariant::Webhook { endpoint: "http://e".to_string(), accept: default_accept() };
    assert_eq!(wh.webhook_endpoint().map(|e| e.as_str()), Some("http://e"));
    let p = AssetsVariant::Path { path: "p".to_string() };
    assert!(p.webhook_endpoint().is_none());
}

fn hook(endpoint: &str, enable: bool) -> Webhook {
    Webhook { enable, endpoint: endpoint.to_string(), accept: default_accept() }
}

#[test]
fn webhook_map_later_pairs_win() {
    let m = WebhookMap::from_pairs(vec![
        ("a".to_string(), hook("http://1", true)),
        ("b".to_string(), hook("http://2", false)),
        ("a".to_string(), hook("http://3", false)),
    ]);
    assert!(m.contains_key("a"));
    assert!(!m.contains_key("c"));
    assert_eq!(m.get("a").unwrap().endpoint, "http://3");
    assert!(!m.get("b").unwrap().enable);
    assert!(m.get("c").is_none());
    let mut m = WebhookMap::new();
    m.insert("z".to_string(), hook("http://z", true));
    assert!(m.contains_key("z"));
}

#[test]
fn login_endpoint_only_when_enabled_with_endpoint() {
    let ep = || Some(LoginVariant::Endpoint { endpoint: "http://login".to_string() });
    let on = Login { enable: true, variant: ep() };
    assert_eq!(on.endpoint().map(|e| e.as_str()), Some("http://login"));
    let off = Login { enable: false, variant: ep() };
    assert!(off.endpoint().is_none());
    let ev = Login { enable: true, variant: Some(LoginVariant::Event { event: "login".to_string() }) };
    assert!(ev.endpoint().is_none());
    let none = Login { enable: true, variant: None };
    assert!(none.endpoint().is_none());
}

#[test]
fn producer_settings_use_first_broker() {
    let cfg = QueueEvent {
        kind: "kafka".to_string(),
        broker: vec!["b1:9092".to_string(), "b2:9092".to_string()],
        topic: "event".to_string(),
    };
    assert_eq!(
        pairs(producer_config(&cfg)),
        own(&[("bootstrap.servers", "b1:9092"), ("message.timeout.ms", "5000")])
    );
}

#[test]
fn consumer_settings_default_group() {
    let mut cfg = QueuePush {
        kind: "kafka".to_string(),
        broker: vec!["k:1".to_string()],
        topic: vec!["push".to_string()],
        group: None,
    };
    assert_eq!(
        consumer_config(&cfg),
        own(&[
            ("group.id", "default"),
            ("bootstrap.servers", "k:1"),
            ("enable.partition.eof", "false"),
            ("session.timeout.ms", "6000"),
            ("enable.auto.commit", "true"),
        ])
    );
    cfg.group = Some("ws".to_string());
    assert_eq!(consumer_config(&cfg)[0], ("group.id".to_string(), "ws".to_string()));
}

#[test]
fn payload_text_is_empty_when_missing_or_invalid() {
    assert_eq!(payload_text(Some(Some("{\"a\":1}"))), "{\"a\":1}");
    assert_eq!(payload_text(Some(None)), "");
    assert_eq!(payload_text(None), "");
}
