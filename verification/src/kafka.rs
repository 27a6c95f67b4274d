//! The Kafka client settings that the message queues are opened with, and
//! how a consumed record's payload is read.
use crate::settings::{QueueEvent, QueuePush};
use crate::template::pairs_view;
use vstd::prelude::*;

verus! {

/// The settings of the producer that publishes client messages.
pub open spec fn producer_settings(cfg: QueueEvent) -> Seq<(Seq<char>, Seq<char>)> {
    seq![("bootstrap.servers"@, cfg.broker[0]@), ("message.timeout.ms"@, "5000"@)]
}

/// The consumer group: the configured one, else `default`.
pub open spec fn consumer_group(cfg: QueuePush) -> Seq<char> {
    match cfg.group {
        Some(g) => g@,
        None => "default"@,
    }
}

/// The settings of the consumer that receives messages for clients.
pub open spec fn consumer_settings(cfg: QueuePush) -> Seq<(Seq<char>, Seq<char>)> {
    seq![
        ("group.id"@, consumer_group(cfg)),
        ("bootstrap.servers"@, cfg.broker[0]@),
        ("enable.partition.eof"@, "false"@),
        ("session.timeout.ms"@, "6000"@),
        ("enable.auto.commit"@, "true"@),
    ]
}

/// The producer's client settings: the first broker, and a five-second
/// message timeout.
pub fn producer_config(cfg: &QueueEvent) -> (r: Vec<(String, String)>)
    requires
        cfg.broker.len() > 0,
    ensures
        pairs_view(r@) == producer_settings(*cfg),
        r@.len() == 2,
        r@[0].0@ == "bootstrap.servers"@ && r@[0].1@ == cfg.broker[0]@,
        r@[1].0@ == "message.timeout.ms"@ && r@[1].1@ == "5000"@,
{
    let mut r: Vec<(String, String)> = Vec::new();
    r.push(("bootstrap.servers".to_string(), cfg.broker[0].clone()));
    r.push(("message.timeout.ms".to_string(), "5000".to_string()));
    assert(pairs_view(r@) =~= producer_settings(*cfg));
    r
}

/// The consumer's client settings: its group, the first broker, no
/// end-of-partition events, a six-second session timeout and automatic
/// commits.
pub fn consumer_config(cfg: &QueuePush) -> (r: Vec<(String, String)>)
    requires
        cfg.broker.len() > 0,
    ensures
        pairs_view(r@) == consumer_settings(*cfg),
        r@.len() == 5,
        r@[0].0@ == "group.id"@ && r@[0].1@ == match cfg.group {
            Some(g) => g@,
            None => "default"@,
        },
        r@[1].0@ == "bootstrap.servers"@ && r@[1].1@ == cfg.broker[0]@,
        r@[2].0@ == "enable.partition.eof"@ && r@[2].1@ == "false"@,
        r@[3].0@ == "session.timeout.ms"@ && r@[3].1@ == "6000"@,
        r@[4].0@ == "enable.auto.commit"@ && r@[4].1@ == "true"@,
{
    let group = match &cfg.group {
        Some(g) => g.clone(),
        None => "default".to_string(),
    };
    let mut r: Vec<(String, String)> = Vec::new();
    r.push(("group.id".to_string(), group));
    r.push(("bootstrap.servers".to_string(), cfg.broker[0].clone()));
    r.push(("enable.partition.eof".to_string(), "false".to_string()));
    r.push(("session.timeout.ms".to_string(), "6000".to_string()));
    r.push(("enable.auto.commit".to_string(), "true".to_string()));
    assert(pairs_view(r@) =~= consumer_settings(*cfg));
    r
}

/// The text of a consumed record's payload: empty when there is none, or
/// when it is not UTF-8 (`Some(None)`).
pub fn payload_text<'a>(payload: Option<Option<&'a str>>) -> (r: &'a str)
    ensures
        r@ == match payload {
            Some(Some(s)) => s@,
            _ => ""@,
        },
{
    match payload {
        Some(Some(s)) => s,
        _ => "",
    }
}

} // verus!
