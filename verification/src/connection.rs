//! What a WebSocket connection does with the shared state: registering and
//! unregistering its session, routing what its client sends, greeting it,
//! and choosing the sessions that a queued message goes to.
use crate::decimal::{decimal, decimal_string};
use crate::json::{Event, Json, JsonValue};
use crate::message::ChatMessage;
use crate::session::Session;
use crate::settings::{Assets, AssetsVariant, Webhook, WebhookMap};
use crate::shared::{session_ids, Client, Info, SessionManager, Shared};
use crate::template::{has_template, opt_string_view, pairs_view, rendered, Tmpls};
use vstd::prelude::*;

verus! {

/// Registers a new connection that writes through `sender`. A connection that
/// logged in keeps the session the login service gave it; any other gets the
/// next number of the counter as its session.
pub fn open_session<S>(shared: &mut Shared<Client<S>>, login: Option<(Session, Info)>, sender: S) -> (sid: Session)
    requires
        login is None ==> old(shared).count < u128::MAX,
    ensures
        match login {
            Some((s, info)) => {
                &&& sid@ == s@
                &&& final(shared).count == old(shared).count
                &&& final(shared).session@ == old(shared).session@.insert(
                    s@,
                    Client { sender, info },
                )
                &&& final(shared).session.order() == if old(shared).session@.contains_key(s@) {
                    old(shared).session.order()
                } else {
                    old(shared).session.order().push(s@)
                }
            },
            None => {
                &&& final(shared).count == old(shared).count + 1
                &&& sid@ == decimal(final(shared).count as nat)
                &&& final(shared).session@ == old(shared).session@.insert(
                    sid@,
                    Client { sender, info: None },
                )
                &&& final(shared).session.order() == if old(shared).session@.contains_key(sid@) {
                    old(shared).session.order()
                } else {
                    old(shared).session.order().push(sid@)
                }
            },
        },
{
    match login {
        Some((s, info)) => {
            let sid = s.clone();
            shared.session.insert(s, Client { sender, info });
            sid
        },
        None => {
            shared.count = shared.count + 1;
            let sid = Session::from_count(shared.count);
            shared.session.insert(sid.clone(), Client { sender, info: None });
            sid
        },
    }
}

/// The name of the `n`-th user of a plain channel: `user_` and `n`.
pub open spec fn user_name(n: nat) -> Seq<char> {
    "user_"@ + decimal(n)
}

/// Registers a connection of a plain channel, which writes through `sender`:
/// it is counted, and named after its number.
pub fn open_user<S>(shared: &mut Shared<S>, sender: S) -> (sid: Session)
    requires
        old(shared).count < u128::MAX,
    ensures
        final(shared).count == old(shared).count + 1,
        sid@ == user_name(final(shared).count as nat),
        sid@ == "user_"@ + decimal(final(shared).count as nat),
        final(shared).session@ == old(shared).session@.insert(sid@, sender),
        final(shared).session.order() == if old(shared).session@.contains_key(sid@) {
            old(shared).session.order()
        } else {
            old(shared).session.order().push(sid@)
        },
{
    shared.count = shared.count + 1;
    let mut name = "user_".to_string();
    let digits = decimal_string(shared.count);
    name.append(digits.as_str());
    let sid = Session(name);
    shared.session.insert(sid.clone(), sender);
    sid
}

/// What a plain channel makes of a text its client sent: a message from the
/// user whose content is that text as a JSON string.
pub fn text_message(sid: &Session, text: &str) -> (r: ChatMessage)
    ensures
        r.sender@ == sid@,
        r.content@ == Json::Str(text@),
{
    ChatMessage { sender: sid.clone(), content: JsonValue::Str(text.to_string()) }
}

/// What a text that a client sent becomes: a message from its session whose
/// content is the JSON document the text holds (`parsed`, when the text is
/// JSON), or else the text itself as a JSON string. No text is dropped.
pub fn inbound_message(sid: &Session, text: &str, parsed: Option<JsonValue>) -> (r: ChatMessage)
    ensures
        r.sender@ == sid@,
        r.content@ == match parsed {
            Some(v) => v@,
            None => Json::Str(text@),
        },
{
    match parsed {
        Some(v) => ChatMessage { sender: sid.clone(), content: v },
        None => text_message(sid, text),
    }
}

/// Unregisters the session of a closed connection.
pub fn close_session<T>(shared: &mut Shared<T>, sid: &Session)
    ensures
        final(shared).session@ == old(shared).session@.remove(sid@),
        final(shared).count == old(shared).count,
        old(shared).session@.contains_key(sid@) ==> exists|i: int|
            0 <= i < old(shared).session.order().len() && old(shared).session.order()[i] == sid@
                && final(shared).session.order() == old(shared).session.order().remove(i),
        !old(shared).session@.contains_key(sid@) ==> final(shared).session.order() == old(
            shared,
        ).session.order(),
{
    shared.session.remove(sid);
}

/// What becomes of a message that a client sent.
pub enum Inbound<'a> {
    /// It is posted to this webhook, and the webhook's answer goes back to
    /// the client.
    Post(&'a Webhook),
    /// It is published on the event queue.
    Publish,
    /// Nothing is done with it.
    Ignore,
}

/// Whether a message naming `event` goes to a webhook: its event has one,
/// and that webhook is enabled.
pub open spec fn claimed_by_webhook(event: Option<Seq<char>>, webhooks: Map<Seq<char>, Webhook>) -> bool {
    match event {
        Some(e) => webhooks.contains_key(e) && webhooks[e].enable,
        None => false,
    }
}

/// Routes a message from a client: to the enabled webhook of its event if
/// there is one, else to the event queue if there is one.
pub fn route_inbound<'a, M: Event>(msg: &M, webhooks: &'a WebhookMap, has_queue: bool) -> (r: Inbound<'a>)
    ensures
        (msg.event_name() matches Some(e) && webhooks@.contains_key(e) && webhooks@[e].enable)
            ==> (r matches Inbound::Post(w) && *w == webhooks@[msg.event_name()->0]),
        r matches Inbound::Post(w) ==> (msg.event_name() matches Some(e) && webhooks@.contains_key(e)
            && webhooks@[e].enable && *w == webhooks@[e]),
        (r is Publish) ==> has_queue,
        (r is Ignore) ==> !has_queue,
        claimed_by_webhook(msg.event_name(), webhooks@) ==> (r matches Inbound::Post(w) && *w
            == webhooks@[msg.event_name()->0]),
        !claimed_by_webhook(msg.event_name(), webhooks@) ==> if has_queue {
            r is Publish
        } else {
            r is Ignore
        },
{
    match msg.event() {
        Some(ev) => {
            if webhooks.contains_key(ev) {
                match webhooks.get(ev) {
                    Some(wh) => {
                        if wh.enable {
                            return Inbound::Post(wh);
                        }
                    },
                    None => {},
                }
            }
        },
        None => {},
    }
    if has_queue {
        Inbound::Publish
    } else {
        Inbound::Ignore
    }
}

/// The sessions present in `m`, among `ids`, in the order of `ids`.
pub open spec fn present<T>(ids: Seq<Seq<char>>, m: Map<Seq<char>, T>) -> Seq<Seq<char>>
    decreases ids.len(),
{
    if ids.len() == 0 {
        Seq::empty()
    } else if m.contains_key(ids.last()) {
        present(ids.drop_last(), m).push(ids.last())
    } else {
        present(ids.drop_last(), m)
    }
}

/// The receivers that are connected, in the order given; a receiver named
/// twice is chosen twice.
pub fn connected_receivers<T>(sm: &SessionManager<T>, receivers: &Vec<Session>) -> (r: Vec<Session>)
    ensures
        session_ids(r@) == present(session_ids(receivers@), sm@),
{
    let mut out: Vec<Session> = Vec::new();
    let mut i: usize = 0;
    while i < receivers.len()
        invariant
            i <= receivers.len(),
            session_ids(out@) == present(session_ids(receivers@).take(i as int), sm@),
        decreases receivers.len() - i,
    {
        let ghost ids = session_ids(receivers@);
        assert(ids.take(i + 1).drop_last() =~= ids.take(i as int));
        assert(ids.take(i + 1).last() == receivers[i as int]@);
        if sm.contains_key(&receivers[i]) {
            let ghost before = out@;
            out.push(receivers[i].clone());
            assert(session_ids(out@) =~= session_ids(before).push(receivers[i as int]@));
        }
        i = i + 1;
    }
    assert(session_ids(receivers@).take(i as int) =~= session_ids(receivers@));
    out
}

/// The sessions that a message from the push queue is delivered to: the
/// connected ones among its receivers. A message without receivers goes
/// nowhere.
pub fn push_targets<T>(sm: &SessionManager<T>, receivers: &Vec<Session>) -> (r: Vec<Session>)
    ensures
        receivers.len() == 0 ==> r.len() == 0,
        receivers.len() > 0 ==> session_ids(r@) == present(session_ids(receivers@), sm@),
{
    if receivers.len() == 0 {
        Vec::new()
    } else {
        connected_receivers(sm, receivers)
    }
}

/// How the greeting of one asset is produced.
pub enum GreetStep<'a> {
    /// This text is sent as it is.
    Text(String),
    /// The template of this name is rendered with the session.
    Render(&'a String),
    /// The session is posted to this endpoint, and its answer is sent.
    Post(&'a String),
}

/// The greeting step of an asset: a disabled asset answers `disabled`.
pub fn greet_step(asset: &Assets) -> (r: GreetStep<'_>)
    ensures
        !asset.enable ==> (r matches GreetStep::Text(t) && t@ == "disabled"@),
        asset.enable ==> match asset.variant {
            AssetsVariant::Path { path } => (r matches GreetStep::Render(p) && *p == path),
            AssetsVariant::Webhook { endpoint, .. } => (r matches GreetStep::Post(e) && *e
                == endpoint),
        },
{
    if !asset.enable {
        return GreetStep::Text("disabled".to_string());
    }
    match &asset.variant {
        AssetsVariant::Path { path } => GreetStep::Render(path),
        AssetsVariant::Webhook { endpoint, .. } => GreetStep::Post(endpoint),
    }
}

/// The context of a greeting: the session, as `session_id`.
pub open spec fn greet_context(sid: Seq<char>) -> Seq<(Seq<char>, Seq<char>)> {
    seq![("session_id"@, sid)]
}

/// The context of a webhook's error reply: the session, as `session_id`,
/// and the event, as `event`.
pub open spec fn webhook_error_context(sid: Seq<char>, event: Seq<char>) -> Seq<(Seq<char>, Seq<char>)> {
    seq![("session_id"@, sid), ("event"@, event)]
}

/// The name of the template of a webhook's error reply.
pub open spec fn webhook_error_template() -> Seq<char> {
    "webhook_error.json"@
}

/// The context of a greeting, as name and text pairs.
pub fn greet_context_of(sid: &Session) -> (r: Vec<(String, String)>)
    ensures
        pairs_view(r@) == greet_context(sid@),
        r@.len() == 1,
        r@[0].0@ == "session_id"@,
        r@[0].1@ == sid@,
{
    let mut ctx: Vec<(String, String)> = Vec::new();
    ctx.push(("session_id".to_string(), sid.0.clone()));
    assert(pairs_view(ctx@) =~= greet_context(sid@));
    ctx
}

/// Renders the greeting template `path` for a session.
pub fn render_greeting(tmpls: &Tmpls, path: &String, sid: &Session) -> (r: Option<String>)
    requires
        has_template(tmpls.model(), path@),
    ensures
        opt_string_view(r) == rendered(tmpls.model(), path@, greet_context(sid@)),
{
    let ctx = greet_context_of(sid);
    tmpls.render(path, &ctx)
}

/// Renders the reply a client gets when the webhook of its event fails.
pub fn render_webhook_error(tmpls: &Tmpls, sid: &Session, event: &str) -> (r: Option<String>)
    requires
        has_template(tmpls.model(), webhook_error_template()),
    ensures
        opt_string_view(r) == rendered(
            tmpls.model(),
            webhook_error_template(),
            webhook_error_context(sid@, event@),
        ),
{
    let mut ctx: Vec<(String, String)> = Vec::new();
    ctx.push(("session_id".to_string(), sid.0.clone()));
    ctx.push(("event".to_string(), event.to_string()));
    assert(pairs_view(ctx@) =~= webhook_error_context(sid@, event@));
    let name = "webhook_error.json".to_string();
    tmpls.render(&name, &ctx)
}

} // verus!
