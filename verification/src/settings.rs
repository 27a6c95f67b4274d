//! The configuration model: message queues, webhooks, greetings and login.
use vstd::hash_map::StringHashMap;
use vstd::prelude::*;

verus! {

/// The content type a webhook answers with when none is configured.
pub fn default_accept() -> (r: String)
    ensures
        r@ == "application/json"@,
{
    "application/json".to_string()
}

/// Where a greeting comes from: a template, or a webhook.
#[derive(Clone, Debug)]
pub enum AssetsVariant {
    Path { path: String },
    Webhook { endpoint: String, accept: String },
}

/// One greeting sent to a client when it connects.
#[derive(Clone, Debug)]
pub struct Assets {
    pub enable: bool,
    pub variant: AssetsVariant,
}

/// The queue that messages for clients arrive on.
#[derive(Clone, Debug)]
pub struct QueuePush {
    pub kind: String,
    pub broker: Vec<String>,
    pub topic: Vec<String>,
    pub group: Option<String>,
}

/// The queue that messages from clients are published to.
#[derive(Clone, Debug)]
pub struct QueueEvent {
    pub kind: String,
    pub broker: Vec<String>,
    pub topic: String,
}

/// Both queues, and whether they are used at all.
#[derive(Clone, Debug)]
pub struct Queue {
    pub enable: bool,
    pub event: QueueEvent,
    pub push: QueuePush,
}

/// A webhook: the endpoint that messages of one event are posted to.
#[derive(Clone, Debug)]
pub struct Webhook {
    pub enable: bool,
    pub endpoint: String,
    pub accept: String,
}

/// The endpoint a login request is posted to, or the event that logs in.
#[derive(Clone, Debug)]
pub enum LoginVariant {
    Endpoint { endpoint: String },
    Event { event: String },
}

/// How clients log in (or out).
#[derive(Clone, Debug)]
pub struct Login {
    pub enable: bool,
    pub variant: Option<LoginVariant>,
}

impl AssetsVariant {
    /// The endpoint of a webhook source; a template source has none, and
    /// posting a greeting to it is refused.
    pub fn webhook_endpoint(&self) -> (r: Option<&String>)
        ensures
            match self {
                AssetsVariant::Webhook { endpoint, .. } => r == Some(endpoint),
                AssetsVariant::Path { .. } => r is None,
            },
    {
        match self {
            AssetsVariant::Webhook { endpoint, .. } => Some(endpoint),
            AssetsVariant::Path { .. } => None,
        }
    }
}

impl Webhook {
    /// The webhook a greeting source describes: an enabled webhook for a
    /// webhook source, a disabled one with an empty endpoint otherwise.
    pub fn from_variant(value: AssetsVariant) -> (r: Webhook)
        ensures
            match value {
                AssetsVariant::Webhook { endpoint, accept } => r.enable && r.endpoint == endpoint
                    && r.accept == accept,
                AssetsVariant::Path { .. } => !r.enable && r.endpoint@ == Seq::<char>::empty()
                    && r.accept@ == "application/json"@,
            },
    {
        match value {
            AssetsVariant::Webhook { endpoint, accept } => Webhook { enable: true, accept, endpoint },
            AssetsVariant::Path { .. } => Webhook {
                enable: false,
                accept: default_accept(),
                endpoint: String::new(),
            },
        }
    }
}

/// The webhooks, by the event they serve.
pub struct WebhookMap {
    map: StringHashMap<Webhook>,
}

impl View for WebhookMap {
    type V = Map<Seq<char>, Webhook>;

    closed spec fn view(&self) -> Map<Seq<char>, Webhook> {
        self.map@
    }
}

/// The map that a list of (event, webhook) pairs gives when inserted in
/// order: a later pair for an event replaces an earlier one.
pub open spec fn map_of_pairs(pairs: Seq<(String, Webhook)>) -> Map<Seq<char>, Webhook>
    decreases pairs.len(),
{
    if pairs.len() == 0 {
        Map::empty()
    } else {
        map_of_pairs(pairs.drop_last()).insert(pairs.last().0@, pairs.last().1)
    }
}

impl WebhookMap {
    /// No webhooks.
    pub fn new() -> (r: WebhookMap)
        ensures
            r@ == Map::<Seq<char>, Webhook>::empty(),
    {
        WebhookMap { map: StringHashMap::new() }
    }

    /// The webhooks of a list of (event, webhook) pairs.
    pub fn from_pairs(pairs: Vec<(String, Webhook)>) -> (r: WebhookMap)
        ensures
            r@ == map_of_pairs(pairs@),
            forall|i: int| 0 <= i < pairs@.len() ==> #[trigger] r@.contains_key(pairs@[i].0@),
            forall|k: Seq<char>| #[trigger] r@.contains_key(k) ==> exists|i: int|
                0 <= i < pairs@.len() && pairs@[i].0@ == k,
            forall|i: int|
                0 <= i < pairs@.len() && (forall|j: int|
                    i < j < pairs@.len() ==> pairs@[j].0@ != pairs@[i].0@) ==> #[trigger] r@[pairs@[i].0@]
                    == pairs@[i].1,
    {
        proof {
            crate::laws::law_webhook_pairs_kept(pairs@);
        }
        let mut m = WebhookMap::new();
        let mut pairs = pairs;
        let ghost all = pairs@;
        let mut rest: Vec<(String, Webhook)> = Vec::new();
        // Take the pairs from the back, then insert them front to back.
        while pairs.len() > 0
            invariant
                all == pairs@ + rest@.reverse(),
            decreases pairs.len(),
        {
            let p = pairs.pop().unwrap();
            let ghost before = rest@;
            rest.push(p);
            assert(rest@.reverse() =~= seq![p] + before.reverse());
            assert(all =~= pairs@ + rest@.reverse());
        }
        assert(all =~= rest@.reverse());
        while rest.len() > 0
            invariant
                m@ == map_of_pairs(all.take(all.len() - rest.len())),
                all == all.take(all.len() - rest.len()) + rest@.reverse(),
                rest.len() <= all.len(),
            decreases rest.len(),
        {
            let ghost done = all.take(all.len() - rest.len());
            let (k, v) = rest.pop().unwrap();
            let ghost n = all.len() - rest.len();
            assert(all[n - 1] == (k, v));
            m.insert(k, v);
            assert(all.take(n).drop_last() =~= done);
        }
        assert(all.take(all.len() as int) =~= all);
        m
    }

    /// Adds or replaces the webhook of an event.
    pub fn insert(&mut self, event: String, webhook: Webhook)
        ensures
            final(self)@ == old(self)@.insert(event@, webhook),
    {
        self.map.insert(event, webhook);
    }

    /// Whether an event has a webhook.
    pub fn contains_key(&self, event: &str) -> (r: bool)
        ensures
            r == self@.contains_key(event@),
    {
        self.map.contains_key(event)
    }

    /// The webhook of an event.
    pub fn get(&self, event: &str) -> (r: Option<&Webhook>)
        ensures
            match r {
                Some(w) => self@.contains_key(event@) && *w == self@[event@],
                None => !self@.contains_key(event@),
            },
    {
        self.map.get(event)
    }
}

/// The settings of the gateway.
pub struct Settings {
    pub queue: Queue,
    pub webhooks: WebhookMap,
    pub greet: Vec<Assets>,
    pub login: Login,
    pub logout: Login,
}

impl Login {
    /// The endpoint that login requests go to: only when login is enabled
    /// and configured with an endpoint.
    pub fn endpoint(&self) -> (r: Option<&String>)
        ensures
            r == match self.variant {
                Some(LoginVariant::Endpoint { endpoint }) if self.enable => Some(&endpoint),
                _ => None,
            },
    {
        if self.enable {
            match &self.variant {
                Some(LoginVariant::Endpoint { endpoint }) => Some(endpoint),
                _ => None,
            }
        } else {
            None
        }
    }
}

} // verus!
