//! Properties that hold across the operations of the gateway.
use crate::connection::{claimed_by_webhook, greet_context, present, user_name, webhook_error_context};
use crate::kafka::{consumer_settings, producer_settings};
use crate::settings::{map_of_pairs, QueueEvent, QueuePush};
use crate::settings::Webhook;
use crate::shared::{Client, SessionManager, Shared};
use crate::decimal::{decimal, digit_char, lemma_decimal_injective, lemma_decimal_shape};
use crate::admin::json_mime_bytes;
use crate::json::{event_key, json_event, lemma_json_field_first, Event, Json, JsonValue};
use crate::message::ChatMessage;
use crate::session::Session;
use vstd::prelude::*;

verus! {

/// After a session is inserted into a table, looking it up gives the
/// inserted value (`before` and `after` are the table around an `insert`).
pub proof fn law_get_after_insert<T>(before: SessionManager<T>, after: SessionManager<T>, k: Session, v: T)
    requires
        after@ == before@.insert(k@, v),
    ensures
        after@.contains_key(k@),
        after@[k@] == v,
{
}

/// Inserting or removing a session leaves every other session of the table
/// as it was (`inserted` and `removed` are `before` after an `insert` and
/// after a `remove` of `k`).
pub proof fn law_other_sessions_unchanged<T>(
    before: SessionManager<T>,
    inserted: SessionManager<T>,
    removed: SessionManager<T>,
    k: Session,
    v: T,
    other: Seq<char>,
)
    requires
        inserted@ == before@.insert(k@, v),
        removed@ == before@.remove(k@),
        other != k@,
    ensures
        inserted@.contains_key(other) == before@.contains_key(other),
        removed@.contains_key(other) == before@.contains_key(other),
        before@.contains_key(other) ==> inserted@[other] == before@[other] && removed@[other]
            == before@[other],
{
}

/// After a session is removed from a table it is no longer present.
pub proof fn law_absent_after_remove<T>(before: SessionManager<T>, after: SessionManager<T>, k: Session)
    requires
        after@ == before@.remove(k@),
    ensures
        !after@.contains_key(k@),
{
}

/// Closing a connection undoes opening it: when the session it was given was
/// not in use, the table, and its order, are as they were before the
/// connection opened (`opened` and `closed` are the state after
/// `open_session` and after `close_session`; the order of a table lists no
/// session twice).
pub proof fn law_close_undoes_open<S>(
    before: Shared<Client<S>>,
    opened: Shared<Client<S>>,
    closed: Shared<Client<S>>,
    sid: Session,
    client: Client<S>,
)
    requires
        !before.session@.contains_key(sid@),
        opened.session@ == before.session@.insert(sid@, client),
        opened.session.order() == before.session.order().push(sid@),
        opened.session.order().no_duplicates(),
        closed.session@ == opened.session@.remove(sid@),
        exists|i: int|
            0 <= i < opened.session.order().len() && opened.session.order()[i] == sid@
                && closed.session.order() == opened.session.order().remove(i),
    ensures
        closed.session@ == before.session@,
        closed.session.order() == before.session.order(),
{
    assert(closed.session@ =~= before.session@);
    let i = choose|i: int|
        0 <= i < opened.session.order().len() && opened.session.order()[i] == sid@
            && closed.session.order() == opened.session.order().remove(i);
    let n = before.session.order().len() as int;
    assert(opened.session.order()[n] == sid@);
    assert(i == n);
    assert(opened.session.order().remove(n) =~= before.session.order());
}

/// Two anonymous registrations get distinct sessions: a later registration
/// takes a larger counter value, and distinct values are written
/// differently (`first` and `second` are the state after each, `a` and `b`
/// the sessions they returned).
pub proof fn law_anonymous_registrations_distinct<S>(
    first: Shared<Client<S>>,
    second: Shared<Client<S>>,
    a: Session,
    b: Session,
)
    requires
        first.count < second.count,
        a@ == decimal(first.count as nat),
        b@ == decimal(second.count as nat),
    ensures
        a@ != b@,
{
    lemma_decimal_injective(first.count as nat, second.count as nat);
}

/// How often `k` occurs in `s`.
pub open spec fn occurrences(s: Seq<Seq<char>>, k: Seq<char>) -> nat
    decreases s.len(),
{
    if s.len() == 0 {
        0
    } else {
        occurrences(s.drop_last(), k) + if s.last() == k {
            1nat
        } else {
            0nat
        }
    }
}

/// A message is only ever delivered to connected sessions that it names, and
/// to each of them as often as it names it.
pub proof fn law_targets_are_connected_receivers<T>(ids: Seq<Seq<char>>, m: Map<Seq<char>, T>)
    ensures
        forall|i: int| 0 <= i < present(ids, m).len() ==> m.contains_key(#[trigger] present(ids, m)[i]),
        forall|i: int| 0 <= i < present(ids, m).len() ==> ids.contains(#[trigger] present(ids, m)[i]),
        forall|k: Seq<char>| m.contains_key(k) ==> #[trigger] occurrences(present(ids, m), k) == occurrences(ids, k),
    decreases ids.len(),
{
    if ids.len() > 0 {
        law_targets_are_connected_receivers(ids.drop_last(), m);
        let rest = present(ids.drop_last(), m);
        assert forall|i: int| 0 <= i < present(ids, m).len() implies ids.contains(#[trigger] present(ids, m)[i]) by {
            if i < rest.len() {
                let j = choose|j: int| 0 <= j < ids.drop_last().len() && ids.drop_last()[j] == rest[i];
                assert(ids[j] == rest[i]);
            } else {
                assert(ids[ids.len() - 1] == present(ids, m)[i]);
            }
        }
        assert forall|k: Seq<char>| m.contains_key(k) implies #[trigger] occurrences(present(ids, m), k) == occurrences(ids, k) by {
            if m.contains_key(ids.last()) {
                assert(present(ids, m) == rest.push(ids.last()));
                assert(rest.push(ids.last()).drop_last() =~= rest);
                assert(occurrences(present(ids, m), k) == occurrences(rest, k) + if ids.last() == k {
                    1nat
                } else {
                    0nat
                });
            } else {
                assert(ids.last() != k);
                assert(present(ids, m) == rest);
            }
        }
    }
}

/// Text that is not JSON, which becomes a JSON string, is claimed by no
/// webhook, whatever the webhooks: `route_inbound` publishes it whenever
/// there is an event queue.
pub proof fn law_plain_text_is_published(text: Seq<char>, webhooks: Map<Seq<char>, Webhook>)
    ensures
        !claimed_by_webhook(json_event(Json::Str(text)), webhooks),
{
}

/// Anonymous connections registered one after another get pairwise distinct
/// sessions: the counter values they take strictly increase, and distinct
/// values are written differently.
pub proof fn law_registered_sessions_distinct(counts: Seq<nat>)
    requires
        forall|i: int, j: int| 0 <= i < j < counts.len() ==> counts[i] < counts[j],
    ensures
        forall|i: int, j: int|
            0 <= i < j < counts.len() ==> decimal(#[trigger] counts[i]) != decimal(#[trigger] counts[j]),
{
    assert forall|i: int, j: int| 0 <= i < j < counts.len() implies decimal(#[trigger] counts[i]) != decimal(#[trigger] counts[j]) by {
        lemma_decimal_injective(counts[i], counts[j]);
    }
}

/// A message built from a sender and a content names the content's event.
pub proof fn law_message_event(sender: Session, content: JsonValue)
    ensures
        (ChatMessage { sender, content }).event_name() == json_event(content@),
{
}

/// The number that a string of decimal digits denotes.
pub open spec fn digits_value(s: Seq<char>) -> int
    decreases s.len(),
{
    if s.len() == 0 {
        0
    } else {
        digits_value(s.drop_last()) * 10 + (s.last() as int - 48)
    }
}

/// A session number is written as the decimal digits of exactly that number.
pub proof fn law_decimal_denotes_number(n: nat)
    ensures
        digits_value(decimal(n)) == n,
    decreases n,
{
    let d = n % 10;
    assert(digit_char(d) as int == 48 + d);
    lemma_decimal_shape(n);
    let s = decimal(n);
    assert(digits_value(s) == digits_value(s.drop_last()) * 10 + (s.last() as int - 48));
    if n >= 10 {
        law_decimal_denotes_number(n / 10);
        assert(decimal(n).drop_last() == decimal(n / 10));
        assert(decimal(n).last() == digit_char(d));
        assert((n / 10) * 10 + d == n);
    } else {
        assert(d == n);
        assert(decimal(n).drop_last() =~= Seq::<char>::empty());
        assert(decimal(n).last() == digit_char(d));
    }
}

/// The name of the `n`-th plain-channel user is `user_` followed by all the
/// decimal digits of `n`, and distinct users get distinct names.
pub proof fn law_user_names(a: nat, b: nat)
    ensures
        user_name(a).len() == 5 + decimal(a).len(),
        user_name(a).subrange(0, 5) == seq!['u', 's', 'e', 'r', '_'],
        user_name(a).subrange(5, user_name(a).len() as int) == decimal(a),
        digits_value(user_name(a).subrange(5, user_name(a).len() as int)) == a,
        a != b ==> user_name(a) != user_name(b),
{
    reveal_strlit("user_");
    let ua = user_name(a);
    let ub = user_name(b);
    assert(ua.subrange(0, 5) =~= seq!['u', 's', 'e', 'r', '_']);
    assert(ua.subrange(5, ua.len() as int) =~= decimal(a));
    assert(ub.subrange(5, ub.len() as int) =~= decimal(b));
    law_decimal_denotes_number(a);
    if a != b {
        lemma_decimal_injective(a, b);
        if ua == ub {
            assert(decimal(a) == decimal(b));
        }
    }
}

/// Every configured webhook is kept: each pair's event is in the table, the
/// table holds no other event, and an event's webhook is the one of the last
/// pair that names it.
pub proof fn law_webhook_pairs_kept(pairs: Seq<(String, Webhook)>)
    ensures
        forall|i: int| 0 <= i < pairs.len() ==> #[trigger] map_of_pairs(pairs).contains_key(pairs[i].0@),
        forall|k: Seq<char>| #[trigger] map_of_pairs(pairs).contains_key(k) ==> exists|i: int|
            0 <= i < pairs.len() && pairs[i].0@ == k,
        forall|i: int|
            0 <= i < pairs.len() && (forall|j: int| i < j < pairs.len() ==> pairs[j].0@ != pairs[i].0@)
                ==> #[trigger] map_of_pairs(pairs)[pairs[i].0@] == pairs[i].1,
    decreases pairs.len(),
{
    if pairs.len() > 0 {
        let init = pairs.drop_last();
        law_webhook_pairs_kept(init);
        let n = pairs.len() - 1;
        assert forall|i: int| 0 <= i < pairs.len() implies #[trigger] map_of_pairs(pairs).contains_key(pairs[i].0@) by {
            if i < n {
                assert(init[i] == pairs[i]);
                assert(map_of_pairs(init).contains_key(init[i].0@));
            }
        }
        assert forall|k: Seq<char>| #[trigger] map_of_pairs(pairs).contains_key(k) implies exists|i: int|
            0 <= i < pairs.len() && pairs[i].0@ == k by {
            if k != pairs[n].0@ {
                assert(map_of_pairs(init).contains_key(k));
                let i = choose|i: int| 0 <= i < init.len() && init[i].0@ == k;
                assert(pairs[i] == init[i]);
            }
        }
        assert forall|i: int|
            0 <= i < pairs.len() && (forall|j: int| i < j < pairs.len() ==> pairs[j].0@ != pairs[i].0@)
                implies #[trigger] map_of_pairs(pairs)[pairs[i].0@] == pairs[i].1 by {
            if i < n {
                assert(init[i] == pairs[i]);
                assert(pairs[n].0@ != pairs[i].0@);
                assert forall|j: int| i < j < init.len() implies init[j].0@ != init[i].0@ by {
                    assert(init[j] == pairs[j]);
                }
                assert(map_of_pairs(init)[init[i].0@] == init[i].1);
            }
        }
    }
}

/// A message whose event has an enabled webhook is claimed by that webhook,
/// whatever its endpoint; a message with no event, or whose event has no
/// webhook or a disabled one, is not.
pub proof fn law_webhook_claim(event: Option<Seq<char>>, webhooks: Map<Seq<char>, Webhook>)
    ensures
        claimed_by_webhook(event, webhooks) <==> (event is Some && webhooks.contains_key(event->0)
            && webhooks[event->0].enable),
{
}

/// A greeting sees the whole session identifier as `session_id`, and
/// nothing else; a webhook's error reply sees the whole identifier as
/// `session_id` and the whole event as `event`.
pub proof fn law_contexts_bind_whole_values(sid: Seq<char>, event: Seq<char>)
    ensures
        greet_context(sid).len() == 1,
        greet_context(sid)[0] == (seq!['s', 'e', 's', 's', 'i', 'o', 'n', '_', 'i', 'd'], sid),
        webhook_error_context(sid, event).len() == 2,
        webhook_error_context(sid, event)[0] == (seq!['s', 'e', 's', 's', 'i', 'o', 'n', '_', 'i', 'd'], sid),
        webhook_error_context(sid, event)[1] == (seq!['e', 'v', 'e', 'n', 't'], event),
{
    reveal_strlit("session_id");
    reveal_strlit("event");
    assert("session_id"@ =~= seq!['s', 'e', 's', 's', 'i', 'o', 'n', '_', 'i', 'd']);
    assert("event"@ =~= seq!['e', 'v', 'e', 'n', 't']);
}

/// The Kafka clients take only the group and the first broker from the
/// configuration: every other setting is fixed, whatever the configuration
/// (commits are always automatic), and a missing group is `default`.
pub proof fn law_kafka_settings(push: QueuePush, event: QueueEvent)
    ensures
        consumer_settings(push).len() == 5,
        consumer_settings(push)[0] == ("group.id"@, match push.group {
            Some(g) => g@,
            None => "default"@,
        }),
        consumer_settings(push)[1] == ("bootstrap.servers"@, push.broker[0]@),
        consumer_settings(push)[2] == ("enable.partition.eof"@, "false"@),
        consumer_settings(push)[3] == ("session.timeout.ms"@, "6000"@),
        consumer_settings(push)[4] == ("enable.auto.commit"@, "true"@),
        producer_settings(event).len() == 2,
        producer_settings(event)[0] == ("bootstrap.servers"@, event.broker[0]@),
        producer_settings(event)[1] == ("message.timeout.ms"@, "5000"@),
{
}

/// The targets of a list of receivers made of two parts are the targets of
/// the first part followed by those of the second: receivers keep their
/// order, and a list of connected receivers is its own list of targets.
pub proof fn law_targets_keep_order<T>(a: Seq<Seq<char>>, b: Seq<Seq<char>>, m: Map<Seq<char>, T>)
    ensures
        present(a + b, m) == present(a, m) + present(b, m),
        (forall|i: int| 0 <= i < a.len() ==> m.contains_key(#[trigger] a[i])) ==> present(a, m) == a,
    decreases b.len(), a.len(),
{
    if b.len() > 0 {
        law_targets_keep_order(a, b.drop_last(), m);
        assert((a + b).drop_last() =~= a + b.drop_last());
        assert((a + b).last() == b.last());
        if m.contains_key(b.last()) {
            assert(present(a, m) + present(b, m) =~= (present(a, m) + present(b.drop_last(), m)).push(b.last()));
        }
    } else {
        assert(a + b =~= a);
        assert(present(a, m) + present(b, m) =~= present(a, m));
    }
    if forall|i: int| 0 <= i < a.len() ==> m.contains_key(#[trigger] a[i]) {
        if a.len() > 0 {
            assert forall|i: int| 0 <= i < a.drop_last().len() implies m.contains_key(#[trigger] a.drop_last()[i]) by {
                assert(a.drop_last()[i] == a[i]);
            }
            law_targets_keep_order(a.drop_last(), Seq::empty(), m);
            assert(m.contains_key(a[a.len() - 1]));
            assert(a.drop_last().push(a.last()) =~= a);
        }
    }
}

/// The event of a JSON value is the string member `event` of an object:
/// the first member of that name, when it is a string; nothing for an object
/// without such a member, or for any value that is not an object.
pub proof fn law_event_member(fields: Seq<(Seq<char>, Json)>, i: int, v: Json)
    requires
        0 <= i <= fields.len(),
        forall|j: int| 0 <= j < i ==> fields[j].0 != seq!['e', 'v', 'e', 'n', 't'],
    ensures
        i < fields.len() && fields[i].0 == seq!['e', 'v', 'e', 'n', 't'] ==> json_event(Json::Object(fields))
            == match fields[i].1 {
            Json::Str(s) => Some(s),
            _ => None,
        },
        i == fields.len() ==> json_event(Json::Object(fields)) is None,
        !(v is Object) ==> json_event(v) is None,
{
    lemma_json_field_first(fields, event_key(), i);
}

/// The JSON content type that `echo` answers to is exactly the bytes of
/// `application/json`.
pub proof fn law_json_mime_bytes()
    ensures
        json_mime_bytes().len() == 16,
        forall|i: int| 0 <= i < 16 ==> #[trigger] json_mime_bytes()[i] == "application/json"@[i] as u8,
{
    reveal_strlit("application/json");
}

} // verus!
