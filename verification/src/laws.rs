//! What holds of the blackboard whatever it holds: how reads follow writes,
//! whom a change reaches, and what the schema shows.

use vstd::prelude::*;
use crate::blackboard::{set_applied, spec_read, Blackboard};
use crate::entries::{ValueKind, ValueView};
use crate::error::RuntimeError;
use crate::schema::{json_type_of, schema_of};
use crate::store::{
    distinct_keys, distinct_subscribers, entries_map, has_key, lemma_entries_map_dom,
    lemma_entries_map_values, registered, subscribers_of, with_subscriber, without,
    SubscriberView,
};
use crate::text::bytes_with_nul;

verus! {

/// After a key was set, a read of the key as a value of the kind that was
/// written gives the value that was written.
pub proof fn law_get_after_set(
    before: Blackboard,
    after: Blackboard,
    key: Seq<char>,
    value: ValueView,
    due: Seq<SubscriberView>,
)
    requires
        set_applied(before, after, key, value, due),
    ensures
        spec_read(after, Some(key), value.kind()) == Ok::<ValueView, RuntimeError>(value),
{
}

/// After a key was set, a read of the key as a value of another kind than
/// the one that was written fails with `TypeMismatch`.
pub proof fn law_get_other_kind_after_set(
    before: Blackboard,
    after: Blackboard,
    key: Seq<char>,
    value: ValueView,
    due: Seq<SubscriberView>,
    kind: ValueKind,
)
    requires
        set_applied(before, after, key, value, due),
        kind != value.kind(),
    ensures
        spec_read(after, Some(key), kind) == Err::<ValueView, RuntimeError>(
            RuntimeError::TypeMismatch,
        ),
{
}

/// Setting a key twice leaves the second value, and the second set does not
/// change the number of entries.
pub proof fn law_set_twice(
    start: Blackboard,
    once: Blackboard,
    twice: Blackboard,
    key: Seq<char>,
    first: ValueView,
    second: ValueView,
    due_first: Seq<SubscriberView>,
    due_second: Seq<SubscriberView>,
)
    requires
        set_applied(start, once, key, first, due_first),
        set_applied(once, twice, key, second, due_second),
    ensures
        spec_read(twice, Some(key), second.kind()) == Ok::<ValueView, RuntimeError>(second),
        twice.map().dom() == once.map().dom(),
        twice.map().dom().len() == once.map().dom().len(),
        twice.entries().len() == once.entries().len(),
{
    assert(twice.map().dom() =~= once.map().dom());
    lemma_entries_map_values(once.entries());
    lemma_entries_map_values(twice.entries());
}

/// Each subscriber of a key, as `subscribers_of` lists them, is a registered
/// subscriber of that key; each registered subscriber of the key is listed;
/// and where no pair of key and component is registered twice, none is
/// listed twice.
pub proof fn lemma_subscribers_of(subscribers: Seq<SubscriberView>, key: Seq<char>)
    ensures
        forall|i: int|
            0 <= i < subscribers_of(subscribers, key).len() ==> (#[trigger] subscribers_of(
                subscribers,
                key,
            )[i]).key == key && subscribers.contains(subscribers_of(subscribers, key)[i]),
        forall|j: int|
            0 <= j < subscribers.len() && (#[trigger] subscribers[j]).key == key
                ==> subscribers_of(subscribers, key).contains(subscribers[j]),
        distinct_subscribers(subscribers) ==> distinct_subscribers(
            subscribers_of(subscribers, key),
        ),
    decreases subscribers.len(),
{
    let due = subscribers_of(subscribers, key);
    if subscribers.len() == 0 {
    } else {
        let front = subscribers.drop_last();
        let last = subscribers.last();
        let rest = subscribers_of(front, key);
        lemma_subscribers_of(front, key);
        assert forall|i: int| 0 <= i < due.len() implies (#[trigger] due[i]).key == key
            && subscribers.contains(due[i]) by {
            if i < rest.len() {
                assert(due[i] == rest[i]);
                assert(front.contains(rest[i]));
                let j = choose|j: int| 0 <= j < front.len() && front[j] == rest[i];
                assert(subscribers[j] == rest[i]);
            } else {
                assert(due[i] == last);
                assert(subscribers[subscribers.len() - 1] == last);
            }
        }
        assert forall|j: int|
            0 <= j < subscribers.len() && (#[trigger] subscribers[j]).key == key implies due.contains(
            subscribers[j],
        ) by {
            if j < front.len() {
                assert(front[j] == subscribers[j]);
                assert(rest.contains(front[j]));
                let i = choose|i: int| 0 <= i < rest.len() && rest[i] == front[j];
                assert(due[i] == subscribers[j]);
            } else {
                assert(due[due.len() - 1] == subscribers[j]);
            }
        }
        if distinct_subscribers(subscribers) {
            assert(distinct_subscribers(front)) by {
                assert forall|i: int, j: int| 0 <= i < j < front.len() implies !((
                #[trigger] front[i]).key == (#[trigger] front[j]).key && front[i].component
                    == front[j].component) by {
                    assert(front[i] == subscribers[i]);
                    assert(front[j] == subscribers[j]);
                }
            }
            assert forall|i: int, j: int| 0 <= i < j < due.len() implies !((#[trigger] due[i]).key == (
            #[trigger] due[j]).key && due[i].component == due[j].component) by {
                if j < rest.len() {
                    assert(due[i] == rest[i] && due[j] == rest[j]);
                } else {
                    assert(due[j] == last);
                    assert(due[i] == rest[i]);
                    assert(front.contains(rest[i]));
                    let k = choose|k: int| 0 <= k < front.len() && front[k] == rest[i];
                    assert(subscribers[k] == rest[i]);
                    assert(subscribers[subscribers.len() - 1] == last);
                    assert(!(subscribers[k].key == subscribers[subscribers.len() - 1].key
                        && subscribers[k].component == subscribers[subscribers.len()
                        - 1].component));
                }
            }
        }
    }
}

/// Registering the same pair of key and component a second time changes
/// nothing, and a set of the key then makes exactly one call due on the
/// component's behalf.
pub proof fn law_subscribe_twice(
    subscribers: Seq<SubscriberView>,
    first: SubscriberView,
    second: SubscriberView,
)
    requires
        distinct_subscribers(subscribers),
        second.key == first.key,
        second.component == first.component,
    ensures
        with_subscriber(with_subscriber(subscribers, first), second) == with_subscriber(
            subscribers,
            first,
        ),
        exists|i: int|
            0 <= i < subscribers_of(with_subscriber(subscribers, first), first.key).len() && (
            #[trigger] subscribers_of(with_subscriber(subscribers, first), first.key)[i]).component
                == first.component,
        forall|i: int, j: int|
            0 <= i < subscribers_of(with_subscriber(subscribers, first), first.key).len() && 0 <= j
                < subscribers_of(with_subscriber(subscribers, first), first.key).len() && (
            #[trigger] subscribers_of(with_subscriber(subscribers, first), first.key)[i]).component
                == first.component && (#[trigger] subscribers_of(
                with_subscriber(subscribers, first),
                first.key,
            )[j]).component == first.component ==> i == j,
{
    let once = with_subscriber(subscribers, first);
    lemma_with_subscriber(subscribers, first);
    let due = subscribers_of(once, first.key);
    lemma_subscribers_of(once, first.key);
    let at = choose|at: int|
        0 <= at < once.len() && (#[trigger] once[at]).key == first.key && once[at].component
            == first.component;
    assert(due.contains(once[at]));
    let i = choose|i: int| 0 <= i < due.len() && due[i] == once[at];
    assert(due[i].component == first.component);
    assert forall|i: int, j: int|
        0 <= i < due.len() && 0 <= j < due.len() && (#[trigger] due[i]).component == first.component
            && (#[trigger] due[j]).component == first.component implies i == j by {
        if i < j {
            assert(!(due[i].key == due[j].key && due[i].component == due[j].component));
        } else if j < i {
            assert(!(due[j].key == due[i].key && due[j].component == due[i].component));
        }
    }
}

/// A registration leaves the pair registered and keeps the pairs distinct.
pub proof fn lemma_with_subscriber(subscribers: Seq<SubscriberView>, subscriber: SubscriberView)
    requires
        distinct_subscribers(subscribers),
    ensures
        distinct_subscribers(with_subscriber(subscribers, subscriber)),
        registered(
            with_subscriber(subscribers, subscriber),
            subscriber.key,
            subscriber.component,
        ),
{
    let after = with_subscriber(subscribers, subscriber);
    if registered(subscribers, subscriber.key, subscriber.component) {
    } else {
        assert(after[after.len() - 1] == subscriber);
        assert forall|i: int, j: int| 0 <= i < j < after.len() implies !((#[trigger] after[i]).key == (
        #[trigger] after[j]).key && after[i].component == after[j].component) by {
            if j < subscribers.len() {
                assert(after[i] == subscribers[i] && after[j] == subscribers[j]);
            } else {
                assert(after[i] == subscribers[i]);
            }
        }
    }
}

/// What is left when a registration is taken out holds no subscriber with
/// that pair of key and component, and only subscribers that were there.
pub proof fn lemma_without(subscribers: Seq<SubscriberView>, key: Seq<char>, component: Seq<char>)
    ensures
        !registered(without(subscribers, key, component), key, component),
        forall|i: int|
            0 <= i < without(subscribers, key, component).len() ==> subscribers.contains(
                #[trigger] without(subscribers, key, component)[i],
            ),
    decreases subscribers.len(),
{
    let left = without(subscribers, key, component);
    if subscribers.len() == 0 {
    } else {
        let front = subscribers.drop_last();
        let last = subscribers.last();
        let rest = without(front, key, component);
        lemma_without(front, key, component);
        assert forall|i: int| 0 <= i < left.len() implies subscribers.contains(#[trigger] left[i]) by {
            if i < rest.len() {
                assert(left[i] == rest[i]);
                assert(front.contains(rest[i]));
                let j = choose|j: int| 0 <= j < front.len() && front[j] == rest[i];
                assert(subscribers[j] == rest[i]);
            } else {
                assert(left[i] == last);
                assert(subscribers[subscribers.len() - 1] == last);
            }
        }
        if registered(left, key, component) {
            let i = choose|i: int|
                0 <= i < left.len() && (#[trigger] left[i]).key == key && left[i].component
                    == component;
            if i < rest.len() {
                assert(left[i] == rest[i]);
                assert(registered(rest, key, component));
            } else {
                assert(left[i] == last);
            }
            assert(false);
        }
    }
}

/// After a registration was taken out, a set of the key makes no call due
/// on behalf of the component that had registered.
pub proof fn law_unsubscribed_is_not_notified(
    subscribers: Seq<SubscriberView>,
    key: Seq<char>,
    component: Seq<char>,
)
    ensures
        forall|i: int|
            0 <= i < subscribers_of(without(subscribers, key, component), key).len() ==> (
            #[trigger] subscribers_of(without(subscribers, key, component), key)[i]).component
                != component,
{
    let left = without(subscribers, key, component);
    let due = subscribers_of(left, key);
    lemma_without(subscribers, key, component);
    lemma_subscribers_of(left, key);
    assert forall|i: int| 0 <= i < due.len() implies (#[trigger] due[i]).component != component by {
        assert(left.contains(due[i]));
        let j = choose|j: int| 0 <= j < left.len() && left[j] == due[i];
        if due[i].component == component {
            assert(left[j].key == key && left[j].component == component);
            assert(registered(left, key, component));
        }
    }
}

/// The schema shows the blackboard as it is: each key has exactly one
/// property, which holds the key's current value and the JSON type of the
/// value's kind, and each property belongs to a key.
pub proof fn law_schema_reflects_entries(entries: Seq<(Seq<char>, ValueView)>)
    requires
        distinct_keys(entries),
    ensures
        schema_of(entries).len() == entries_map(entries).dom().len(),
        forall|i: int|
            0 <= i < schema_of(entries).len() ==> {
                let property = #[trigger] schema_of(entries)[i];
                &&& entries_map(entries).dom().contains(property.0)
                &&& property.2 == entries_map(entries)[property.0]
                &&& property.1 == json_type_of(entries_map(entries)[property.0].kind())
            },
        forall|key: Seq<char>|
            entries_map(entries).dom().contains(key) ==> exists|i: int|
                0 <= i < schema_of(entries).len() && (#[trigger] schema_of(entries)[i]).0 == key,
        forall|i: int, j: int|
            0 <= i < j < schema_of(entries).len() ==> (#[trigger] schema_of(entries)[i]).0 != (
            #[trigger] schema_of(entries)[j]).0,
{
    lemma_entries_map_values(entries);
    lemma_entries_map_dom(entries);
    let schema = schema_of(entries);
    assert forall|i: int| 0 <= i < schema.len() implies {
        let property = #[trigger] schema[i];
        &&& entries_map(entries).dom().contains(property.0)
        &&& property.2 == entries_map(entries)[property.0]
        &&& property.1 == json_type_of(entries_map(entries)[property.0].kind())
    } by {
        assert(schema[i].0 == entries[i].0);
    }
    assert forall|key: Seq<char>| entries_map(entries).dom().contains(key) implies exists|i: int|
        0 <= i < schema.len() && (#[trigger] schema[i]).0 == key by {
        assert(has_key(entries, key));
        let i = choose|i: int| 0 <= i < entries.len() && (#[trigger] entries[i]).0 == key;
        assert(schema[i].0 == key);
    }
    assert forall|i: int, j: int| 0 <= i < j < schema.len() implies (#[trigger] schema[i]).0 != (
    #[trigger] schema[j]).0 by {
        assert(entries[i].0 != entries[j].0);
    }
}

/// Both calls of a sized read of a string report the same number, the
/// length of the string in bytes and one more; and what the second call
/// writes is the string's bytes with a NUL behind them.
pub proof fn law_string_read_size(blackboard: Blackboard, key: Seq<char>, text: Seq<char>)
    requires
        spec_read(blackboard, Some(key), ValueKind::Utf8String) == Ok::<ValueView, RuntimeError>(
            ValueView::String(text),
        ),
    ensures
        bytes_with_nul(
            spec_read(blackboard, Some(key), ValueKind::Utf8String).unwrap().as_text(),
        ) == bytes_with_nul(text),
        bytes_with_nul(text).len() == vstd::utf8::encode_utf8(text).len() + 1,
        bytes_with_nul(text).take(vstd::utf8::encode_utf8(text).len() as int)
            == vstd::utf8::encode_utf8(text),
        bytes_with_nul(text).last() == 0u8,
{
    assert(bytes_with_nul(text).take(vstd::utf8::encode_utf8(text).len() as int)
        =~= vstd::utf8::encode_utf8(text));
}

} // verus!
