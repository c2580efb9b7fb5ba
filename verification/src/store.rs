//! The mathematical model of the blackboard: what a sequence of entries
//! maps each key to, and which subscribers a change of a key reaches.

use vstd::prelude::*;
use crate::entries::ValueView;
use crate::text::{lemma_position_of, lemma_position_of_is, position_of};

verus! {

/// A subscription: who listens to which key, and what is to be called.
/// `callback` and `user_data` are addresses that this crate only stores and
/// hands back.
pub struct SubscriberView {
    pub key: Seq<char>,
    pub component: Seq<char>,
    pub callback: usize,
    pub user_data: usize,
}

/// The map that a sequence of entries stands for: a later entry of a key
/// replaces an earlier one.
pub open spec fn entries_map(entries: Seq<(Seq<char>, ValueView)>) -> Map<Seq<char>, ValueView>
    decreases entries.len(),
{
    if entries.len() == 0 {
        Map::empty()
    } else {
        entries_map(entries.drop_last()).insert(entries.last().0, entries.last().1)
    }
}

/// No key occurs twice.
pub open spec fn distinct_keys(entries: Seq<(Seq<char>, ValueView)>) -> bool {
    forall|i: int, j: int|
        0 <= i < j < entries.len() ==> (#[trigger] entries[i]).0 != (#[trigger] entries[j]).0
}

/// Whether some entry has the key.
pub open spec fn has_key(entries: Seq<(Seq<char>, ValueView)>, key: Seq<char>) -> bool {
    exists|i: int| 0 <= i < entries.len() && (#[trigger] entries[i]).0 == key
}

/// Appending an entry inserts it into the map.
pub proof fn lemma_entries_map_push(
    entries: Seq<(Seq<char>, ValueView)>,
    entry: (Seq<char>, ValueView),
)
    ensures
        entries_map(entries.push(entry)) == entries_map(entries).insert(entry.0, entry.1),
{
    assert(entries.push(entry).drop_last() =~= entries);
}

/// The map's keys are the keys of the entries.
pub proof fn lemma_entries_map_dom(entries: Seq<(Seq<char>, ValueView)>)
    ensures
        entries_map(entries).dom().finite(),
        forall|key: Seq<char>|
            #[trigger] entries_map(entries).dom().contains(key) <==> has_key(entries, key),
    decreases entries.len(),
{
    if entries.len() == 0 {
    } else {
        let front = entries.drop_last();
        lemma_entries_map_dom(front);
        assert forall|key: Seq<char>| #[trigger]
            entries_map(entries).dom().contains(key) <==> has_key(entries, key) by {
            if entries_map(entries).dom().contains(key) {
                if key == entries.last().0 {
                    assert(entries[entries.len() - 1].0 == key);
                } else {
                    assert(has_key(front, key));
                    let i = choose|i: int| 0 <= i < front.len() && (#[trigger] front[i]).0 == key;
                    assert(entries[i].0 == key);
                }
            }
            if has_key(entries, key) {
                let i = choose|i: int| 0 <= i < entries.len() && (#[trigger] entries[i]).0 == key;
                if i < front.len() {
                    assert(front[i].0 == key);
                    assert(has_key(front, key));
                }
            }
        }
    }
}

/// Where no key occurs twice, the map holds each entry's value under its
/// key, and as many keys as there are entries.
pub proof fn lemma_entries_map_values(entries: Seq<(Seq<char>, ValueView)>)
    requires
        distinct_keys(entries),
    ensures
        entries_map(entries).dom().finite(),
        entries_map(entries).dom().len() == entries.len(),
        forall|i: int|
            0 <= i < entries.len() ==> entries_map(entries).dom().contains(
                (#[trigger] entries[i]).0,
            ) && entries_map(entries)[entries[i].0] == entries[i].1,
    decreases entries.len(),
{
    lemma_entries_map_dom(entries);
    if entries.len() == 0 {
    } else {
        let front = entries.drop_last();
        let last = entries.last();
        assert(distinct_keys(front)) by {
            assert forall|i: int, j: int| 0 <= i < j < front.len() implies (#[trigger] front[i]).0 != (
            #[trigger] front[j]).0 by {
                assert(entries[i].0 != entries[j].0);
            }
        }
        lemma_entries_map_values(front);
        lemma_entries_map_dom(front);
        assert(!has_key(front, last.0)) by {
            if has_key(front, last.0) {
                let i = choose|i: int| 0 <= i < front.len() && (#[trigger] front[i]).0 == last.0;
                assert(entries[i].0 != entries[entries.len() - 1].0);
            }
        }
        assert forall|i: int| 0 <= i < entries.len() implies entries_map(entries).dom().contains(
            (#[trigger] entries[i]).0,
        ) && entries_map(entries)[entries[i].0] == entries[i].1 by {
            if i < front.len() {
                assert(front[i] == entries[i]);
                assert(entries[i].0 != entries[entries.len() - 1].0);
            }
        }
    }
}

/// Where no key occurs twice, replacing the value of the entry at a position
/// replaces the value under its key in the map.
pub proof fn lemma_entries_map_update(
    entries: Seq<(Seq<char>, ValueView)>,
    at: int,
    value: ValueView,
)
    requires
        distinct_keys(entries),
        0 <= at < entries.len(),
    ensures
        distinct_keys(entries.update(at, (entries[at].0, value))),
        entries_map(entries.update(at, (entries[at].0, value))) == entries_map(entries).insert(
            entries[at].0,
            value,
        ),
    decreases entries.len(),
{
    let key = entries[at].0;
    let updated = entries.update(at, (key, value));
    assert(distinct_keys(updated)) by {
        assert forall|i: int, j: int| 0 <= i < j < updated.len() implies (#[trigger] updated[i]).0 != (
        #[trigger] updated[j]).0 by {
            assert(entries[i].0 != entries[j].0);
        }
    }
    let front = entries.drop_last();
    let last = entries.last();
    if at == entries.len() - 1 {
        assert(updated.drop_last() =~= front);
        assert(entries_map(updated) =~= entries_map(entries).insert(key, value));
    } else {
        assert(distinct_keys(front)) by {
            assert forall|i: int, j: int| 0 <= i < j < front.len() implies (#[trigger] front[i]).0 != (
            #[trigger] front[j]).0 by {
                assert(entries[i].0 != entries[j].0);
            }
        }
        lemma_entries_map_update(front, at, value);
        assert(front[at] == entries[at]);
        assert(updated.drop_last() =~= front.update(at, (key, value)));
        assert(updated.last() == last);
        assert(entries[at].0 != entries[entries.len() - 1].0);
        assert(entries_map(updated) =~= entries_map(entries).insert(key, value));
    }
}

/// No pair of key and component is registered twice.
pub open spec fn distinct_subscribers(subscribers: Seq<SubscriberView>) -> bool {
    forall|i: int, j: int|
        0 <= i < j < subscribers.len() ==> !((#[trigger] subscribers[i]).key == (
        #[trigger] subscribers[j]).key && subscribers[i].component == subscribers[j].component)
}

/// Whether the component is registered for the key.
pub open spec fn registered(
    subscribers: Seq<SubscriberView>,
    key: Seq<char>,
    component: Seq<char>,
) -> bool {
    exists|i: int|
        0 <= i < subscribers.len() && (#[trigger] subscribers[i]).key == key
            && subscribers[i].component == component
}

/// The subscribers of a key, in the order in which they registered.
pub open spec fn subscribers_of(
    subscribers: Seq<SubscriberView>,
    key: Seq<char>,
) -> Seq<SubscriberView>
    decreases subscribers.len(),
{
    if subscribers.len() == 0 {
        Seq::empty()
    } else if subscribers.last().key == key {
        subscribers_of(subscribers.drop_last(), key).push(subscribers.last())
    } else {
        subscribers_of(subscribers.drop_last(), key)
    }
}

/// The subscribers that are left when the component's registration for the
/// key is taken out; the others keep their order.
pub open spec fn without(
    subscribers: Seq<SubscriberView>,
    key: Seq<char>,
    component: Seq<char>,
) -> Seq<SubscriberView>
    decreases subscribers.len(),
{
    if subscribers.len() == 0 {
        Seq::empty()
    } else if subscribers.last().key == key && subscribers.last().component == component {
        without(subscribers.drop_last(), key, component)
    } else {
        without(subscribers.drop_last(), key, component).push(subscribers.last())
    }
}

/// What a registration leads to: a new pair of key and component is added
/// behind the others, a pair that is registered already changes nothing.
pub open spec fn with_subscriber(
    subscribers: Seq<SubscriberView>,
    subscriber: SubscriberView,
) -> Seq<SubscriberView> {
    if registered(subscribers, subscriber.key, subscriber.component) {
        subscribers
    } else {
        subscribers.push(subscriber)
    }
}

/// The keys of a sequence of entries.
pub open spec fn entry_keys(entries: Seq<(Seq<char>, ValueView)>) -> Seq<Seq<char>> {
    Seq::new(entries.len(), |i: int| entries[i].0)
}

/// The position of the entry of a key, or the number of entries where the
/// key has none.
pub open spec fn key_position(entries: Seq<(Seq<char>, ValueView)>, key: Seq<char>) -> int {
    position_of(entry_keys(entries), key)
}

/// `key_position` is the least position that holds the key.
pub proof fn lemma_key_position(entries: Seq<(Seq<char>, ValueView)>, key: Seq<char>)
    ensures
        0 <= key_position(entries, key) <= entries.len(),
        forall|j: int| 0 <= j < key_position(entries, key) ==> (#[trigger] entries[j]).0 != key,
        key_position(entries, key) < entries.len() ==> entries[key_position(entries, key)].0
            == key,
        key_position(entries, key) < entries.len() <==> has_key(entries, key),
{
    let keys = entry_keys(entries);
    lemma_position_of(keys, key);
    assert forall|j: int| 0 <= j < key_position(entries, key) implies (#[trigger] entries[j]).0
        != key by {
        assert(keys[j] != key);
    }
    if has_key(entries, key) {
        let i = choose|i: int| 0 <= i < entries.len() && (#[trigger] entries[i]).0 == key;
        assert(keys[i] == key);
    }
    if keys.contains(key) {
        let i = choose|i: int| 0 <= i < keys.len() && keys[i] == key;
        assert(entries[i].0 == key);
    }
}

/// A position that holds the key, with none in front of it that does, is
/// the one that `key_position` gives.
pub proof fn lemma_key_position_is(entries: Seq<(Seq<char>, ValueView)>, key: Seq<char>, at: int)
    requires
        0 <= at <= entries.len(),
        forall|j: int| 0 <= j < at ==> (#[trigger] entries[j]).0 != key,
        at < entries.len() ==> entries[at].0 == key,
    ensures
        key_position(entries, key) == at,
{
    let keys = entry_keys(entries);
    assert forall|j: int| 0 <= j < at implies #[trigger] keys[j] != key by {
        assert(entries[j].0 != key);
    }
    lemma_position_of_is(keys, key, at);
}

/// The entries after a key was set: the key's entry holds the new value in
/// its old place, or a new entry stands behind the others.
pub open spec fn entries_set(
    entries: Seq<(Seq<char>, ValueView)>,
    key: Seq<char>,
    value: ValueView,
) -> Seq<(Seq<char>, ValueView)> {
    let at = key_position(entries, key);
    if at < entries.len() {
        entries.update(at, (key, value))
    } else {
        entries.push((key, value))
    }
}

/// Setting a key keeps the keys distinct and inserts the value into the map.
pub proof fn lemma_entries_set(
    entries: Seq<(Seq<char>, ValueView)>,
    key: Seq<char>,
    value: ValueView,
)
    requires
        distinct_keys(entries),
    ensures
        distinct_keys(entries_set(entries, key, value)),
        entries_map(entries_set(entries, key, value)) == entries_map(entries).insert(key, value),
{
    lemma_key_position(entries, key);
    let at = key_position(entries, key);
    if at < entries.len() {
        lemma_entries_map_update(entries, at, value);
    } else {
        lemma_entries_map_push(entries, (key, value));
        let pushed = entries.push((key, value));
        assert forall|i: int, j: int| 0 <= i < j < pushed.len() implies (#[trigger] pushed[i]).0 != (
        #[trigger] pushed[j]).0 by {
            if j < entries.len() {
                assert(entries[i].0 != entries[j].0);
            } else {
                assert(entries[i].0 != key);
            }
        }
    }
}

/// Taking out a registration that is not there changes nothing.
pub proof fn lemma_without_absent(
    subscribers: Seq<SubscriberView>,
    key: Seq<char>,
    component: Seq<char>,
)
    requires
        !registered(subscribers, key, component),
    ensures
        without(subscribers, key, component) == subscribers,
    decreases subscribers.len(),
{
    if subscribers.len() == 0 {
        assert(subscribers =~= Seq::empty());
    } else {
        let front = subscribers.drop_last();
        let last = subscribers.last();
        assert(!(last.key == key && last.component == component)) by {
            assert(subscribers[subscribers.len() - 1] == last);
        }
        assert(!registered(front, key, component)) by {
            if registered(front, key, component) {
                let i = choose|i: int|
                    0 <= i < front.len() && (#[trigger] front[i]).key == key && front[i].component
                        == component;
                assert(subscribers[i] == front[i]);
            }
        }
        lemma_without_absent(front, key, component);
        assert(front.push(last) =~= subscribers);
    }
}

/// Where no pair is registered twice, taking out a registration removes the
/// one subscriber that holds it.
pub proof fn lemma_without_at(
    subscribers: Seq<SubscriberView>,
    key: Seq<char>,
    component: Seq<char>,
    at: int,
)
    requires
        distinct_subscribers(subscribers),
        0 <= at < subscribers.len(),
        subscribers[at].key == key,
        subscribers[at].component == component,
    ensures
        without(subscribers, key, component) == subscribers.remove(at),
        distinct_subscribers(subscribers.remove(at)),
    decreases subscribers.len(),
{
    let front = subscribers.drop_last();
    let last = subscribers.last();
    let removed = subscribers.remove(at);
    assert(distinct_subscribers(removed)) by {
        assert forall|i: int, j: int| 0 <= i < j < removed.len() implies !((#[trigger] removed[i]).key
            == (#[trigger] removed[j]).key && removed[i].component == removed[j].component) by {
            let si = if i < at { i } else { i + 1 };
            let sj = if j < at { j } else { j + 1 };
            assert(removed[i] == subscribers[si]);
            assert(removed[j] == subscribers[sj]);
        }
    }
    assert(distinct_subscribers(front)) by {
        assert forall|i: int, j: int| 0 <= i < j < front.len() implies !((#[trigger] front[i]).key == (
        #[trigger] front[j]).key && front[i].component == front[j].component) by {
            assert(front[i] == subscribers[i]);
            assert(front[j] == subscribers[j]);
        }
    }
    if at == subscribers.len() - 1 {
        assert(!registered(front, key, component)) by {
            if registered(front, key, component) {
                let i = choose|i: int|
                    0 <= i < front.len() && (#[trigger] front[i]).key == key && front[i].component
                        == component;
                assert(subscribers[i] == front[i]);
                assert(!(subscribers[i].key == subscribers[at].key && subscribers[i].component
                    == subscribers[at].component));
            }
        }
        lemma_without_absent(front, key, component);
        assert(removed =~= front);
    } else {
        assert(!(last.key == key && last.component == component)) by {
            assert(subscribers[subscribers.len() - 1] == last);
            assert(!(subscribers[at].key == subscribers[subscribers.len() - 1].key
                && subscribers[at].component == subscribers[subscribers.len() - 1].component));
        }
        assert(front[at] == subscribers[at]);
        lemma_without_at(front, key, component, at);
        assert(front.remove(at).push(last) =~= removed);
    }
}

/// The entries after each of `added` was set in turn, starting from
/// `entries`.
pub open spec fn entries_after(
    entries: Seq<(Seq<char>, ValueView)>,
    added: Seq<(Seq<char>, ValueView)>,
) -> Seq<(Seq<char>, ValueView)>
    decreases added.len(),
{
    if added.len() == 0 {
        entries
    } else {
        entries_set(entries_after(entries, added.drop_last()), added.last().0, added.last().1)
    }
}

} // verus!
