//! The store behind the blackboard: its entries and its subscribers.
//!
//! The store calls nobody. An operation that changes a key returns the
//! calls that are due to the key's subscribers, in the order in which they
//! are to be made.

use vstd::prelude::*;
use crate::entries::{BlackboardEntry, BlackboardValue, ValueKind, ValueView};
use crate::error::RuntimeError;
use crate::schema::{property_views, schema_of, JsonType, SchemaProperty};
use crate::store::{
    distinct_keys, distinct_subscribers, entries_map, entries_set, has_key, key_position,
    lemma_entries_map_dom, lemma_entries_map_values, lemma_entries_set, lemma_key_position_is,
    lemma_without_absent, lemma_without_at, registered, subscribers_of, with_subscriber, without,
    SubscriberView,
};
use crate::text::str_eq;

verus! {

/// A registration of a component for a key.
#[derive(Debug)]
pub struct Subscriber {
    pub key: String,
    pub component: String,
    pub callback: usize,
    pub user_data: usize,
}

impl View for Subscriber {
    type V = SubscriberView;

    open spec fn view(&self) -> SubscriberView {
        SubscriberView {
            key: self.key@,
            component: self.component@,
            callback: self.callback,
            user_data: self.user_data,
        }
    }
}

/// A call that is due: `callback` is to be called with `key` and
/// `user_data`, on behalf of `component`.
#[derive(Debug)]
pub struct Notification {
    pub key: String,
    pub component: String,
    pub callback: usize,
    pub user_data: usize,
}

impl View for Notification {
    type V = SubscriberView;

    open spec fn view(&self) -> SubscriberView {
        SubscriberView {
            key: self.key@,
            component: self.component@,
            callback: self.callback,
            user_data: self.user_data,
        }
    }
}

/// The views of a vector of notifications.
pub open spec fn notification_views(notifications: Seq<Notification>) -> Seq<SubscriberView> {
    Seq::new(notifications.len(), |i: int| notifications[i]@)
}

/// The entries and the subscribers of a running blackboard.
#[derive(Debug)]
pub struct BlackBoardData {
    data: Vec<BlackboardEntry>,
    subscribers: Vec<Subscriber>,
}

impl BlackBoardData {
    /// The entries in the order in which their keys were first set.
    pub closed spec fn spec_entries(&self) -> Seq<(Seq<char>, ValueView)> {
        Seq::new(self.data@.len(), |i: int| self.data@[i]@)
    }

    /// The subscribers in the order in which they registered.
    pub closed spec fn spec_subscribers(&self) -> Seq<SubscriberView> {
        Seq::new(self.subscribers@.len(), |i: int| self.subscribers@[i]@)
    }

    /// The value under each key.
    pub open spec fn spec_map(&self) -> Map<Seq<char>, ValueView> {
        entries_map(self.spec_entries())
    }

    /// No key is stored twice and no pair of key and component is
    /// registered twice.
    pub open spec fn wf(&self) -> bool {
        &&& distinct_keys(self.spec_entries())
        &&& distinct_subscribers(self.spec_subscribers())
    }

    /// A store without entries and without subscribers.
    pub fn new() -> (store: BlackBoardData)
        ensures
            store.wf(),
            store.spec_entries() == Seq::<(Seq<char>, ValueView)>::empty(),
            store.spec_subscribers() == Seq::<SubscriberView>::empty(),
    {
        let store = BlackBoardData { data: Vec::new(), subscribers: Vec::new() };
        assert(store.spec_entries() =~= Seq::<(Seq<char>, ValueView)>::empty());
        assert(store.spec_subscribers() =~= Seq::<SubscriberView>::empty());
        store
    }

    /// The position of the entry of `key`, or the number of entries where
    /// there is none.
    fn position(&self, key: &str) -> (at: usize)
        ensures
            at <= self.spec_entries().len(),
            at < self.spec_entries().len() ==> self.spec_entries()[at as int].0 == key@,
            forall|j: int| 0 <= j < at ==> (#[trigger] self.spec_entries()[j]).0 != key@,
            at < self.spec_entries().len() <==> has_key(self.spec_entries(), key@),
            at == key_position(self.spec_entries(), key@),
    {
        let mut at: usize = 0;
        while at < self.data.len()
            invariant
                at <= self.data@.len(),
                forall|j: int| 0 <= j < at ==> (#[trigger] self.spec_entries()[j]).0 != key@,
            decreases self.data@.len() - at,
        {
            if str_eq(self.data[at].key.as_str(), key) {
                assert(self.spec_entries()[at as int].0 == key@);
                proof {
                    lemma_key_position_is(self.spec_entries(), key@, at as int);
                }
                return at;
            }
            assert(self.spec_entries()[at as int].0 != key@);
            at += 1;
        }
        proof {
            lemma_key_position_is(self.spec_entries(), key@, at as int);
        }
        at
    }

    /// The position of the registration of `component` for `key`, or the
    /// number of subscribers where there is none.
    fn registration(&self, key: &str, component: &str) -> (at: usize)
        ensures
            at <= self.spec_subscribers().len(),
            at < self.spec_subscribers().len() ==> self.spec_subscribers()[at as int].key == key@
                && self.spec_subscribers()[at as int].component == component@,
            at < self.spec_subscribers().len() <==> registered(
                self.spec_subscribers(),
                key@,
                component@,
            ),
    {
        let mut at: usize = 0;
        while at < self.subscribers.len()
            invariant
                at <= self.subscribers@.len(),
                forall|j: int|
                    0 <= j < at ==> !((#[trigger] self.spec_subscribers()[j]).key == key@
                        && self.spec_subscribers()[j].component == component@),
            decreases self.subscribers@.len() - at,
        {
            if str_eq(self.subscribers[at].key.as_str(), key) && str_eq(
                self.subscribers[at].component.as_str(),
                component,
            ) {
                assert(self.spec_subscribers()[at as int].key == key@);
                return at;
            }
            assert(!(self.spec_subscribers()[at as int].key == key@
                && self.spec_subscribers()[at as int].component == component@));
            at += 1;
        }
        at
    }

    /// Registers `component` for `key`. A registration of the same pair that
    /// exists already stays as it is. A callback of `0` is refused.
    pub fn subscribe(
        &mut self,
        key: &str,
        component: &str,
        callback: usize,
        user_data: usize,
    ) -> (done: Result<(), RuntimeError>)
        requires
            old(self).wf(),
        ensures
            final(self).wf(),
            final(self).spec_entries() == old(self).spec_entries(),
            callback == 0 ==> done == Err::<(), RuntimeError>(RuntimeError::NullInput)
                && final(self).spec_subscribers() == old(self).spec_subscribers(),
            callback != 0 ==> done.is_ok() && final(self).spec_subscribers() == with_subscriber(
                old(self).spec_subscribers(),
                (SubscriberView { key: key@, component: component@, callback, user_data }),
            ),
    {
        if callback == 0 {
            return Err(RuntimeError::NullInput);
        }
        let at = self.registration(key, component);
        if at < self.subscribers.len() {
            return Ok(());
        }
        let subscriber = Subscriber {
            key: key.to_owned(),
            component: component.to_owned(),
            callback,
            user_data,
        };
        self.subscribers.push(subscriber);
        proof {
            let before = old(self).spec_subscribers();
            let after = self.spec_subscribers();
            let added = SubscriberView { key: key@, component: component@, callback, user_data };
            assert(after =~= before.push(added));
            assert forall|i: int, j: int| 0 <= i < j < after.len() implies !((
            #[trigger] after[i]).key == (#[trigger] after[j]).key && after[i].component
                == after[j].component) by {
                if j < before.len() {
                    assert(before[i] == after[i] && before[j] == after[j]);
                } else {
                    assert(before[i] == after[i]);
                }
            }
        }
        Ok(())
    }

    /// Takes out the registration of `component` for `key`, if there is one.
    pub fn unsubscribe(&mut self, key: &str, component: &str)
        requires
            old(self).wf(),
        ensures
            final(self).wf(),
            final(self).spec_entries() == old(self).spec_entries(),
            final(self).spec_subscribers() == without(
                old(self).spec_subscribers(),
                key@,
                component@,
            ),
    {
        let at = self.registration(key, component);
        if at < self.subscribers.len() {
            proof {
                lemma_without_at(self.spec_subscribers(), key@, component@, at as int);
            }
            self.subscribers.remove(at);
            assert(self.spec_subscribers() =~= old(self).spec_subscribers().remove(at as int));
        } else {
            proof {
                lemma_without_absent(self.spec_subscribers(), key@, component@);
            }
        }
    }

    /// The calls that a change of `key` makes due: one for each subscriber
    /// of the key, in the order in which they registered.
    pub fn notify(&self, key: &str) -> (due: Vec<Notification>)
        ensures
            notification_views(due@) == subscribers_of(self.spec_subscribers(), key@),
    {
        let mut due: Vec<Notification> = Vec::new();
        let mut i: usize = 0;
        assert(self.spec_subscribers().take(0) =~= Seq::<SubscriberView>::empty());
        assert(notification_views(due@) =~= Seq::<SubscriberView>::empty());
        while i < self.subscribers.len()
            invariant
                i <= self.subscribers@.len(),
                notification_views(due@) == subscribers_of(
                    self.spec_subscribers().take(i as int),
                    key@,
                ),
            decreases self.subscribers@.len() - i,
        {
            let subscriber = &self.subscribers[i];
            let ghost before = notification_views(due@);
            assert(self.spec_subscribers().take(i + 1).drop_last() =~= self.spec_subscribers().take(
                i as int,
            ));
            assert(self.spec_subscribers().take(i + 1).last() == subscriber@);
            if str_eq(subscriber.key.as_str(), key) {
                due.push(
                    Notification {
                        key: subscriber.key.clone(),
                        component: subscriber.component.clone(),
                        callback: subscriber.callback,
                        user_data: subscriber.user_data,
                    },
                );
                assert(notification_views(due@) =~= before.push(subscriber@));
            }
            i += 1;
        }
        assert(self.spec_subscribers().take(i as int) =~= self.spec_subscribers());
        due
    }

    /// Stores `value` under `key`, whatever was stored there before, and
    /// returns the calls that are due to the key's subscribers.
    pub fn set(&mut self, key: &str, value: BlackboardValue) -> (due: Vec<Notification>)
        requires
            old(self).wf(),
        ensures
            final(self).wf(),
            final(self).spec_entries() == entries_set(old(self).spec_entries(), key@, value@),
            final(self).spec_map() == old(self).spec_map().insert(key@, value@),
            final(self).spec_subscribers() == old(self).spec_subscribers(),
            notification_views(due@) == subscribers_of(old(self).spec_subscribers(), key@),
    {
        proof {
            lemma_entries_set(self.spec_entries(), key@, value@);
        }
        let at = self.position(key);
        let entry = BlackboardEntry { key: key.to_owned(), value };
        if at < self.data.len() {
            self.data[at] = entry;
            assert(self.spec_entries() =~= old(self).spec_entries().update(
                at as int,
                (key@, value@),
            ));
        } else {
            self.data.push(entry);
            assert(self.spec_entries() =~= old(self).spec_entries().push((key@, value@)));
        }
        self.notify(key)
    }

    /// Whether an entry is stored under `key`.
    pub fn is_key_valid(&self, key: &str) -> (valid: bool)
        ensures
            valid == self.spec_map().dom().contains(key@),
    {
        proof {
            lemma_entries_map_dom(self.spec_entries());
        }
        self.position(key) < self.data.len()
    }

    /// The number of entries.
    pub fn size(&self) -> (count: usize)
        requires
            self.wf(),
        ensures
            count == self.spec_map().dom().len(),
            count == self.spec_entries().len(),
    {
        proof {
            lemma_entries_map_values(self.spec_entries());
        }
        self.data.len()
    }

    /// The value under `key`, if it is of the kind asked for.
    pub fn get(&self, key: &str, kind: ValueKind) -> (found: Result<&BlackboardValue, RuntimeError>)
        requires
            self.wf(),
        ensures
            match found {
                Ok(value) => self.spec_map().dom().contains(key@) && value@ == self.spec_map()[key@]
                    && value@.kind() == kind,
                Err(error) => if self.spec_map().dom().contains(key@) {
                    self.spec_map()[key@].kind() != kind && error == RuntimeError::TypeMismatch
                } else {
                    error == RuntimeError::KeyNotFound
                },
            },
    {
        proof {
            lemma_entries_map_dom(self.spec_entries());
            lemma_entries_map_values(self.spec_entries());
        }
        let at = self.position(key);
        if at >= self.data.len() {
            return Err(RuntimeError::KeyNotFound);
        }
        let value = &self.data[at].value;
        assert(self.spec_entries()[at as int].1 == value@);
        if value.kind() == kind {
            Ok(value)
        } else {
            Err(RuntimeError::TypeMismatch)
        }
    }

    /// The schema's properties: one for each entry, in the order in which
    /// the keys were first set, with the JSON type of the entry's value and
    /// the value itself.
    pub fn schema(&self) -> (properties: Vec<SchemaProperty>)
        ensures
            property_views(properties@) == schema_of(self.spec_entries()),
    {
        let mut properties: Vec<SchemaProperty> = Vec::new();
        let mut i: usize = 0;
        while i < self.data.len()
            invariant
                i <= self.data@.len(),
                properties@.len() == i,
                forall|j: int|
                    0 <= j < i ==> (#[trigger] properties@[j])@ == schema_of(
                        self.spec_entries(),
                    )[j],
            decreases self.data@.len() - i,
        {
            let entry = &self.data[i];
            properties.push(
                SchemaProperty {
                    key: entry.key.clone(),
                    json_type: JsonType::of(entry.value.kind()),
                    value: entry.value.clone(),
                },
            );
            i += 1;
        }
        assert(property_views(properties@) =~= schema_of(self.spec_entries()));
        properties
    }

    /// Drops every entry. The subscribers stay.
    pub fn reset(&mut self)
        requires
            old(self).wf(),
        ensures
            final(self).wf(),
            final(self).spec_entries() == Seq::<(Seq<char>, ValueView)>::empty(),
            final(self).spec_map() == Map::<Seq<char>, ValueView>::empty(),
            final(self).spec_subscribers() == old(self).spec_subscribers(),
    {
        self.data.clear();
        assert(self.spec_entries() =~= Seq::<(Seq<char>, ValueView)>::empty());
    }
}

} // verus!
