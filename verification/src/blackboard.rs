//! The blackboard: a typed key/value store whose changes are announced to
//! the subscribers of the changed key.
//!
//! A blackboard is stopped until it is started and running until it is
//! stopped; a stopped blackboard refuses every operation but `start` and
//! `stop`. Each operation comes twice: the one whose name ends in `_intern`
//! says why it failed, the other reports as a plugin interface does, `0`
//! for success and `-1` for every failure.
//!
//! The blackboard calls nobody. A set returns the calls that are due to the
//! subscribers of the key, in the order in which they are to be made; the
//! caller makes them before it lets another operation in. A callback must
//! therefore not call back into the blackboard.

use vstd::prelude::*;
use crate::bindings;
use crate::data::{notification_views, BlackBoardData, Notification};
use crate::entries::{BlackboardEntry, BlackboardValue, EntryView, ValueKind, ValueView};
use crate::error::{spec_status, RuntimeError};
use crate::schema::{property_views, schema_of, SchemaProperty};
use crate::store::{
    entries_after, entries_set, subscribers_of, with_subscriber, without, SubscriberView,
};
use crate::text::{
    bytes_with_nul, copy_with_nul, copy_with_nul_code, size_code, spec_size_code,
};

verus! {

/// The attributes that a blackboard is started with, as they were read.
#[derive(Debug)]
pub enum Attributes {
    /// No attributes were given.
    Absent,
    /// Attributes were given and could not be read as a sequence of entries.
    Malformed,
    /// The entries that were given, in their order.
    Entries(Vec<BlackboardEntry>),
}

/// The views of a vector of entries.
pub open spec fn entry_views(entries: Seq<BlackboardEntry>) -> Seq<EntryView> {
    Seq::new(entries.len(), |i: int| entries[i]@)
}

/// A blackboard with its life cycle.
#[derive(Debug)]
pub struct Blackboard {
    state: Option<BlackBoardData>,
}

impl Blackboard {
    /// Whether the blackboard has been started and not stopped since.
    pub closed spec fn running(&self) -> bool {
        self.state.is_some()
    }

    /// The store of a running blackboard.
    pub closed spec fn store(&self) -> BlackBoardData
        recommends
            self.running(),
    {
        self.state.unwrap()
    }

    /// The store of a running blackboard is well-formed.
    pub open spec fn wf(&self) -> bool {
        self.running() ==> self.store().wf()
    }

    /// The entries of a running blackboard, in the order in which their keys
    /// were first set.
    pub open spec fn entries(&self) -> Seq<EntryView>
        recommends
            self.running(),
    {
        self.store().spec_entries()
    }

    /// The value under each key of a running blackboard.
    pub open spec fn map(&self) -> Map<Seq<char>, ValueView>
        recommends
            self.running(),
    {
        self.store().spec_map()
    }

    /// The subscribers of a running blackboard, in the order in which they
    /// registered.
    pub open spec fn subscribers(&self) -> Seq<SubscriberView>
        recommends
            self.running(),
    {
        self.store().spec_subscribers()
    }

    /// A blackboard that has not been started.
    pub fn new() -> (blackboard: Blackboard)
        ensures
            !blackboard.running(),
            blackboard.wf(),
    {
        Blackboard { state: None }
    }

    /// Whether the blackboard has been started and not stopped since.
    pub fn is_running(&self) -> (running: bool)
        ensures
            running == self.running(),
    {
        self.state.is_some()
    }
}

/// A key, a component or a text as the model sees it: absent, or the
/// characters of the string.
pub open spec fn key_view(key: Option<&str>) -> Option<Seq<char>> {
    match key {
        Some(k) => Some(k@),
        None => None,
    }
}

/// What a start does to a stopped blackboard: without attributes it runs
/// and is empty; with entries it runs and holds what setting each entry in
/// turn gives; with attributes that could not be read it stays stopped.
pub open spec fn started(after: Blackboard, attributes: Attributes) -> bool {
    match attributes {
        Attributes::Absent => {
            &&& after.running()
            &&& after.entries() == Seq::<EntryView>::empty()
            &&& after.subscribers() == Seq::<SubscriberView>::empty()
        },
        Attributes::Malformed => !after.running(),
        Attributes::Entries(given) => {
            &&& after.running()
            &&& after.entries() == entries_after(Seq::empty(), entry_views(given@))
            &&& after.subscribers() == Seq::<SubscriberView>::empty()
        },
    }
}

/// Why a start fails, if it does: the blackboard is running already, or the
/// attributes could not be read.
pub open spec fn start_refusal(before: Blackboard, attributes: Attributes) -> Option<RuntimeError> {
    if before.running() {
        Some(RuntimeError::AlreadyRunning)
    } else if attributes is Malformed {
        Some(RuntimeError::BadAttributes)
    } else {
        None
    }
}

/// Starts the blackboard with the given attributes as its first entries. A
/// running blackboard refuses with `AlreadyRunning` and stays as it is;
/// attributes that could not be read are refused with `BadAttributes`, and
/// the blackboard stays stopped.
pub fn start_server(
    blackboard: &mut Blackboard,
    _caps: &bindings::Capabilities,
    attributes: Attributes,
) -> (done: Result<(), RuntimeError>)
    requires
        old(blackboard).wf(),
    ensures
        final(blackboard).wf(),
        match done {
            Ok(_) => start_refusal(*old(blackboard), attributes).is_none(),
            Err(error) => start_refusal(*old(blackboard), attributes) == Some(error),
        },
        old(blackboard).running() ==> *final(blackboard) == *old(blackboard),
        !old(blackboard).running() ==> started(*final(blackboard), attributes),
{
    if blackboard.state.is_some() {
        return Err(RuntimeError::AlreadyRunning);
    }
    let mut store = BlackBoardData::new();
    match attributes {
        Attributes::Absent => {},
        Attributes::Malformed => {
            return Err(RuntimeError::BadAttributes);
        },
        Attributes::Entries(given) => {
            let mut i: usize = 0;
            assert(entry_views(given@).take(0) =~= Seq::<EntryView>::empty());
            while i < given.len()
                invariant
                    i <= given@.len(),
                    store.wf(),
                    store.spec_subscribers() == Seq::<SubscriberView>::empty(),
                    store.spec_entries() == entries_after(
                        Seq::empty(),
                        entry_views(given@).take(i as int),
                    ),
                decreases given@.len() - i,
            {
                let entry = &given[i];
                assert(entry_views(given@).take(i + 1).drop_last() =~= entry_views(given@).take(
                    i as int,
                ));
                assert(entry_views(given@).take(i + 1).last() == entry@);
                let _ = store.set(entry.key.as_str(), entry.value.clone());
                i += 1;
            }
            assert(entry_views(given@).take(i as int) =~= entry_views(given@));
        },
    }
    blackboard.state = Some(store);
    Ok(())
}

/// Starts the blackboard as `start_server` does and reports `0` for success
/// and `-1` for a failure.
pub fn start(
    blackboard: &mut Blackboard,
    caps: &bindings::Capabilities,
    attributes: Attributes,
) -> (code: i32)
    requires
        old(blackboard).wf(),
    ensures
        final(blackboard).wf(),
        code == spec_status(start_refusal(*old(blackboard), attributes).is_some()),
        old(blackboard).running() ==> *final(blackboard) == *old(blackboard),
        !old(blackboard).running() ==> started(*final(blackboard), attributes),
{
    match start_server(blackboard, caps, attributes) {
        Ok(_) => 0,
        Err(_) => -1,
    }
}

/// Stops the blackboard: its entries and its subscribers are dropped, and
/// nobody is notified. Stopping a stopped blackboard succeeds too.
pub fn stop(blackboard: &mut Blackboard) -> (code: i32)
    ensures
        code == 0,
        !final(blackboard).running(),
        final(blackboard).wf(),
{
    blackboard.state = None;
    0
}

/// The description of the blackboard as a plugin: its name, its version,
/// its kind and the capabilities that it provides, as JSON.
pub const SUMMARY_MESSAGE: &'static str =
    "{
    \"name\": \"blackboard\",
    \"version\": \"0.1.0\",
    \"library_type\": \"Service\",
    \"provides\": [
        {
            \"capability\": \"blackboard_start\",
            \"entry\": \"start\"
        },
        {
            \"capability\": \"blackboard_stop\",
            \"entry\": \"stop\"
        },
        {
            \"capability\": \"blackboard_reset\",
            \"entry\": \"reset\"
        },
        {
            \"capability\": \"blackboard_size\",
            \"entry\": \"size\"
        },
        {
            \"capability\": \"blackboard_get_string\",
            \"entry\": \"get_string\"
        },
        {
            \"capability\": \"blackboard_set_string\",
            \"entry\": \"set_string\"
        },
        {
            \"capability\": \"blackboard_get_int\",
            \"entry\": \"get_int\"
        },
        {
            \"capability\": \"blackboard_set_int\",
            \"entry\": \"set_int\"
        },
        {
            \"capability\": \"blackboard_get_bool\",
            \"entry\": \"get_bool\"
        },
        {
            \"capability\": \"blackboard_set_bool\",
            \"entry\": \"set_bool\"
        },
        {
            \"capability\": \"blackboard_get_float\",
            \"entry\": \"get_float\"
        },
        {
            \"capability\": \"blackboard_set_float\",
            \"entry\": \"set_float\"
        },
        {
            \"capability\": \"blackboard_get_double\",
            \"entry\": \"get_double\"
        },
        {
            \"capability\": \"blackboard_set_double\",
            \"entry\": \"set_double\"
        },
        {
            \"capability\": \"blackboard_as_json_schema\",
            \"entry\": \"as_json_schema\"
        },
        {
            \"capability\": \"blackboard_subscribe\",
            \"entry\": \"subscribe\"
        },
        {
            \"capability\": \"blackboard_unsubscribe\",
            \"entry\": \"unsubscribe\"
        }
    ]
}";

/// The blackboard's description of itself.
pub fn summary() -> (text: &'static str)
    ensures
        text@ == SUMMARY_MESSAGE@,
{
    SUMMARY_MESSAGE
}

/// What a reset does to a running blackboard: no entry is left, and the
/// subscribers are as before.
pub open spec fn emptied(before: Blackboard, after: Blackboard) -> bool {
    &&& after.running()
    &&& after.entries() == Seq::<EntryView>::empty()
    &&& after.map() == Map::<Seq<char>, ValueView>::empty()
    &&& after.map().dom().len() == 0
    &&& after.subscribers() == before.subscribers()
}

/// Empties a running blackboard; its subscribers stay.
pub fn reset_intern(blackboard: &mut Blackboard) -> (done: Result<(), RuntimeError>)
    requires
        old(blackboard).wf(),
    ensures
        final(blackboard).wf(),
        old(blackboard).running() ==> done.is_ok() && emptied(
            *old(blackboard),
            *final(blackboard),
        ),
        !old(blackboard).running() ==> done == Err::<(), RuntimeError>(RuntimeError::NotRunning)
            && *final(blackboard) == *old(blackboard),
{
    match &mut blackboard.state {
        Some(store) => {
            store.reset();
            Ok(())
        },
        None => Err(RuntimeError::NotRunning),
    }
}

/// Empties a running blackboard and reports `0`; reports `-1` for a stopped
/// one.
pub fn reset(blackboard: &mut Blackboard) -> (code: i32)
    requires
        old(blackboard).wf(),
    ensures
        final(blackboard).wf(),
        code == spec_status(!old(blackboard).running()),
        old(blackboard).running() ==> emptied(*old(blackboard), *final(blackboard)),
        !old(blackboard).running() ==> *final(blackboard) == *old(blackboard),
{
    match reset_intern(blackboard) {
        Ok(_) => 0,
        Err(_) => -1,
    }
}

/// The number of entries of a running blackboard.
pub fn size_intern(blackboard: &Blackboard) -> (count: Result<usize, RuntimeError>)
    requires
        blackboard.wf(),
    ensures
        match count {
            Ok(n) => blackboard.running() && n == blackboard.map().dom().len() && n
                == blackboard.entries().len(),
            Err(error) => !blackboard.running() && error == RuntimeError::NotRunning,
        },
{
    match &blackboard.state {
        Some(store) => Ok(store.size()),
        None => Err(RuntimeError::NotRunning),
    }
}

/// The number of entries as a plugin reads it: the count, or `-1` for a
/// stopped blackboard and for a count that no `i32` holds.
pub fn size(blackboard: &Blackboard) -> (code: i32)
    requires
        blackboard.wf(),
    ensures
        code == if blackboard.running() {
            spec_size_code(blackboard.map().dom().len())
        } else {
            -1i32
        },
{
    match size_intern(blackboard) {
        Ok(n) => size_code(n),
        Err(_) => -1,
    }
}

/// Why a set is refused, if it is: the key or the value is missing, or the
/// blackboard is stopped.
pub open spec fn write_refusal(
    blackboard: Blackboard,
    key: Option<Seq<char>>,
    value: Option<ValueView>,
) -> Option<RuntimeError> {
    if key.is_none() || value.is_none() {
        Some(RuntimeError::NullInput)
    } else if !blackboard.running() {
        Some(RuntimeError::NotRunning)
    } else {
        None
    }
}

/// What a successful set does: the value stands under the key, whatever
/// stood there before; the other entries and the subscribers are as before;
/// and one call is due to each subscriber of the key, in the order in which
/// they registered.
pub open spec fn set_applied(
    before: Blackboard,
    after: Blackboard,
    key: Seq<char>,
    value: ValueView,
    due: Seq<SubscriberView>,
) -> bool {
    &&& after.running()
    &&& after.wf()
    &&& after.entries() == entries_set(before.entries(), key, value)
    &&& after.map() == before.map().insert(key, value)
    &&& after.subscribers() == before.subscribers()
    &&& due == subscribers_of(before.subscribers(), key)
}

/// What a set does and returns: it is refused and changes nothing, or it is
/// applied and returns the calls that are due.
pub open spec fn set_outcome(
    before: Blackboard,
    after: Blackboard,
    key: Option<Seq<char>>,
    value: Option<ValueView>,
    done: Result<Vec<Notification>, RuntimeError>,
) -> bool {
    match done {
        Ok(due) => write_refusal(before, key, value).is_none() && set_applied(
            before,
            after,
            key.unwrap(),
            value.unwrap(),
            notification_views(due@),
        ),
        Err(error) => write_refusal(before, key, value) == Some(error) && after == before,
    }
}

/// What a set reports to a plugin: `0` with the calls that are due, or `-1`
/// with none and with nothing changed.
pub open spec fn set_reported(
    before: Blackboard,
    after: Blackboard,
    key: Option<Seq<char>>,
    value: Option<ValueView>,
    reported: (i32, Vec<Notification>),
) -> bool {
    &&& reported.0 == spec_status(write_refusal(before, key, value).is_some())
    &&& reported.0 == 0 ==> set_applied(
        before,
        after,
        key.unwrap(),
        value.unwrap(),
        notification_views(reported.1@),
    )
    &&& reported.0 != 0 ==> after == before && reported.1@.len() == 0
}

/// Sets a key of a running blackboard.
fn write(
    blackboard: &mut Blackboard,
    ckey: Option<&str>,
    value: BlackboardValue,
) -> (done: Result<Vec<Notification>, RuntimeError>)
    requires
        old(blackboard).wf(),
    ensures
        final(blackboard).wf(),
        set_outcome(*old(blackboard), *final(blackboard), key_view(ckey), Some(value@), done),
{
    let key = match ckey {
        Some(key) => key,
        None => {
            return Err(RuntimeError::NullInput);
        },
    };
    match &mut blackboard.state {
        Some(store) => Ok(store.set(key, value)),
        None => Err(RuntimeError::NotRunning),
    }
}

/// What a set reports to a plugin.
fn report_set(done: Result<Vec<Notification>, RuntimeError>) -> (reported: (i32, Vec<Notification>))
    ensures
        reported.0 == spec_status(done.is_err()),
        match done {
            Ok(due) => reported.1 == due,
            Err(_) => reported.1@.len() == 0,
        },
{
    match done {
        Ok(due) => (0, due),
        Err(_) => (-1, Vec::new()),
    }
}

/// The string that a text is as a value, if there is a text.
pub open spec fn string_value(text: Option<&str>) -> Option<ValueView> {
    match text {
        Some(t) => Some(ValueView::String(t@)),
        None => None,
    }
}

/// Sets `ckey` to the string `cvalue` and returns the calls that are due.
/// A missing key or value is refused with `NullInput`, a stopped blackboard
/// with `NotRunning`.
pub fn set_string_intern(
    blackboard: &mut Blackboard,
    ckey: Option<&str>,
    cvalue: Option<&str>,
) -> (done: Result<Vec<Notification>, RuntimeError>)
    requires
        old(blackboard).wf(),
    ensures
        final(blackboard).wf(),
        set_outcome(
            *old(blackboard),
            *final(blackboard),
            key_view(ckey),
            string_value(cvalue),
            done,
        ),
{
    if ckey.is_none() {
        return Err(RuntimeError::NullInput);
    }
    match cvalue {
        Some(value) => write(blackboard, ckey, BlackboardValue::String(value.to_owned())),
        None => Err(RuntimeError::NullInput),
    }
}

/// Sets `ckey` to the string `cvalue`. The code is `0` and the calls that
/// are due come with it, or it is `-1` and nothing has changed.
pub fn set_string(
    blackboard: &mut Blackboard,
    ckey: Option<&str>,
    cvalue: Option<&str>,
) -> (reported: (i32, Vec<Notification>))
    requires
        old(blackboard).wf(),
    ensures
        final(blackboard).wf(),
        set_reported(
            *old(blackboard),
            *final(blackboard),
            key_view(ckey),
            string_value(cvalue),
            reported,
        ),
{
    report_set(set_string_intern(blackboard, ckey, cvalue))
}

/// Sets `ckey` to a 32-bit integer and returns the calls that are due. A
/// missing key is refused with `NullInput`, a stopped blackboard with
/// `NotRunning`.
pub fn set_int_intern(
    blackboard: &mut Blackboard,
    ckey: Option<&str>,
    value: i32,
) -> (done: Result<Vec<Notification>, RuntimeError>)
    requires
        old(blackboard).wf(),
    ensures
        final(blackboard).wf(),
        set_outcome(
            *old(blackboard),
            *final(blackboard),
            key_view(ckey),
            Some(ValueView::Int(value)),
            done,
        ),
{
    write(blackboard, ckey, BlackboardValue::Int(value))
}

/// Sets `ckey` to a 32-bit integer. The code is `0` and the calls that are
/// due come with it, or it is `-1` and nothing has changed.
pub fn set_int(blackboard: &mut Blackboard, ckey: Option<&str>, value: i32) -> (reported: (
    i32,
    Vec<Notification>,
))
    requires
        old(blackboard).wf(),
    ensures
        final(blackboard).wf(),
        set_reported(
            *old(blackboard),
            *final(blackboard),
            key_view(ckey),
            Some(ValueView::Int(value)),
            reported,
        ),
{
    report_set(set_int_intern(blackboard, ckey, value))
}

/// Sets `ckey` to a single-precision number, given by its bits, and returns
/// the calls that are due. A missing key is refused with `NullInput`, a
/// stopped blackboard with `NotRunning`.
pub fn set_float_intern(
    blackboard: &mut Blackboard,
    ckey: Option<&str>,
    value: u32,
) -> (done: Result<Vec<Notification>, RuntimeError>)
    requires
        old(blackboard).wf(),
    ensures
        final(blackboard).wf(),
        set_outcome(
            *old(blackboard),
            *final(blackboard),
            key_view(ckey),
            Some(ValueView::Float(value)),
            done,
        ),
{
    write(blackboard, ckey, BlackboardValue::Float(value))
}

/// Sets `key` to a single-precision number, given by its bits. The code is
/// `0` and the calls that are due come with it, or it is `-1` and nothing
/// has changed.
pub fn set_float(blackboard: &mut Blackboard, key: Option<&str>, value: u32) -> (reported: (
    i32,
    Vec<Notification>,
))
    requires
        old(blackboard).wf(),
    ensures
        final(blackboard).wf(),
        set_reported(
            *old(blackboard),
            *final(blackboard),
            key_view(key),
            Some(ValueView::Float(value)),
            reported,
        ),
{
    report_set(set_float_intern(blackboard, key, value))
}

/// Sets `ckey` to a truth value and returns the calls that are due. A
/// missing key is refused with `NullInput`, a stopped blackboard with
/// `NotRunning`.
pub fn set_bool_intern(
    blackboard: &mut Blackboard,
    ckey: Option<&str>,
    value: bool,
) -> (done: Result<Vec<Notification>, RuntimeError>)
    requires
        old(blackboard).wf(),
    ensures
        final(blackboard).wf(),
        set_outcome(
            *old(blackboard),
            *final(blackboard),
            key_view(ckey),
            Some(ValueView::Bool(value)),
            done,
        ),
{
    write(blackboard, ckey, BlackboardValue::Bool(value))
}

/// Sets `key` to a truth value. The code is `0` and the calls that are due
/// come with it, or it is `-1` and nothing has changed.
pub fn set_bool(blackboard: &mut Blackboard, key: Option<&str>, value: bool) -> (reported: (
    i32,
    Vec<Notification>,
))
    requires
        old(blackboard).wf(),
    ensures
        final(blackboard).wf(),
        set_reported(
            *old(blackboard),
            *final(blackboard),
            key_view(key),
            Some(ValueView::Bool(value)),
            reported,
        ),
{
    report_set(set_bool_intern(blackboard, key, value))
}

/// Sets `ckey` to a double-precision number, given by its bits, and returns
/// the calls that are due. A missing key is refused with `NullInput`, a
/// stopped blackboard with `NotRunning`.
pub fn set_double_intern(
    blackboard: &mut Blackboard,
    ckey: Option<&str>,
    value: u64,
) -> (done: Result<Vec<Notification>, RuntimeError>)
    requires
        old(blackboard).wf(),
    ensures
        final(blackboard).wf(),
        set_outcome(
            *old(blackboard),
            *final(blackboard),
            key_view(ckey),
            Some(ValueView::Double(value)),
            done,
        ),
{
    write(blackboard, ckey, BlackboardValue::Double(value))
}

/// Sets `key` to a double-precision number, given by its bits. The code is
/// `0` and the calls that are due come with it, or it is `-1` and nothing
/// has changed.
pub fn set_double(blackboard: &mut Blackboard, key: Option<&str>, value: u64) -> (reported: (
    i32,
    Vec<Notification>,
))
    requires
        old(blackboard).wf(),
    ensures
        final(blackboard).wf(),
        set_reported(
            *old(blackboard),
            *final(blackboard),
            key_view(key),
            Some(ValueView::Double(value)),
            reported,
        ),
{
    report_set(set_double_intern(blackboard, key, value))
}

/// What a read of `key` as a value of `kind` gives: the value, or the reason
/// why there is none. A missing key gives `NullInput`, a stopped blackboard
/// `NotRunning`, a key without an entry `KeyNotFound`, and an entry of
/// another kind `TypeMismatch`.
pub open spec fn spec_read(
    blackboard: Blackboard,
    key: Option<Seq<char>>,
    kind: ValueKind,
) -> Result<ValueView, RuntimeError> {
    if key.is_none() {
        Err(RuntimeError::NullInput)
    } else if !blackboard.running() {
        Err(RuntimeError::NotRunning)
    } else if !blackboard.map().dom().contains(key.unwrap()) {
        Err(RuntimeError::KeyNotFound)
    } else if blackboard.map()[key.unwrap()].kind() != kind {
        Err(RuntimeError::TypeMismatch)
    } else {
        Ok(blackboard.map()[key.unwrap()])
    }
}

/// What a read into a slot gives: without a slot `NullInput`, else what the
/// read gives.
pub open spec fn slot_read(
    blackboard: Blackboard,
    key: Option<Seq<char>>,
    kind: ValueKind,
    has_slot: bool,
) -> Result<ValueView, RuntimeError> {
    if !has_slot {
        Err(RuntimeError::NullInput)
    } else {
        spec_read(blackboard, key, kind)
    }
}

/// Whether a result tells what a read gave: success for a value, and for a
/// failure its reason.
pub open spec fn tells(
    done: Result<(), RuntimeError>,
    read: Result<ValueView, RuntimeError>,
) -> bool {
    match done {
        Ok(_) => read.is_ok(),
        Err(error) => read == Err::<ValueView, RuntimeError>(error),
    }
}

/// Reads a key of a running blackboard as a value of the given kind.
fn read<'a>(
    blackboard: &'a Blackboard,
    ckey: Option<&str>,
    kind: ValueKind,
) -> (found: Result<&'a BlackboardValue, RuntimeError>)
    requires
        blackboard.wf(),
    ensures
        match found {
            Ok(value) => spec_read(*blackboard, key_view(ckey), kind) == Ok::<
                ValueView,
                RuntimeError,
            >(value@) && value@.kind() == kind,
            Err(error) => spec_read(*blackboard, key_view(ckey), kind) == Err::<
                ValueView,
                RuntimeError,
            >(error),
        },
{
    let key = match ckey {
        Some(key) => key,
        None => {
            return Err(RuntimeError::NullInput);
        },
    };
    match &blackboard.state {
        Some(store) => store.get(key, kind),
        None => Err(RuntimeError::NotRunning),
    }
}

/// One call of the sized read of a string. The result is the number of
/// bytes of the value with its terminating NUL. Without a buffer nothing
/// else happens, so that a caller can ask for the size first; a buffer is
/// filled with exactly those bytes. A failed read leaves the buffer as it
/// is.
pub fn get_string_intern(
    blackboard: &Blackboard,
    ckey: Option<&str>,
    cvalue: Option<&mut Vec<u8>>,
) -> (size: Result<usize, RuntimeError>)
    requires
        blackboard.wf(),
    ensures
        match spec_read(*blackboard, key_view(ckey), ValueKind::Utf8String) {
            Ok(value) => size.is_ok() && size.unwrap() == bytes_with_nul(value.as_text()).len(),
            Err(error) => size == Err::<usize, RuntimeError>(error),
        },
        match cvalue {
            Some(buffer) => final(buffer)@ == match spec_read(
                *blackboard,
                key_view(ckey),
                ValueKind::Utf8String,
            ) {
                Ok(value) => bytes_with_nul(value.as_text()),
                Err(_) => buffer@,
            },
            None => true,
        },
{
    match read(blackboard, ckey, ValueKind::Utf8String) {
        Ok(value) => match value {
            BlackboardValue::String(text) => Ok(copy_with_nul(text.as_str(), cvalue)),
            _ => {
                proof {
                    assert(false);
                }
                Err(RuntimeError::TypeMismatch)
            },
        },
        Err(error) => Err(error),
    }
}

/// The sized read of a string as a plugin sees it: the number of bytes with
/// the terminating NUL, or `-1` for a failed read and for a number that no
/// `i32` holds. A buffer, if one is given, is filled with exactly those
/// bytes; whenever `-1` is reported it stays as it is.
pub fn get_string(
    blackboard: &Blackboard,
    ckey: Option<&str>,
    cvalue: Option<&mut Vec<u8>>,
) -> (code: i32)
    requires
        blackboard.wf(),
    ensures
        code == match spec_read(*blackboard, key_view(ckey), ValueKind::Utf8String) {
            Ok(value) => spec_size_code(bytes_with_nul(value.as_text()).len()),
            Err(_) => -1i32,
        },
        match cvalue {
            Some(buffer) => final(buffer)@ == if code >= 0 {
                bytes_with_nul(
                    spec_read(
                        *blackboard,
                        key_view(ckey),
                        ValueKind::Utf8String,
                    ).unwrap().as_text(),
                )
            } else {
                buffer@
            },
            None => true,
        },
{
    match read(blackboard, ckey, ValueKind::Utf8String) {
        Ok(value) => match value {
            BlackboardValue::String(text) => copy_with_nul_code(text.as_str(), cvalue),
            _ => {
                proof {
                    assert(false);
                }
                -1
            },
        },
        Err(_) => -1,
    }
}

/// Reads `ckey` as a 32-bit integer into `value`. A missing key or slot is
/// refused with `NullInput`; a failed read leaves the slot as it is.
pub fn get_int_intern(
    blackboard: &Blackboard,
    ckey: Option<&str>,
    value: Option<&mut i32>,
) -> (done: Result<(), RuntimeError>)
    requires
        blackboard.wf(),
    ensures
        tells(done, slot_read(*blackboard, key_view(ckey), ValueKind::Int32, value.is_some())),
        match value {
            Some(slot) => *final(slot) == match spec_read(
                *blackboard,
                key_view(ckey),
                ValueKind::Int32,
            ) {
                Ok(found) => found.as_int(),
                Err(_) => *slot,
            },
            None => true,
        },
{
    if ckey.is_none() {
        return Err(RuntimeError::NullInput);
    }
    let slot = match value {
        Some(slot) => slot,
        None => {
            return Err(RuntimeError::NullInput);
        },
    };
    match read(blackboard, ckey, ValueKind::Int32) {
        Ok(found) => match found {
            BlackboardValue::Int(v) => {
                *slot = *v;
                Ok(())
            },
            _ => {
                proof {
                    assert(false);
                }
                Err(RuntimeError::TypeMismatch)
            },
        },
        Err(error) => Err(error),
    }
}

/// Reads `ckey` as a 32-bit integer into `value` and reports `0`, or
/// reports `-1` and leaves the slot as it is.
pub fn get_int(blackboard: &Blackboard, ckey: Option<&str>, value: Option<&mut i32>) -> (code: i32)
    requires
        blackboard.wf(),
    ensures
        code == spec_status(
            slot_read(*blackboard, key_view(ckey), ValueKind::Int32, value.is_some()).is_err(),
        ),
        match value {
            Some(slot) => *final(slot) == match spec_read(
                *blackboard,
                key_view(ckey),
                ValueKind::Int32,
            ) {
                Ok(found) => found.as_int(),
                Err(_) => *slot,
            },
            None => true,
        },
{
    match get_int_intern(blackboard, ckey, value) {
        Ok(_) => 0,
        Err(_) => -1,
    }
}

/// Reads `ckey` as a single-precision number into `value`, as its bits. A
/// missing key or slot is refused with `NullInput`; a failed read leaves
/// the slot as it is.
pub fn get_float_intern(
    blackboard: &Blackboard,
    ckey: Option<&str>,
    value: Option<&mut u32>,
) -> (done: Result<(), RuntimeError>)
    requires
        blackboard.wf(),
    ensures
        tells(done, slot_read(*blackboard, key_view(ckey), ValueKind::Float32, value.is_some())),
        match value {
            Some(slot) => *final(slot) == match spec_read(
                *blackboard,
                key_view(ckey),
                ValueKind::Float32,
            ) {
                Ok(found) => found.as_float_bits(),
                Err(_) => *slot,
            },
            None => true,
        },
{
    if ckey.is_none() {
        return Err(RuntimeError::NullInput);
    }
    let slot = match value {
        Some(slot) => slot,
        None => {
            return Err(RuntimeError::NullInput);
        },
    };
    match read(blackboard, ckey, ValueKind::Float32) {
        Ok(found) => match found {
            BlackboardValue::Float(v) => {
                *slot = *v;
                Ok(())
            },
            _ => {
                proof {
                    assert(false);
                }
                Err(RuntimeError::TypeMismatch)
            },
        },
        Err(error) => Err(error),
    }
}

/// Reads `key` as a single-precision number into `value`, as its bits, and
/// reports `0`, or reports `-1` and leaves the slot as it is.
pub fn get_float(blackboard: &Blackboard, key: Option<&str>, value: Option<&mut u32>) -> (code: i32)
    requires
        blackboard.wf(),
    ensures
        code == spec_status(
            slot_read(*blackboard, key_view(key), ValueKind::Float32, value.is_some()).is_err(),
        ),
        match value {
            Some(slot) => *final(slot) == match spec_read(
                *blackboard,
                key_view(key),
                ValueKind::Float32,
            ) {
                Ok(found) => found.as_float_bits(),
                Err(_) => *slot,
            },
            None => true,
        },
{
    match get_float_intern(blackboard, key, value) {
        Ok(_) => 0,
        Err(_) => -1,
    }
}

/// Reads `ckey` as a truth value into `value`. A missing key or slot is
/// refused with `NullInput`; a failed read leaves the slot as it is.
pub fn get_bool_intern(
    blackboard: &Blackboard,
    ckey: Option<&str>,
    value: Option<&mut bool>,
) -> (done: Result<(), RuntimeError>)
    requires
        blackboard.wf(),
    ensures
        tells(done, slot_read(*blackboard, key_view(ckey), ValueKind::Bool, value.is_some())),
        match value {
            Some(slot) => *final(slot) == match spec_read(
                *blackboard,
                key_view(ckey),
                ValueKind::Bool,
            ) {
                Ok(found) => found.as_bool(),
                Err(_) => *slot,
            },
            None => true,
        },
{
    if ckey.is_none() {
        return Err(RuntimeError::NullInput);
    }
    let slot = match value {
        Some(slot) => slot,
        None => {
            return Err(RuntimeError::NullInput);
        },
    };
    match read(blackboard, ckey, ValueKind::Bool) {
        Ok(found) => match found {
            BlackboardValue::Bool(v) => {
                *slot = *v;
                Ok(())
            },
            _ => {
                proof {
                    assert(false);
                }
                Err(RuntimeError::TypeMismatch)
            },
        },
        Err(error) => Err(error),
    }
}

/// Reads `key` as a truth value into `value` and reports `0`, or reports
/// `-1` and leaves the slot as it is.
pub fn get_bool(blackboard: &Blackboard, key: Option<&str>, value: Option<&mut bool>) -> (code: i32)
    requires
        blackboard.wf(),
    ensures
        code == spec_status(
            slot_read(*blackboard, key_view(key), ValueKind::Bool, value.is_some()).is_err(),
        ),
        match value {
            Some(slot) => *final(slot) == match spec_read(
                *blackboard,
                key_view(key),
                ValueKind::Bool,
            ) {
                Ok(found) => found.as_bool(),
                Err(_) => *slot,
            },
            None => true,
        },
{
    match get_bool_intern(blackboard, key, value) {
        Ok(_) => 0,
        Err(_) => -1,
    }
}

/// Reads `ckey` as a double-precision number into `value`, as its bits. A
/// missing key or slot is refused with `NullInput`; a failed read leaves
/// the slot as it is.
pub fn get_double_intern(
    blackboard: &Blackboard,
    ckey: Option<&str>,
    value: Option<&mut u64>,
) -> (done: Result<(), RuntimeError>)
    requires
        blackboard.wf(),
    ensures
        tells(done, slot_read(*blackboard, key_view(ckey), ValueKind::Float64, value.is_some())),
        match value {
            Some(slot) => *final(slot) == match spec_read(
                *blackboard,
                key_view(ckey),
                ValueKind::Float64,
            ) {
                Ok(found) => found.as_double_bits(),
                Err(_) => *slot,
            },
            None => true,
        },
{
    if ckey.is_none() {
        return Err(RuntimeError::NullInput);
    }
    let slot = match value {
        Some(slot) => slot,
        None => {
            return Err(RuntimeError::NullInput);
        },
    };
    match read(blackboard, ckey, ValueKind::Float64) {
        Ok(found) => match found {
            BlackboardValue::Double(v) => {
                *slot = *v;
                Ok(())
            },
            _ => {
                proof {
                    assert(false);
                }
                Err(RuntimeError::TypeMismatch)
            },
        },
        Err(error) => Err(error),
    }
}

/// Reads `key` as a double-precision number into `value`, as its bits, and
/// reports `0`, or reports `-1` and leaves the slot as it is.
pub fn get_double(
    blackboard: &Blackboard,
    key: Option<&str>,
    value: Option<&mut u64>,
) -> (code: i32)
    requires
        blackboard.wf(),
    ensures
        code == spec_status(
            slot_read(*blackboard, key_view(key), ValueKind::Float64, value.is_some()).is_err(),
        ),
        match value {
            Some(slot) => *final(slot) == match spec_read(
                *blackboard,
                key_view(key),
                ValueKind::Float64,
            ) {
                Ok(found) => found.as_double_bits(),
                Err(_) => *slot,
            },
            None => true,
        },
{
    match get_double_intern(blackboard, key, value) {
        Ok(_) => 0,
        Err(_) => -1,
    }
}

/// The schema's properties for a running blackboard: one for each key, with
/// the JSON type of its value and the value itself.
pub fn as_json_schema_intern(
    blackboard: &Blackboard,
) -> (properties: Result<Vec<SchemaProperty>, RuntimeError>)
    requires
        blackboard.wf(),
    ensures
        match properties {
            Ok(listed) => blackboard.running() && property_views(listed@) == schema_of(
                blackboard.entries(),
            ),
            Err(error) => !blackboard.running() && error == RuntimeError::NotRunning,
        },
{
    match &blackboard.state {
        Some(store) => Ok(store.schema()),
        None => Err(RuntimeError::NotRunning),
    }
}

/// Why a registration is refused, if it is: the key or the component is
/// missing, the blackboard is stopped, or there is no callback.
pub open spec fn subscribe_refusal(
    blackboard: Blackboard,
    key: Option<Seq<char>>,
    component: Option<Seq<char>>,
    callback: usize,
) -> Option<RuntimeError> {
    if key.is_none() || component.is_none() {
        Some(RuntimeError::NullInput)
    } else if !blackboard.running() {
        Some(RuntimeError::NotRunning)
    } else if callback == 0 {
        Some(RuntimeError::NullInput)
    } else {
        None
    }
}

/// What a successful registration does: the pair of key and component is
/// registered behind the others, unless it was registered already; the
/// entries are as before.
pub open spec fn subscribed(
    before: Blackboard,
    after: Blackboard,
    subscriber: SubscriberView,
) -> bool {
    &&& after.running()
    &&& after.wf()
    &&& after.entries() == before.entries()
    &&& after.subscribers() == with_subscriber(before.subscribers(), subscriber)
}

/// Registers `component` for `key`: from now on a set of the key makes a
/// call of `callback` with the key and `user_data` due. The key need not
/// exist. A pair that is registered already stays as it is. A callback of
/// `0` is refused with `NullInput`.
pub fn subscribe_intern(
    blackboard: &mut Blackboard,
    key: Option<&str>,
    component: Option<&str>,
    callback: usize,
    user_data: usize,
) -> (done: Result<(), RuntimeError>)
    requires
        old(blackboard).wf(),
    ensures
        final(blackboard).wf(),
        match done {
            Ok(_) => subscribe_refusal(
                *old(blackboard),
                key_view(key),
                key_view(component),
                callback,
            ).is_none() && subscribed(
                *old(blackboard),
                *final(blackboard),
                (SubscriberView {
                    key: key.unwrap()@,
                    component: component.unwrap()@,
                    callback,
                    user_data,
                }),
            ),
            Err(error) => subscribe_refusal(
                *old(blackboard),
                key_view(key),
                key_view(component),
                callback,
            ) == Some(error) && *final(blackboard) == *old(blackboard),
        },
{
    let key = match key {
        Some(key) => key,
        None => {
            return Err(RuntimeError::NullInput);
        },
    };
    let component = match component {
        Some(component) => component,
        None => {
            return Err(RuntimeError::NullInput);
        },
    };
    if blackboard.state.is_none() {
        return Err(RuntimeError::NotRunning);
    }
    if callback == 0 {
        return Err(RuntimeError::NullInput);
    }
    match &mut blackboard.state {
        Some(store) => store.subscribe(key, component, callback, user_data),
        None => Err(RuntimeError::NotRunning),
    }
}

/// Registers `component` for `key` and reports `0`, or reports `-1` and
/// changes nothing.
pub fn subscribe(
    blackboard: &mut Blackboard,
    key: Option<&str>,
    component: Option<&str>,
    callback: usize,
    user_data: usize,
) -> (code: i32)
    requires
        old(blackboard).wf(),
    ensures
        final(blackboard).wf(),
        code == spec_status(
            subscribe_refusal(
                *old(blackboard),
                key_view(key),
                key_view(component),
                callback,
            ).is_some(),
        ),
        code == 0 ==> subscribed(
            *old(blackboard),
            *final(blackboard),
            (SubscriberView {
                key: key.unwrap()@,
                component: component.unwrap()@,
                callback,
                user_data,
            }),
        ),
        code != 0 ==> *final(blackboard) == *old(blackboard),
{
    match subscribe_intern(blackboard, key, component, callback, user_data) {
        Ok(_) => 0,
        Err(_) => -1,
    }
}

/// Why the removal of a registration is refused, if it is: the key or the
/// component is missing, or the blackboard is stopped.
pub open spec fn unsubscribe_refusal(
    blackboard: Blackboard,
    key: Option<Seq<char>>,
    component: Option<Seq<char>>,
) -> Option<RuntimeError> {
    if key.is_none() || component.is_none() {
        Some(RuntimeError::NullInput)
    } else if !blackboard.running() {
        Some(RuntimeError::NotRunning)
    } else {
        None
    }
}

/// What a successful removal does: the pair of key and component is not
/// registered any more; the other subscribers keep their order, and the
/// entries are as before.
pub open spec fn unsubscribed(
    before: Blackboard,
    after: Blackboard,
    key: Seq<char>,
    component: Seq<char>,
) -> bool {
    &&& after.running()
    &&& after.wf()
    &&& after.entries() == before.entries()
    &&& after.subscribers() == without(before.subscribers(), key, component)
}

/// Takes out the registration of `component` for `key`, if there is one:
/// from now on a set of the key makes no call due on its behalf.
pub fn unsubscribe_intern(
    blackboard: &mut Blackboard,
    key: Option<&str>,
    component: Option<&str>,
) -> (done: Result<(), RuntimeError>)
    requires
        old(blackboard).wf(),
    ensures
        final(blackboard).wf(),
        match done {
            Ok(_) => unsubscribe_refusal(
                *old(blackboard),
                key_view(key),
                key_view(component),
            ).is_none() && unsubscribed(
                *old(blackboard),
                *final(blackboard),
                key.unwrap()@,
                component.unwrap()@,
            ),
            Err(error) => unsubscribe_refusal(
                *old(blackboard),
                key_view(key),
                key_view(component),
            ) == Some(error) && *final(blackboard) == *old(blackboard),
        },
{
    let key = match key {
        Some(key) => key,
        None => {
            return Err(RuntimeError::NullInput);
        },
    };
    let component = match component {
        Some(component) => component,
        None => {
            return Err(RuntimeError::NullInput);
        },
    };
    match &mut blackboard.state {
        Some(store) => {
            store.unsubscribe(key, component);
            Ok(())
        },
        None => Err(RuntimeError::NotRunning),
    }
}

/// Takes out the registration of `component` for `key` and reports `0`, or
/// reports `-1` and changes nothing.
pub fn unsubscribe(
    blackboard: &mut Blackboard,
    key: Option<&str>,
    component: Option<&str>,
) -> (code: i32)
    requires
        old(blackboard).wf(),
    ensures
        final(blackboard).wf(),
        code == spec_status(
            unsubscribe_refusal(*old(blackboard), key_view(key), key_view(component)).is_some(),
        ),
        code == 0 ==> unsubscribed(
            *old(blackboard),
            *final(blackboard),
            key.unwrap()@,
            component.unwrap()@,
        ),
        code != 0 ==> *final(blackboard) == *old(blackboard),
{
    match unsubscribe_intern(blackboard, key, component) {
        Ok(_) => 0,
        Err(_) => -1,
    }
}

} // verus!
