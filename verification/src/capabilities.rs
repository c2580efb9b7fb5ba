//! Capabilities and capability tables, as plugins hand them to each other.

use vstd::prelude::*;
use vstd::string::StringSliceAdditionalSpecFns;
use crate::bindings;
use crate::bindings::{
    lemma_unpadded_prefix, padded, unpadded, whole_characters, CAPABILITY_FUNCTION_NAME_LEN,
    MAX_CAPABILITIES,
};
use crate::error::RuntimeError;
use crate::text::{lemma_bytes_not_nul, lemma_position_of, lemma_position_of_is, position_of};

verus! {

/// The address of a function that a capability names. It is never `0`.
#[derive(Clone, Copy, Debug)]
pub struct Function {
    pointer: usize,
}

impl Function {
    /// The address, which is not `0`.
    pub closed spec fn spec_address(&self) -> usize {
        self.pointer
    }

    /// The address to call.
    pub fn address(&self) -> (address: usize)
        ensures
            address == self.spec_address(),
    {
        self.pointer
    }
}

/// A named function address, held by value.
#[derive(Clone, Copy, Debug)]
pub struct Capability(pub bindings::Capability);

/// The unpadded bytes of a raw capability's name.
fn unpadded_bytes(cap: &bindings::Capability) -> (bytes: Vec<u8>)
    ensures
        bytes@ == unpadded(cap.name@),
{
    let mut bytes: Vec<u8> = Vec::new();
    let mut i: usize = 0;
    while i < CAPABILITY_FUNCTION_NAME_LEN && cap.name[i] != 0
        invariant
            i <= CAPABILITY_FUNCTION_NAME_LEN,
            forall|j: int| 0 <= j < i ==> cap.name@[j] != 0,
            bytes@ == cap.name@.take(i as int),
        decreases CAPABILITY_FUNCTION_NAME_LEN - i,
    {
        bytes.push(cap.name[i]);
        i += 1;
        assert(bytes@ =~= cap.name@.take(i as int));
    }
    proof {
        lemma_unpadded_prefix(cap.name@, i as int);
    }
    bytes
}

/// The name of a raw capability: the text that its unpadded bytes are in
/// UTF-8. Where the bytes are no UTF-8 as a whole, as those of a name that
/// was cut inside a character, the name is the text of the longest run of
/// bytes from the start that is.
pub fn capability_name(cap: &bindings::Capability) -> (name: String)
    ensures
        name@ == cap.spec_name(),
{
    let mut bytes = unpadded_bytes(cap);
    let mut name: Option<String> = None;
    while name.is_none()
        invariant
            whole_characters(bytes@) == whole_characters(unpadded(cap.name@)),
            name.is_some() ==> name.unwrap()@ == cap.spec_name(),
        decreases bytes@.len() + (if name.is_none() { 1nat } else { 0nat }),
    {
        let decoded = match core::str::from_utf8(bytes.as_slice()) {
            Ok(text) => {
                proof {
                    vstd::utf8::encode_utf8_decode_utf8(text@);
                }
                Some(text.to_owned())
            },
            Err(_) => None,
        };
        match decoded {
            Some(text) => {
                name = Some(text);
            },
            None => {
                assert(bytes@.len() != 0);
                bytes.pop();
            },
        }
    }
    name.unwrap()
}

/// Whether a name is stored whole: with its terminator it fits the buffer,
/// and it holds no NUL.
pub open spec fn storable(name: Seq<char>) -> bool {
    &&& vstd::utf8::encode_utf8(name).len() < CAPABILITY_FUNCTION_NAME_LEN
    &&& forall|i: int| 0 <= i < name.len() ==> #[trigger] name[i] != '\0'
}

/// A name that is stored whole is read back unchanged from the buffer that
/// holds it.
pub proof fn lemma_storable_name_round_trip(name: Seq<char>, stored: Seq<u8>)
    requires
        storable(name),
        stored == padded(vstd::utf8::encode_utf8(name)),
    ensures
        unpadded(stored) == vstd::utf8::encode_utf8(name),
        vstd::utf8::decode_utf8(whole_characters(unpadded(stored))) == name,
{
    let bytes = vstd::utf8::encode_utf8(name);
    lemma_bytes_not_nul(name);
    let end = bytes.len() as int;
    assert forall|j: int| 0 <= j < end implies stored[j] != 0 by {
        assert(stored[j] == bytes[j]);
    }
    assert(stored[end] == 0);
    lemma_unpadded_prefix(stored, end);
    assert(stored.take(end) =~= bytes);
    vstd::utf8::encode_utf8_valid_utf8(name);
    vstd::utf8::encode_utf8_decode_utf8(name);
}

/// Whether the unpadded name of a raw capability is these bytes.
fn holds_name(cap: &bindings::Capability, name: &[u8]) -> (same: bool)
    ensures
        same == (unpadded(cap.name@) == name@),
{
    proof {
        lemma_position_of(cap.name@, 0u8);
    }
    let ghost end = position_of(cap.name@, 0u8);
    let mut i: usize = 0;
    while i < CAPABILITY_FUNCTION_NAME_LEN && i < name.len()
        invariant
            i <= CAPABILITY_FUNCTION_NAME_LEN,
            i <= name@.len(),
            end == position_of(cap.name@, 0u8),
            i <= end <= CAPABILITY_FUNCTION_NAME_LEN,
            forall|j: int| 0 <= j < i ==> cap.name@[j] == name@[j],
        decreases CAPABILITY_FUNCTION_NAME_LEN - i,
    {
        proof {
            lemma_position_of(cap.name@, 0u8);
        }
        if cap.name[i] == 0 {
            proof {
                assert(end == i);
                assert(unpadded(cap.name@).len() != name@.len());
            }
            return false;
        }
        if cap.name[i] != name[i] {
            proof {
                assert(end > i);
                assert(unpadded(cap.name@)[i as int] == cap.name@[i as int]);
            }
            return false;
        }
        i += 1;
    }
    proof {
        lemma_position_of(cap.name@, 0u8);
    }
    if i < name.len() {
        assert(unpadded(cap.name@).len() != name@.len());
        return false;
    }
    let same = i == CAPABILITY_FUNCTION_NAME_LEN || cap.name[i] == 0;
    proof {
        if same {
            assert(end == i);
            assert(unpadded(cap.name@) =~= name@);
        } else {
            assert(end > i);
            assert(unpadded(cap.name@).len() != name@.len());
        }
    }
    same
}

impl Capability {
    /// The record that this capability holds.
    pub open spec fn view(&self) -> bindings::Capability {
        self.0
    }

    /// A capability for `function` under `name`. The name is stored as its
    /// UTF-8 bytes; one of more than 63 bytes is cut to its first 63. A name
    /// that fits and holds no NUL is read back as it was given.
    pub fn new(name: &str, function: usize) -> (cap: Capability)
        ensures
            cap@.function == function,
            cap@.name@ == padded(name.spec_bytes()),
            storable(name@) ==> cap@.spec_name() == name@ && unpadded(cap@.name@)
                == name.spec_bytes(),
    {
        let mut buffer = [0u8; 64];
        let name_bytes = name.as_bytes();
        let name_len = if name_bytes.len() >= CAPABILITY_FUNCTION_NAME_LEN {
            CAPABILITY_FUNCTION_NAME_LEN - 1
        } else {
            name_bytes.len()
        };
        let mut i: usize = 0;
        while i < name_len
            invariant
                i <= name_len,
                name_len <= name_bytes.len(),
                name_len < CAPABILITY_FUNCTION_NAME_LEN,
                name_bytes@ == name.spec_bytes(),
                forall|j: int| 0 <= j < i ==> buffer@[j] == name_bytes@[j],
                forall|j: int| i <= j < CAPABILITY_FUNCTION_NAME_LEN ==> buffer@[j] == 0,
            decreases name_len - i,
        {
            buffer[i] = name_bytes[i];
            i += 1;
        }
        let cap = Capability(bindings::Capability { name: buffer, function });
        proof {
            assert(cap@.name@ =~= padded(name.spec_bytes()));
            if storable(name@) {
                lemma_storable_name_round_trip(name@, cap@.name@);
            }
        }
        cap
    }

    /// A copy of a raw capability.
    pub fn from_raw(cap: &bindings::Capability) -> (copy: Capability)
        ensures
            copy@ == *cap,
    {
        Capability(*cap)
    }

    /// The name: the text that the unpadded bytes are in UTF-8.
    pub fn name(&self) -> (name: String)
        ensures
            name@ == self@.spec_name(),
    {
        capability_name(&self.0)
    }

    /// The function to call, unless the capability holds none.
    pub fn get(&self) -> (function: Result<Function, RuntimeError>)
        ensures
            self@.function == 0 <==> function == Err::<Function, RuntimeError>(
                RuntimeError::NullInput,
            ),
            self@.function != 0 ==> function.is_ok() && function.unwrap().spec_address()
                == self@.function,
    {
        if self.0.function == 0 {
            Err(RuntimeError::NullInput)
        } else {
            Ok(Function { pointer: self.0.function })
        }
    }

    /// The record itself.
    pub fn inner(&self) -> (raw: &bindings::Capability)
        ensures
            *raw == self@,
    {
        &self.0
    }
}

/// A capability table, held by value.
#[derive(Clone, Copy, Debug)]
pub struct Capabilities(pub bindings::Capabilities);

/// The unpadded names of a sequence of capabilities, as bytes.
pub open spec fn slot_names(entries: Seq<bindings::Capability>) -> Seq<Seq<u8>> {
    Seq::new(entries.len(), |i: int| unpadded(entries[i].name@))
}

/// The position of the first capability whose unpadded name is the UTF-8
/// encoding of `name`, or the number of capabilities where none is.
pub open spec fn first_named(entries: Seq<bindings::Capability>, name: Seq<char>) -> int {
    position_of(slot_names(entries), vstd::utf8::encode_utf8(name))
}

/// What a lookup gives is the first capability in use whose unpadded name
/// is the UTF-8 encoding of `name`; it gives nothing exactly where no
/// capability in use has that name.
pub proof fn lemma_spec_get(table: Capabilities, name: Seq<char>)
    ensures
        match table.spec_get(name) {
            Some(found) => {
                let at = first_named(table@.entries(), name);
                &&& 0 <= at < table@.entries().len()
                &&& found == table@.entries()[at]
                &&& unpadded(found.name@) == vstd::utf8::encode_utf8(name)
                &&& forall|j: int|
                    0 <= j < at ==> unpadded((#[trigger] table@.entries()[j]).name@)
                        != vstd::utf8::encode_utf8(name)
            },
            None => forall|j: int|
                0 <= j < table@.entries().len() ==> unpadded(
                    (#[trigger] table@.entries()[j]).name@,
                ) != vstd::utf8::encode_utf8(name),
        },
{
    let names = slot_names(table@.entries());
    let wanted = vstd::utf8::encode_utf8(name);
    lemma_position_of(names, wanted);
    let at = first_named(table@.entries(), name);
    assert forall|j: int| 0 <= j < at implies unpadded((#[trigger] table@.entries()[j]).name@)
        != wanted by {
        assert(names[j] != wanted);
    }
    if at < names.len() {
        assert(names[at] == wanted);
    }
}

impl Capabilities {
    /// The table that this value holds.
    pub open spec fn view(&self) -> bindings::Capabilities {
        self.0
    }

    /// The count does not exceed the capacity.
    pub open spec fn wf(&self) -> bool {
        self@.wf()
    }

    /// What a lookup of `name` gives: the first capability of that name.
    pub open spec fn spec_get(&self, name: Seq<char>) -> Option<bindings::Capability> {
        let at = first_named(self@.entries(), name);
        if at < self@.entries().len() {
            Some(self@.entries()[at])
        } else {
            None
        }
    }

    /// An empty table. Its unused slots hold an empty name and no function.
    pub fn new() -> (table: Capabilities)
        ensures
            table.wf(),
            table@.entries() == Seq::<bindings::Capability>::empty(),
            forall|i: int|
                0 <= i < MAX_CAPABILITIES ==> (#[trigger] table@.capability@[i]).function == 0
                    && table@.capability@[i].name@ == padded(Seq::empty()),
    {
        let blank = Capability::new("", 0);
        proof {
            reveal_strlit("");
            assert("".spec_bytes() =~= Seq::<u8>::empty()) by {
                assert(""@.len() == 0);
                reveal_with_fuel(vstd::utf8::encode_utf8, 1);
            }
        }
        let table = Capabilities(
            bindings::Capabilities { capability: [blank.0;20], n_capabilities: 0 },
        );
        assert(table@.entries() =~= Seq::<bindings::Capability>::empty());
        table
    }

    /// A copy of a raw table.
    pub fn from_raw(cap: &bindings::Capabilities) -> (table: Capabilities)
        requires
            cap.wf(),
        ensures
            table@ == *cap,
            table.wf(),
    {
        Capabilities(*cap)
    }

    /// Appends a capability. A full table stays as it is: the capability is
    /// dropped.
    pub fn add(&mut self, cap: Capability)
        requires
            old(self).wf(),
        ensures
            final(self).wf(),
            old(self)@.n_capabilities < MAX_CAPABILITIES ==> {
                &&& final(self)@.entries() == old(self)@.entries().push(cap@)
                &&& final(self)@.n_capabilities == old(self)@.n_capabilities + 1
                &&& final(self)@.capability@ == old(self)@.capability@.update(
                    old(self)@.n_capabilities as int,
                    cap@,
                )
            },
            old(self)@.n_capabilities >= MAX_CAPABILITIES ==> *final(self) == *old(self),
    {
        if self.0.n_capabilities < MAX_CAPABILITIES {
            let at = self.0.n_capabilities;
            self.0.capability[at] = cap.0;
            self.0.n_capabilities = at + 1;
            assert(self@.entries() =~= old(self)@.entries().push(cap@));
        }
    }

    /// The first capability whose unpadded name is `name`, if there is one.
    /// The match is exact and case-sensitive, byte for byte on the UTF-8
    /// encoding of `name`.
    pub fn get(&self, name: &str) -> (found: Option<Capability>)
        requires
            self.wf(),
        ensures
            found.is_some() == self.spec_get(name@).is_some(),
            found.is_some() ==> found.unwrap()@ == self.spec_get(name@).unwrap(),
    {
        let wanted = name.as_bytes();
        let ghost names = slot_names(self@.entries());
        let mut i: usize = 0;
        while i < self.0.n_capabilities
            invariant
                i <= self.0.n_capabilities,
                self.wf(),
                wanted@ == name.spec_bytes(),
                names == slot_names(self@.entries()),
                forall|j: int| 0 <= j < i ==> #[trigger] names[j] != wanted@,
            decreases self.0.n_capabilities - i,
        {
            let cap = &self.0.capability[i];
            assert(*cap == self@.entries()[i as int]);
            assert(names[i as int] == unpadded(cap.name@));
            if holds_name(cap, wanted) {
                proof {
                    lemma_position_of_is(names, wanted@, i as int);
                }
                return Some(Capability::from_raw(cap));
            }
            i += 1;
        }
        proof {
            lemma_position_of_is(names, wanted@, i as int);
        }
        None
    }

    /// The table itself.
    pub fn inner(&self) -> (raw: &bindings::Capabilities)
        ensures
            *raw == self@,
    {
        &self.0
    }

    /// The number of capabilities in the table.
    pub fn len(&self) -> (count: usize)
        ensures
            count == self@.n_capabilities,
    {
        self.0.n_capabilities
    }

    /// A cursor on the table's first capability.
    pub fn iter(&self) -> (cursor: CapabilitiesIterator<'_>)
        ensures
            cursor.capabilities == self,
            cursor.index == 0,
    {
        CapabilitiesIterator { capabilities: self, index: 0 }
    }
}

/// A cursor that walks a table's capabilities in the order in which they
/// were added.
pub struct CapabilitiesIterator<'a> {
    pub capabilities: &'a Capabilities,
    pub index: usize,
}

impl<'a> CapabilitiesIterator<'a> {
    /// The capability under the cursor, which then moves on; `None` once all
    /// were handed out.
    pub fn next(&mut self) -> (item: Option<Capability>)
        requires
            old(self).capabilities.wf(),
        ensures
            final(self).capabilities == old(self).capabilities,
            old(self).index < old(self).capabilities@.n_capabilities ==> item.is_some()
                && item.unwrap()@ == old(self).capabilities@.entries()[old(self).index as int]
                && final(self).index == old(self).index + 1,
            old(self).index >= old(self).capabilities@.n_capabilities ==> item.is_none()
                && final(self).index == old(self).index,
    {
        if self.index < self.capabilities.len() {
            let cap = &self.capabilities.0.capability[self.index];
            self.index += 1;
            Some(Capability::from_raw(cap))
        } else {
            None
        }
    }
}

} // verus!
