//! The records that cross plugin boundaries: a named function address and a
//! fixed-capacity table of them.

use vstd::prelude::*;
use crate::text::{lemma_position_of_is, position_of};

verus! {

/// Size in bytes of a capability's name buffer, the terminating NUL included.
pub const CAPABILITY_FUNCTION_NAME_LEN: usize = 64;

/// Number of slots in a capability table.
pub const MAX_CAPABILITIES: usize = 20;

/// A named function address. The name is NUL-padded; the address is opaque
/// to this crate and `0` stands for "no function".
#[derive(Clone, Copy, Debug)]
pub struct Capability {
    pub name: [u8; 64],
    pub function: usize,
}

/// A fixed-capacity table of capabilities; the first `n_capabilities` slots
/// are in use.
#[derive(Clone, Copy, Debug)]
pub struct Capabilities {
    pub capability: [Capability; 20],
    pub n_capabilities: usize,
}

/// The bytes of a name buffer in front of its first NUL.
pub open spec fn unpadded(name: Seq<u8>) -> Seq<u8> {
    name.take(position_of(name, 0u8))
}

/// A name's bytes as they are stored: cut after 63 bytes and NUL-padded to
/// the buffer's size.
pub open spec fn padded(bytes: Seq<u8>) -> Seq<u8> {
    Seq::new(
        CAPABILITY_FUNCTION_NAME_LEN as nat,
        |i: int|
            if i < bytes.len() && i < CAPABILITY_FUNCTION_NAME_LEN - 1 {
                bytes[i]
            } else {
                0u8
            },
    )
}

/// The bytes from the start that are UTF-8 as a whole: bytes at the end
/// that complete no character, as a name that was cut inside a character
/// has them, are left out.
pub open spec fn whole_characters(bytes: Seq<u8>) -> Seq<u8>
    decreases bytes.len(),
{
    if bytes.len() == 0 || vstd::utf8::valid_utf8(bytes) {
        bytes
    } else {
        whole_characters(bytes.drop_last())
    }
}

/// Where no byte in front of position `end` is NUL and the buffer ends there
/// or holds a NUL there, the unpadded name is the buffer's first `end` bytes.
pub proof fn lemma_unpadded_prefix(name: Seq<u8>, end: int)
    requires
        0 <= end <= name.len(),
        forall|j: int| 0 <= j < end ==> name[j] != 0,
        end == name.len() || name[end] == 0,
    ensures
        unpadded(name) == name.take(end),
{
    lemma_position_of_is(name, 0u8, end);
}

impl Capability {
    /// The name as a caller reads it: the text that the bytes in front of
    /// the first NUL are in UTF-8. Of bytes that are no UTF-8 as a whole, the
    /// name is the text of the longest run from the start that is.
    pub open spec fn spec_name(&self) -> Seq<char> {
        vstd::utf8::decode_utf8(whole_characters(unpadded(self.name@)))
    }
}

impl Capabilities {
    /// The count does not exceed the capacity.
    pub open spec fn wf(&self) -> bool {
        self.n_capabilities <= MAX_CAPABILITIES
    }

    /// The slots in use, in the order in which they were added.
    pub open spec fn entries(&self) -> Seq<Capability> {
        self.capability@.take(self.n_capabilities as int)
    }
}

} // verus!
