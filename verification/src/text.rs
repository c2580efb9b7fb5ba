//! Contracts for the functions of `String` that the crate calls and that
//! come without one, and small verified helpers on strings.

use vstd::prelude::*;
use vstd::string::{StrSliceExecFns, StringSliceAdditionalSpecFns};

verus! {

/// `String::push` appends the given character to the end of the string.
pub assume_specification[ std::string::String::push ](s: &mut std::string::String, c: char)
    ensures
        final(s)@ == old(s)@.push(c),
;

#[verifier::external_type_specification]
#[verifier::external_body]
pub struct ExUtf8Error(core::str::Utf8Error);

/// `core::str::from_utf8` gives the string that the bytes are where they are
/// valid UTF-8, and an error where they are not.
pub assume_specification[ core::str::from_utf8 ](v: &[u8]) -> (text: Result<
    &str,
    core::str::Utf8Error,
>)
    ensures
        match text {
            Ok(s) => vstd::utf8::valid_utf8(v@) && s.spec_bytes() == v@,
            Err(_) => !vstd::utf8::valid_utf8(v@),
        },
;

/// No byte of the encoding of a character other than NUL is NUL.
pub proof fn lemma_scalar_bytes_not_nul(c: u32)
    requires
        vstd::utf8::is_scalar(c),
        c != 0,
    ensures
        forall|i: int|
            0 <= i < vstd::utf8::encode_scalar(c).len() ==> #[trigger] vstd::utf8::encode_scalar(
                c,
            )[i] != 0,
{
    assert(c <= 0x7F ==> (c & 0x7F) as u8 != 0) by (bit_vector)
        requires
            c != 0,
    ;
    assert(forall|x: u8| 0xC0u8 | x != 0) by (bit_vector);
    assert(forall|x: u8| 0xE0u8 | x != 0) by (bit_vector);
    assert(forall|x: u8| 0xF0u8 | x != 0) by (bit_vector);
    assert(forall|x: u8| 0x80u8 | x != 0) by (bit_vector);
}

/// Text without a NUL is encoded without a NUL byte.
pub proof fn lemma_bytes_not_nul(chars: Seq<char>)
    requires
        forall|i: int| 0 <= i < chars.len() ==> #[trigger] chars[i] != '\0',
    ensures
        forall|i: int|
            0 <= i < vstd::utf8::encode_utf8(chars).len() ==> #[trigger] vstd::utf8::encode_utf8(
                chars,
            )[i] != 0,
    decreases chars.len(),
{
    if chars.len() > 0 {
        let first = vstd::utf8::encode_scalar(chars[0] as u32);
        let rest = chars.drop_first();
        vstd::utf8::char_is_scalar(chars[0]);
        assert(chars[0] as u32 != 0) by {
            if chars[0] as u32 == 0 {
                vstd::utf8::char_u32_cast(chars[0], 0u32);
                vstd::utf8::char_u32_cast('\0', 0u32);
            }
        }
        lemma_scalar_bytes_not_nul(chars[0] as u32);
        assert forall|i: int| 0 <= i < rest.len() implies #[trigger] rest[i] != '\0' by {
            assert(rest[i] == chars[i + 1]);
        }
        lemma_bytes_not_nul(rest);
        let all = vstd::utf8::encode_utf8(chars);
        assert(all == first + vstd::utf8::encode_utf8(rest));
        assert forall|i: int| 0 <= i < all.len() implies #[trigger] all[i] != 0 by {
            if i < first.len() {
                assert(all[i] == first[i]);
            } else {
                assert(all[i] == vstd::utf8::encode_utf8(rest)[i - first.len()]);
            }
        }
    }
}

/// Two strings hold the same bytes exactly when they hold the same
/// characters.
pub proof fn lemma_bytes_decide_chars(a: Seq<char>, b: Seq<char>)
    ensures
        (vstd::utf8::encode_utf8(a) == vstd::utf8::encode_utf8(b)) == (a == b),
{
    vstd::utf8::encode_utf8_decode_utf8(a);
    vstd::utf8::encode_utf8_decode_utf8(b);
}

/// Whether two strings are equal, character for character.
pub fn str_eq(a: &str, b: &str) -> (same: bool)
    ensures
        same == (a@ == b@),
{
    let left = a.as_bytes();
    let right = b.as_bytes();
    proof {
        lemma_bytes_decide_chars(a@, b@);
    }
    if left.len() != right.len() {
        return false;
    }
    let mut i: usize = 0;
    while i < left.len()
        invariant
            i <= left.len(),
            left.len() == right.len(),
            left@ == a.spec_bytes(),
            right@ == b.spec_bytes(),
            forall|j: int| 0 <= j < i ==> left@[j] == right@[j],
        decreases left.len() - i,
    {
        if left[i] != right[i] {
            return false;
        }
        i += 1;
    }
    assert(left@ =~= right@);
    true
}

/// The bytes of a text as a reader of NUL-terminated strings expects them:
/// its UTF-8 encoding and a NUL behind it.
pub open spec fn bytes_with_nul(text: Seq<char>) -> Seq<u8> {
    vstd::utf8::encode_utf8(text).push(0u8)
}

/// One call of a sized read. The result is the number of bytes that the text
/// takes with its terminating NUL. Without a buffer nothing else happens, so
/// that a caller can ask for the size first; a buffer is filled with exactly
/// those bytes.
pub fn copy_with_nul(text: &str, out: Option<&mut Vec<u8>>) -> (size: usize)
    ensures
        size == bytes_with_nul(text@).len(),
        match out {
            Some(buffer) => final(buffer)@ == bytes_with_nul(text@),
            None => true,
        },
{
    let mut bytes = text.as_bytes_vec();
    bytes.push(0u8);
    let size = bytes.len();
    match out {
        Some(buffer) => {
            *buffer = bytes;
        },
        None => {},
    }
    size
}

/// A size as a plugin interface reports it: the size itself, or `-1` where
/// no `i32` holds it.
pub open spec fn spec_size_code(size: nat) -> i32 {
    if size <= i32::MAX {
        size as i32
    } else {
        -1i32
    }
}

/// A size as a plugin interface reports it.
pub fn size_code(size: usize) -> (code: i32)
    ensures
        code == spec_size_code(size as nat),
{
    if size <= i32::MAX as usize {
        size as i32
    } else {
        -1
    }
}

/// One call of a sized read as a plugin interface sees it. The result is
/// the number of bytes that the text takes with its terminating NUL, and a
/// buffer, if one is given, is filled with exactly those bytes. A text whose
/// size no `i32` holds is reported as `-1`, and the buffer stays as it is.
pub fn copy_with_nul_code(text: &str, out: Option<&mut Vec<u8>>) -> (code: i32)
    ensures
        code == spec_size_code(bytes_with_nul(text@).len()),
        match out {
            Some(buffer) => final(buffer)@ == if code >= 0 {
                bytes_with_nul(text@)
            } else {
                buffer@
            },
            None => true,
        },
{
    let size = copy_with_nul(text, None);
    let code = size_code(size);
    if code >= 0 {
        match out {
            Some(buffer) => {
                let _ = copy_with_nul(text, Some(buffer));
            },
            None => {},
        }
    }
    code
}

/// The position of the first of `items` that equals `item`, or the number
/// of items where none does.
pub open spec fn position_of<T>(items: Seq<T>, item: T) -> int
    decreases items.len(),
{
    if items.len() == 0 || items[0] == item {
        0
    } else {
        1 + position_of(items.drop_first(), item)
    }
}

/// `position_of` is the least position that holds the item.
pub proof fn lemma_position_of<T>(items: Seq<T>, item: T)
    ensures
        0 <= position_of(items, item) <= items.len(),
        forall|j: int| 0 <= j < position_of(items, item) ==> #[trigger] items[j] != item,
        position_of(items, item) < items.len() ==> items[position_of(items, item)] == item,
        position_of(items, item) < items.len() <==> items.contains(item),
    decreases items.len(),
{
    if items.len() == 0 || items[0] == item {
        if items.len() > 0 {
            assert(items[0] == item);
        }
    } else {
        let rest = items.drop_first();
        lemma_position_of(rest, item);
        let at = position_of(items, item);
        assert forall|j: int| 0 <= j < at implies #[trigger] items[j] != item by {
            if j > 0 {
                assert(items[j] == rest[j - 1]);
            }
        }
        if at < items.len() {
            assert(items[at] == rest[at - 1]);
        }
        if items.contains(item) {
            let i = choose|i: int| 0 <= i < items.len() && items[i] == item;
            assert(rest[i - 1] == item);
        }
    }
}

/// A position that holds the item, with none in front of it that does, is
/// the one that `position_of` gives.
pub proof fn lemma_position_of_is<T>(items: Seq<T>, item: T, at: int)
    requires
        0 <= at <= items.len(),
        forall|j: int| 0 <= j < at ==> #[trigger] items[j] != item,
        at < items.len() ==> items[at] == item,
    ensures
        position_of(items, item) == at,
{
    lemma_position_of(items, item);
    let found = position_of(items, item);
    if found < at {
        assert(items[found] != item);
    } else if at < found {
        assert(items[at] != item);
    }
}

} // verus!
