//! Touching the bytes of a buffer.

use vstd::prelude::*;

verus! {

/// Bytes whose first one is replaced, if there is one.
pub open spec fn with_first(bytes: Seq<u8>, value: u8) -> Seq<u8> {
    if bytes.len() > 0 {
        bytes.update(0, value)
    } else {
        bytes
    }
}

/// Bytes whose first and last ones are set to one, if there are any.
pub open spec fn with_ends_marked(bytes: Seq<u8>) -> Seq<u8> {
    if bytes.len() > 0 {
        bytes.update(0, 1).update(bytes.len() - 1, 1)
    } else {
        bytes
    }
}

/// Replaces the first byte, if there is one.
pub fn set_first(buffer: &mut [u8], value: u8)
    ensures
        final(buffer)@ == with_first(old(buffer)@, value),
{
    if buffer.len() > 0 {
        buffer[0] = value;
    }
}

/// Sets the first and the last byte to one, if there are any.
pub fn mark_ends(buffer: &mut [u8])
    ensures
        final(buffer)@ == with_ends_marked(old(buffer)@),
{
    let len: usize = buffer.len();
    if len > 0 {
        buffer[0] = 1;
        if len > 1 {
            buffer[len - 1] = 1;
        } else {
            assert(buffer@ =~= with_ends_marked(old(buffer)@));
        }
    }
}

/// Touching bytes changes the first one, or the two at the ends, and no other.
pub proof fn law_touching_changes_only_the_ends(bytes: Seq<u8>, value: u8, k: int)
    requires
        0 <= k < bytes.len(),
    ensures
        with_first(bytes, value).len() == bytes.len(),
        with_first(bytes, value)[k] == (if k == 0 {
            value
        } else {
            bytes[k]
        }),
        with_ends_marked(bytes).len() == bytes.len(),
        with_ends_marked(bytes)[k] == (if k == 0 || k == bytes.len() - 1 {
            1
        } else {
            bytes[k]
        }),
{
}

} // verus!
