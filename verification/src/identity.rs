//! Identities of blocks: the key by which a click finds its block.

use vstd::prelude::*;

verus! {

/// `c` is a decimal digit or a lower-case letter from `a` to `f`.
pub open spec fn is_hex_digit(c: char) -> bool {
    ('0' as u32 <= c as u32 <= '9' as u32) || ('a' as u32 <= c as u32 <= 'f' as u32)
}

/// `id` has the shape of a generated identity: thirty-two hexadecimal digits.
pub open spec fn is_generated(id: Seq<char>) -> bool {
    id.len() == 32 && forall|i: int| 0 <= i < id.len() ==> is_hex_digit(#[trigger] id[i])
}

/// Draws a random identity: `uuid::Uuid::new_v4`, written by
/// `Uuid::to_simple` as thirty-two lower-case hexadecimal digits without
/// hyphens. Nothing is claimed of which digits come out, nor that two calls
/// differ. `new_v4` panics where the system has no random bytes to give.
#[verifier::external_body]
pub(crate) fn fresh_identity() -> (id: String)
    ensures
        is_generated(id@),
{
    uuid::Uuid::new_v4().to_simple().to_string()
}

} // verus!
