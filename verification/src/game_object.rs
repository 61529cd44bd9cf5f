use vstd::arithmetic::power::pow;
use vstd::prelude::*;

use crate::geometry::{Rotation, Vector2Int};
use crate::render::Render;

verus! {

/// A game object placed in the world.
pub trait GameObject: Render {
    fn position(&self) -> Vector2Int;

    fn rotation(&self) -> Rotation;

    fn id(&self) -> GameObjectId;
}

/// Identity of a game object: the 128-bit value of a random (version 4) UUID.
#[derive(Debug, PartialEq, Eq, Hash, Clone, Copy, Structural)]
pub struct GameObjectId {
    value: u128,
}

/// Calls `uuid::Uuid::new_v4` and returns the UUID as its big-endian 128-bit value.
/// The uuid source builds the value from random bits, then forces the version nibble to 4
/// and the variant bits to `10`; that is all this claims of the result.
#[verifier::external_body]
fn random_uuid_v4_value() -> (r: u128)
    ensures
        r & 0xF000C000000000000000u128 == 0x40008000000000000000u128,
{
    uuid::Uuid::new_v4().as_u128()
}

/// The lower-case hexadecimal digit of `d`, for `d` below 16.
pub open spec fn hex_digit(d: int) -> char {
    if d < 10 {
        (('0' as u32) + d) as char
    } else {
        (('a' as u32) + d - 10) as char
    }
}

/// The hyphenated text of a UUID value: its 32 lower-case hexadecimal digits, most
/// significant first, in groups of 8, 4, 4, 4 and 12 separated by hyphens.
pub open spec fn spec_uuid_text(value: u128) -> Seq<char> {
    Seq::new(
        36,
        |i: int| {
            let hyphens_before: int = if i > 23 { 4 } else if i > 18 { 3 } else if i > 13 { 2 } else if i > 8 { 1 } else { 0 };
            if i == 8 || i == 13 || i == 18 || i == 23 {
                '-'
            } else {
                hex_digit((value as int / pow(16, (31 - (i - hyphens_before)) as nat)) % 16)
            }
        },
    )
}

/// Calls `uuid::Uuid::from_u128` and formats the UUID with `Display`, which the uuid source
/// writes as the hyphenated lower-case hexadecimal form of the big-endian value.
#[verifier::external_body]
fn uuid_text(value: u128) -> (r: String)
    ensures
        r@ == spec_uuid_text(value),
{
    uuid::Uuid::from_u128(value).to_string()
}

impl GameObjectId {
    /// The identity as UUID text, hyphenated lower-case hexadecimal.
    pub fn to_string(&self) -> (r: String)
        ensures
            r@ == spec_uuid_text(self.spec_value()),
    {
        uuid_text(self.value)
    }

    pub closed spec fn spec_value(self) -> u128 {
        self.value
    }

    /// Whether the identity has the version (4) and variant bits of a random UUID, as every
    /// identity drawn by `new` has.
    pub open spec fn is_random_v4(self) -> bool {
        self.spec_value() & 0xF000C000000000000000u128 == 0x40008000000000000000u128
    }

    /// A fresh identity from a random version 4 UUID.
    pub fn new() -> (r: Self)
        ensures
            r.spec_value() & 0xF000C000000000000000u128 == 0x40008000000000000000u128,
    {
        GameObjectId { value: random_uuid_v4_value() }
    }

    /// The UUID value of this identity.
    pub fn value(self) -> (r: u128)
        ensures
            r == self.spec_value(),
    {
        self.value
    }

    /// Identities are equal exactly when their UUID values are.
    pub proof fn lemma_value_identifies(a: Self, b: Self)
        ensures
            (a == b) == (a.spec_value() == b.spec_value()),
    {
    }
}

impl Default for GameObjectId {
    fn default() -> (r: Self)
        ensures
            r.spec_value() & 0xF000C000000000000000u128 == 0x40008000000000000000u128,
    {
        Self::new()
    }
}

} // verus!
