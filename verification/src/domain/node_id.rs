use vstd::prelude::*;

verus! {

/// The lower-case hexadecimal digit for `n` (`n < 16`).
pub open spec fn hex_digit(n: u128) -> char {
    if n < 10 {
        (48 + n) as char
    } else {
        (87 + n) as char
    }
}

/// The `i`-th four-bit group of `id`, counting from the most significant one.
pub open spec fn nibble(id: u128, i: int) -> u128 {
    (id >> ((124 - 4 * i) as u128)) & 15
}

/// The hyphenated text of a UUID whose 128 bits, most significant first, are `id`:
/// 32 lower-case hex digits in groups of 8, 4, 4, 4 and 12, joined by `-`.
pub open spec fn uuid_text(id: u128) -> Seq<char> {
    Seq::new(
        36,
        |p: int|
            if p == 8 || p == 13 || p == 18 || p == 23 {
                '-'
            } else if p < 8 {
                hex_digit(nibble(id, p))
            } else if p < 13 {
                hex_digit(nibble(id, p - 1))
            } else if p < 18 {
                hex_digit(nibble(id, p - 2))
            } else if p < 23 {
                hex_digit(nibble(id, p - 3))
            } else {
                hex_digit(nibble(id, p - 4))
            },
    )
}

/// Calls `uuid::Uuid::new_v4` and returns the UUID's 128 bits.
/// The bits are random; what holds of every outcome is that the version
/// field is 4 and the variant field is that of RFC 4122, as the crate's
/// source sets them with a mask.
#[verifier::external_body]
fn new_v4_bits() -> (bits: u128)
    ensures
        bits & 0xF000C000000000000000u128 == 0x40008000000000000000u128,
{
    uuid::Uuid::new_v4().as_u128()
}

/// Calls `uuid::Uuid::from_u128(bits).to_string()`: the hyphenated
/// lower-case text of the UUID with these bits.
#[verifier::external_body]
fn uuid_to_string(bits: u128) -> (s: String)
    ensures
        s@ == uuid_text(bits),
{
    uuid::Uuid::from_u128(bits).to_string()
}

/// Identifies a node of the cluster by a UUID, held as its 128 bits.
#[derive(Debug, Clone, Copy, PartialEq, Eq, Hash, Structural)]
pub struct NodeId(u128);

impl NodeId {
    pub closed spec fn bits(self) -> u128 {
        self.0
    }

    /// A fresh, random (version 4) identifier.
    pub fn new() -> (id: Self)
        ensures
            id.bits() & 0xF000C000000000000000u128 == 0x40008000000000000000u128,
    {
        Self(new_v4_bits())
    }

    pub fn from_u128(bits: u128) -> (id: Self)
        ensures
            id.bits() == bits,
    {
        Self(bits)
    }

    pub fn as_u128(&self) -> (bits: u128)
        ensures
            bits == self.bits(),
    {
        self.0
    }

    /// The text shown for this identifier: `[ ` then the first eleven
    /// characters of the UUID's hyphenated text, then `... ]`.
    pub open spec fn display_spec(self) -> Seq<char> {
        "[ "@ + uuid_text(self.bits()).subrange(0, 11) + "... ]"@
    }

    pub fn to_display_string(&self) -> (s: String)
        ensures
            s@ == self.display_spec(),
    {
        let text = uuid_to_string(self.0);
        let prefix = text.as_str().substring_char(0, 11);
        let s = String::from_str("[ ");
        let s = s.concat(prefix);
        s.concat("... ]")
    }
}

impl Default for NodeId {
    fn default() -> (id: Self)
        ensures
            id.bits() & 0xF000C000000000000000u128 == 0x40008000000000000000u128,
    {
        Self::new()
    }
}

} // verus!
