//! Identifiers: 128-bit numbers that are written as UUIDs.

use vstd::prelude::*;

verus! {

/// The lower-case hexadecimal digit with value `d`.
pub open spec fn hex_digit(d: int) -> char {
    if d < 10 {
        (d + 48) as char
    } else {
        (d + 87) as char
    }
}

/// The last `len` hexadecimal digits of `n`.
pub open spec fn hex_digits(n: int, len: nat) -> Seq<char>
    decreases len,
{
    if len == 0 {
        seq![]
    } else {
        hex_digits(n / 16, (len - 1) as nat).push(hex_digit(n % 16))
    }
}

/// The 32 hexadecimal digits of an identifier with a hyphen behind the 8th, 12th, 16th and 20th.
pub open spec fn hyphenated(id: u128) -> Seq<char> {
    let digits = hex_digits(id as int, 32);
    digits.subrange(0, 8) + seq!['-'] + digits.subrange(8, 12) + seq!['-'] + digits.subrange(12, 16)
        + seq!['-'] + digits.subrange(16, 20) + seq!['-'] + digits.subrange(20, 32)
}

/// The identifier that `Uuid::parse_str` reads from a text, if it reads one.
pub uninterp spec fn uuid_parsed(text: Seq<char>) -> Option<u128>;

/// Whether an identifier has the version and variant bits of a random UUID.
pub open spec fn is_random_id(id: u128) -> bool {
    id & 0xf000_c000_0000_0000_0000 == 0x4000_8000_0000_0000_0000
}

/// `Uuid::new_v4` gives a random identifier of version 4. Nothing else is known of it.
#[verifier::external_body]
pub(crate) fn fresh_id() -> (id: u128)
    ensures
        is_random_id(id),
{
    uuid::Uuid::new_v4().as_u128()
}

/// A `uuid::Uuid` is displayed as its 32 lower-case hexadecimal digits in five groups.
#[verifier::external_body]
pub(crate) fn id_text(id: u128) -> (text: String)
    ensures
        text@ == hyphenated(id),
{
    uuid::Uuid::from_u128(id).to_string()
}

/// `Uuid::parse_str` reads the displayed form back. What it makes of other texts depends on the
/// text alone.
#[verifier::external_body]
pub(crate) fn parse_id(text: &str) -> (id: Option<u128>)
    ensures
        id == uuid_parsed(text@),
        forall|written: u128| text@ == #[trigger] hyphenated(written) ==> id == Some(written),
{
    uuid::Uuid::parse_str(text).ok().map(|id| id.as_u128())
}

/// Whether a text is a random identifier in its displayed form.
pub open spec fn is_random_text(text: Seq<char>) -> bool {
    exists|id: u128| is_random_id(id) && text == #[trigger] hyphenated(id)
}

/// A new random identifier in its displayed form.
pub fn new_id_text() -> (text: String)
    ensures
        is_random_text(text@),
{
    id_text(fresh_id())
}

/// Whether a text is an identifier.
pub fn is_id(text: &str) -> (yes: bool)
    ensures
        yes == (uuid_parsed(text@) is Some),
        (exists|id: u128| text@ == #[trigger] hyphenated(id)) ==> yes,
{
    parse_id(text).is_some()
}

} // verus!
