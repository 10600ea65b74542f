//! Identifiers: the bits of UUIDs, and their text.

use vstd::prelude::*;

verus! {

/// A hexadecimal digit in lower case.
pub open spec fn hex_char(d: int) -> char {
    if d < 10 {
        ('0' as int + d) as char
    } else {
        ('a' as int + d - 10) as char
    }
}

pub open spec fn pow16(n: nat) -> nat
    decreases n,
{
    if n == 0 {
        1
    } else {
        16 * pow16((n - 1) as nat)
    }
}

/// The lowest `n` hexadecimal digits of `id`, most significant first.
pub open spec fn hex_digits(id: nat, n: nat) -> Seq<char> {
    Seq::new(n, |i: int| hex_char((id / pow16((n - 1 - i) as nat)) as int % 16))
}

/// The text of an identifier: its digits in groups of eight, four, four, four
/// and twelve, with dashes between them.
pub open spec fn uuid_text(id: u128) -> Seq<char> {
    let d = hex_digits(id as nat, 32);
    d.subrange(0, 8) + seq!['-'] + d.subrange(8, 12) + seq!['-'] + d.subrange(12, 16) + seq!['-']
        + d.subrange(16, 20) + seq!['-'] + d.subrange(20, 32)
}

/// The identifier that a text stands for.
pub uninterp spec fn uuid_in(s: Seq<char>) -> Option<u128>;

/// `uuid::Uuid`'s `to_string`: the hyphenated form in lower case.
#[verifier::external_body]
pub(crate) fn write_uuid(id: u128) -> (r: String)
    ensures
        r@ == uuid_text(id),
{
    uuid::Uuid::from_u128(id).to_string()
}

/// `uuid::Uuid::parse_str`. Its result depends on the text alone, and what
/// `to_string` wrote reads back as the identifier that it was written for.
#[verifier::external_body]
pub(crate) fn read_uuid(s: &str) -> (r: Option<u128>)
    ensures
        r == uuid_in(s@),
        forall|id: u128| s@ == #[trigger] uuid_text(id) ==> r == Some(id),
{
    uuid::Uuid::parse_str(s).ok().map(|u| u.as_u128())
}

/// The bits that mark a random identifier: version four, and the variant of
/// the standard.
pub open spec fn is_random_uuid(id: u128) -> bool {
    (id as nat / pow16(19)) % 16 == 4 && 8 <= (id as nat / pow16(15)) % 16 < 12
}

/// `uuid::Uuid::new_v4`: a random identifier.
#[verifier::external_body]
pub(crate) fn new_uuid() -> (r: u128)
    ensures
        is_random_uuid(r),
{
    uuid::Uuid::new_v4().as_u128()
}

} // verus!
