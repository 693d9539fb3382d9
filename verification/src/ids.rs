//! Fresh random identifiers.
use vstd::prelude::*;

verus! {

/// A lowercase hexadecimal digit.
pub open spec fn is_lower_hex(c: char) -> bool {
    ('0' <= c && c <= '9') || ('a' <= c && c <= 'f')
}

/// A fresh random identifier: `uuid::Uuid::new_v4()` written out by the
/// `Display` impl of `Uuid`, which gives the hyphenated form: 36 characters,
/// lowercase hexadecimal digits with hyphens after the 8th, 12th, 16th and
/// 20th, the 13th digit being the version `4` and the 17th one of `8`, `9`,
/// `a`, `b` (the variant bits `new_v4` sets). Which digits come out is
/// chance, so nothing more is stated of the value.
#[verifier::external_body]
pub(crate) fn random_uuid() -> (r: String)
    ensures
        r@.len() == 36,
        r@[8] == '-' && r@[13] == '-' && r@[18] == '-' && r@[23] == '-',
        r@[14] == '4',
        r@[19] == '8' || r@[19] == '9' || r@[19] == 'a' || r@[19] == 'b',
        forall|i: int|
            0 <= i < 36 && i != 8 && i != 13 && i != 18 && i != 23 ==> is_lower_hex(#[trigger] r@[i]),
{
    uuid::Uuid::new_v4().to_string()
}

} // verus!
