//! Time stamps and identifiers from the system: which value comes out is
//! not known in advance, so only its shape is promised.
use vstd::prelude::*;

verus! {

/// The current time in RFC 3339 form, from `chrono::Utc::now` and
/// `DateTime::to_rfc3339`; the value depends on the clock, so no property
/// of it is stated.
#[verifier::external_body]
pub(crate) fn now_rfc3339() -> (r: String) {
    chrono::Utc::now().to_rfc3339()
}

/// A lowercase hexadecimal digit.
pub open spec fn is_lower_hex(c: char) -> bool {
    (48 <= (c as u32) && (c as u32) <= 57) || (97 <= (c as u32) && (c as u32) <= 102)
}

/// A fresh random identifier, from `uuid::Uuid::new_v4` rendered by its
/// `Display` (the hyphenated lowercase form); which identifier comes out is
/// random, so only its shape is stated: 36 characters, hyphens at positions
/// 8, 13, 18 and 23, lowercase hexadecimal digits elsewhere.
#[verifier::external_body]
pub(crate) fn new_uuid() -> (r: String)
    ensures
        r@.len() == 36,
        forall|i: int| 0 <= i < 36 ==> if i == 8 || i == 13 || i == 18 || i == 23 {
            #[trigger] r@[i] == '-'
        } else {
            is_lower_hex(r@[i])
        },
{
    uuid::Uuid::new_v4().to_string()
}

/// A fresh random identifier in the simple form, from `uuid::Uuid::new_v4`
/// and `Uuid::simple`; which identifier comes out is random, so only its
/// shape is stated: 32 lowercase hexadecimal digits.
#[verifier::external_body]
pub(crate) fn new_uuid_simple() -> (r: String)
    ensures
        r@.len() == 32,
        forall|i: int| 0 <= i < 32 ==> is_lower_hex(#[trigger] r@[i]),
{
    uuid::Uuid::new_v4().simple().to_string()
}

} // verus!
