//! Registering a folder: the identifier a new folder entry gets.
use vstd::prelude::*;

verus! {

/// A lower-case hexadecimal digit.
pub open spec fn is_lower_hex(c: char) -> bool {
    ('0' <= c && c <= '9') || ('a' <= c && c <= 'f')
}

/// The hyphenated lower-case text of a random (version 4, RFC 4122 variant)
/// UUID: `xxxxxxxx-xxxx-4xxx-yxxx-xxxxxxxxxxxx` with `y` one of `8 9 a b`.
pub open spec fn is_v4_uuid_text(s: Seq<char>) -> bool {
    &&& s.len() == 36
    &&& forall|i: int|
        0 <= i < 36 ==> if i == 8 || i == 13 || i == 18 || i == 23 {
            s[i] == '-'
        } else {
            is_lower_hex(#[trigger] s[i])
        }
    &&& s[14] == '4'
    &&& (s[19] == '8' || s[19] == '9' || s[19] == 'a' || s[19] == 'b')
}

/// `uuid::Uuid::new_v4().to_string()`: a random UUID with its version and
/// variant bits set, written hyphenated in lower case. Which UUID comes out
/// is left open. It stops with a panic only when the operating system's
/// random source fails.
#[verifier::external_body]
fn new_uuid_v4() -> (r: String)
    ensures
        is_v4_uuid_text(r@),
{
    uuid::Uuid::new_v4().to_string()
}

/// Given the uuid already stored for a folder path, if any, decides what to
/// insert: nothing when the folder is registered, otherwise a fresh random
/// uuid for the new entry. Adding a folder twice therefore changes nothing
/// the second time.
pub fn plan_folder_insert(existing_uuid: Option<String>) -> (r: Option<String>)
    ensures
        existing_uuid is Some <==> r is None,
        r matches Some(u) ==> is_v4_uuid_text(u@),
{
    match existing_uuid {
        Some(_) => None,
        None => Some(new_uuid_v4()),
    }
}

} // verus!
