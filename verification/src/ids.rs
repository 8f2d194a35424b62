use vstd::prelude::*;

verus! {

/// Is `c` a lowercase hexadecimal digit?
pub open spec fn is_lower_hex(c: char) -> bool {
    ('0' as int <= c as int && c as int <= '9' as int) || ('a' as int <= c as int && c as int
        <= 'f' as int)
}

/// The text of a random (version 4) UUID in hyphenated lowercase form,
/// e.g. `67e55044-10b1-426f-9247-bb680e5fe0c8`.
pub open spec fn is_uuid_v4_text(s: Seq<char>) -> bool {
    &&& s.len() == 36
    &&& forall|i: int|
        #![trigger s[i]]
        0 <= i < 36 ==> if i == 8 || i == 13 || i == 18 || i == 23 {
            s[i] == '-'
        } else {
            is_lower_hex(s[i])
        }
    &&& s[14] == '4'
    &&& (s[19] == '8' || s[19] == '9' || s[19] == 'a' || s[19] == 'b')
}

/// A fresh identifier for a new record: `uuid::Uuid::new_v4()` rendered
/// through its `Display` impl.
///
/// Trusted: the uuid crate masks the random bits so that the version nibble
/// is 4 and the variant is RFC 4122, and `Display` writes the hyphenated
/// lowercase form (36 characters). Which random bits come out is not
/// stated. `new_v4` panics only when the operating system cannot supply
/// random bytes.
#[verifier::external_body]
pub(crate) fn new_id() -> (id: String)
    ensures
        is_uuid_v4_text(id@),
{
    uuid::Uuid::new_v4().to_string()
}

} // verus!
