//! Fresh identities.
use vstd::prelude::*;

verus! {

/// A digit of lower-case hexadecimal.
pub open spec fn hex_digit(c: char) -> bool {
    ('0' <= c <= '9') || ('a' <= c <= 'f')
}

/// The form of an identity: thirty-two hexadecimal digits in five groups.
pub open spec fn hyphenated(id: Seq<char>) -> bool {
    &&& id.len() == 36
    &&& forall|i: int|
        0 <= i < 36 ==> if i == 8 || i == 13 || i == 18 || i == 23 {
            #[trigger] id[i] == '-'
        } else {
            hex_digit(id[i])
        }
}

/// The form of an identity without its hyphens.
pub open spec fn simple(id: Seq<char>) -> bool {
    id.len() == 32 && forall|i: int| 0 <= i < 32 ==> hex_digit(#[trigger] id[i])
}

/// `uuid::Uuid::new_v4` in its usual form: hexadecimal digits of lower case in groups of eight,
/// four, four, four and twelve. Which digits they are is a matter of chance.
#[verifier::external_body]
pub(crate) fn new_id() -> (r: String)
    ensures
        hyphenated(r@),
{
    uuid::Uuid::new_v4().to_string()
}

/// `uuid::Uuid::new_v4` in the form that `Uuid::simple` gives: thirty-two hexadecimal digits of
/// lower case. Which digits they are is a matter of chance.
#[verifier::external_body]
pub(crate) fn new_simple_id() -> (r: String)
    ensures
        simple(r@),
{
    uuid::Uuid::new_v4().simple().to_string()
}

} // verus!
