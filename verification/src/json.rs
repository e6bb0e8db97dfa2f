//! JSON texts.
use crate::strings;
use crate::strings::decimal_of;
use vstd::prelude::*;

verus! {

/// A text as a string of JSON.
pub uninterp spec fn json_quoted(text: Seq<char>) -> Seq<char>;

/// `serde_json::to_string` of a `str` gives the string of JSON that stands for the text. It never
/// fails.
#[verifier::external_body]
pub(crate) fn json_quote(text: &str) -> (r: String)
    ensures
        r@ == json_quoted(text@),
{
    serde_json::to_string(text).unwrap_or_default()
}

/// A whole number as JSON writes it.
pub open spec fn json_int(n: int) -> Seq<char> {
    if n < 0 {
        seq!['-'] + strings::decimal((-n) as nat)
    } else {
        strings::decimal(n as nat)
    }
}

/// A whole number as JSON writes it.
pub fn json_int_of(n: i32) -> (r: String)
    ensures
        r@ == json_int(n as int),
{
    if n < 0 {
        let mut r: String = String::new();
        r.push('-');
        let size: i64 = -(n as i64);
        r.append(decimal_of(size as u64).as_str());
        proof {
            assert(r@ =~= json_int(n as int));
        }
        r
    } else {
        decimal_of(n as u64)
    }
}

/// An object with one member.
pub open spec fn member(key: Seq<char>, value: Seq<char>) -> Seq<char> {
    "{"@ + json_quoted(key) + ":"@ + value + "}"@
}

/// Writes an object with one member whose value is the given JSON text.
pub fn json_member(key: &str, value: &str) -> (r: String)
    ensures
        r@ == member(key@, value@),
{
    let mut r: String = "{".to_owned();
    r.append(json_quote(key).as_str());
    r.append(":");
    r.append(value);
    r.append("}");
    r
}

/// An object with two members.
pub open spec fn members2(
    key1: Seq<char>,
    value1: Seq<char>,
    key2: Seq<char>,
    value2: Seq<char>,
) -> Seq<char> {
    "{"@ + json_quoted(key1) + ":"@ + value1 + ","@ + json_quoted(key2) + ":"@ + value2 + "}"@
}

/// Writes an object with two members whose values are the given JSON texts.
pub fn json_members2(key1: &str, value1: &str, key2: &str, value2: &str) -> (r: String)
    ensures
        r@ == members2(key1@, value1@, key2@, value2@),
{
    let mut r: String = "{".to_owned();
    r.append(json_quote(key1).as_str());
    r.append(":");
    r.append(value1);
    r.append(",");
    r.append(json_quote(key2).as_str());
    r.append(":");
    r.append(value2);
    r.append("}");
    r
}

} // verus!
