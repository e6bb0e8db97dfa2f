//! The headers of the handshake. A header value holds visible ASCII alone, so the name of the
//! machine goes in percent encoding.
use crate::percent;
use crate::percent::percent_encode;
use percent_encoding::percent_decode_str;
use vstd::prelude::*;
use vstd::utf8::*;

verus! {

pub const AUTHORIZATION: &'static str = "authorization";

pub const MACHINE: &'static str = "amux-machine";

/// `percent_encoding::percent_decode_str` and `PercentDecode::decode_utf8`: every `%` with two
/// hexadecimal digits behind it becomes the byte they stand for, and the bytes are then read as
/// UTF-8; an error where they are not.
#[verifier::external_body]
fn utf8_decode(value: &str) -> (r: Option<String>)
    ensures
        r is Some <==> percent::percent_decoded(value@) is Some,
        r matches Some(name) ==> Some(name@) == percent::percent_decoded(value@),
{
    percent_decode_str(value).decode_utf8().ok().map(|name| name.into_owned())
}

/// The name of a machine as a header value.
pub fn encode_machine(name: &str) -> (r: String)
    ensures
        r@ == percent::percent_text(encode_utf8(name@), false),
{
    percent_encode(name, false)
}

/// The name of a machine from a header value; nothing where its bytes are not UTF-8.
pub fn decode_machine(value: &str) -> (r: Option<String>)
    ensures
        r is Some <==> percent::percent_decoded(value@) is Some,
        r matches Some(name) ==> Some(name@) == percent::percent_decoded(value@),
{
    utf8_decode(value)
}

/// The header value of a machine's name is visible ASCII, and reading it gives the name back.
pub proof fn law_machine_header_round_trips(name: Seq<char>)
    ensures
        ({
            let value = percent::percent_text(encode_utf8(name), false);
            &&& percent::percent_decoded(value) == Some(name)
            &&& forall|i: int| 0 <= i < value.len() ==> '!' <= #[trigger] value[i] <= '~'
        }),
{
    percent::law_percent_decoding_undoes_encoding(name, false);
    percent::lemma_percent_text_visible(encode_utf8(name), false);
}

} // verus!
