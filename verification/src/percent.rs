//! Percent encoding: the bytes of a text with all but a few characters written as `%XX`.
use percent_encoding::percent_encode_byte;
use vstd::prelude::*;
use vstd::utf8::*;

verus! {

/// A value below sixteen as a digit of upper-case hexadecimal.
pub open spec fn hex_char(d: int) -> char {
    if d < 10 {
        (48 + d) as char
    } else {
        (55 + d) as char
    }
}

/// The value of a hexadecimal digit of either case.
pub open spec fn hex_value(b: u8) -> Option<int> {
    if 48 <= b <= 57 {
        Some(b - 48)
    } else if 65 <= b <= 70 {
        Some(b - 55)
    } else if 97 <= b <= 102 {
        Some(b - 87)
    } else {
        None
    }
}

/// The bytes that stand for themselves: letters, digits, `-`, `.`, `_`, `~`, and with `slash`
/// also `/`.
pub open spec fn kept(b: u8, slash: bool) -> bool {
    ||| 48 <= b <= 57
    ||| 65 <= b <= 90
    ||| 97 <= b <= 122
    ||| b == 45
    ||| b == 46
    ||| b == 95
    ||| b == 126
    ||| (slash && b == 47)
}

/// One byte in percent encoding.
pub open spec fn escaped(b: u8, slash: bool) -> Seq<char> {
    if kept(b, slash) {
        seq![b as char]
    } else {
        seq!['%', hex_char(b as int / 16), hex_char(b as int % 16)]
    }
}

/// Bytes in percent encoding.
pub open spec fn percent_text(bytes: Seq<u8>, slash: bool) -> Seq<char>
    decreases bytes.len(),
{
    if bytes.len() == 0 {
        Seq::empty()
    } else {
        escaped(bytes[0], slash) + percent_text(bytes.skip(1), slash)
    }
}

/// The bytes that a percent encoding stands for. A `%` without two hexadecimal digits behind it
/// stands for itself.
pub open spec fn unescaped(bytes: Seq<u8>) -> Seq<u8>
    decreases bytes.len(),
{
    if bytes.len() == 0 {
        Seq::empty()
    } else if bytes[0] == 37 && bytes.len() >= 3 && hex_value(bytes[1]) is Some && hex_value(
        bytes[2],
    ) is Some {
        seq![(16 * hex_value(bytes[1])->0 + hex_value(bytes[2])->0) as u8] + unescaped(
            bytes.skip(3),
        )
    } else {
        seq![bytes[0]] + unescaped(bytes.skip(1))
    }
}

/// The text whose bytes a percent encoding stands for, where they are UTF-8.
pub open spec fn percent_decoded(value: Seq<char>) -> Option<Seq<char>> {
    let bytes = unescaped(encode_utf8(value));
    if valid_utf8(bytes) {
        Some(decode_utf8(bytes))
    } else {
        None
    }
}

/// A percent encoding holds nothing but visible ASCII characters.
pub proof fn lemma_percent_text_visible(bytes: Seq<u8>, slash: bool)
    ensures
        forall|i: int|
            0 <= i < percent_text(bytes, slash).len() ==> '!' <= #[trigger] percent_text(
                bytes,
                slash,
            )[i] <= '~',
    decreases bytes.len(),
{
    if bytes.len() > 0 {
        lemma_percent_text_visible(bytes.skip(1), slash);
        let head = escaped(bytes[0], slash);
        let tail = percent_text(bytes.skip(1), slash);
        let b = bytes[0] as int;
        assert(0 <= b / 16 < 16 && 0 <= b % 16 < 16);
        assert forall|i: int| 0 <= i < (head + tail).len() implies '!' <= #[trigger] (head
            + tail)[i] <= '~' by {
            if i < head.len() {
                assert((head + tail)[i] == head[i]);
            } else {
                assert((head + tail)[i] == tail[i - head.len()]);
            }
        }
    }
}

proof fn lemma_unescaped_head(b: u8, slash: bool, rest: Seq<u8>)
    ensures
        ({
            let e = escaped(b, slash);
            unescaped(Seq::new(e.len(), |i: int| e[i] as u8) + rest) == seq![b] + unescaped(rest)
        }),
{
    let e = escaped(b, slash);
    let bytes = Seq::new(e.len(), |i: int| e[i] as u8) + rest;
    if kept(b, slash) {
        assert(bytes[0] == b);
        assert(bytes.skip(1) =~= rest);
    } else {
        let x = b as int;
        assert(0 <= x / 16 < 16 && 0 <= x % 16 < 16 && x == 16 * (x / 16) + x % 16);
        assert(bytes[0] == 37);
        assert(hex_value(bytes[1]) == Some(x / 16));
        assert(hex_value(bytes[2]) == Some(x % 16));
        assert(bytes.skip(3) =~= rest);
    }
}

/// Undoing a percent encoding gives the bytes back.
pub proof fn law_unescaped_undoes_percent_text(bytes: Seq<u8>, slash: bool)
    ensures
        unescaped(encode_utf8(percent_text(bytes, slash))) == bytes,
    decreases bytes.len(),
{
    let text = percent_text(bytes, slash);
    lemma_percent_text_visible(bytes, slash);
    assert(is_ascii_chars(text));
    is_ascii_chars_encode_utf8(text);
    if bytes.len() > 0 {
        law_unescaped_undoes_percent_text(bytes.skip(1), slash);
        let tail = percent_text(bytes.skip(1), slash);
        lemma_percent_text_visible(bytes.skip(1), slash);
        is_ascii_chars_encode_utf8(tail);
        let e = escaped(bytes[0], slash);
        assert(encode_utf8(text) =~= Seq::new(e.len(), |i: int| e[i] as u8) + encode_utf8(tail));
        lemma_unescaped_head(bytes[0], slash, encode_utf8(tail));
        assert(seq![bytes[0]] + bytes.skip(1) =~= bytes);
    } else {
        assert(bytes =~= Seq::empty());
    }
}

/// Decoding a percent-encoded text gives the text back.
pub proof fn law_percent_decoding_undoes_encoding(text: Seq<char>, slash: bool)
    ensures
        percent_decoded(percent_text(encode_utf8(text), slash)) == Some(text),
{
    law_unescaped_undoes_percent_text(encode_utf8(text), slash);
    encode_utf8_valid_utf8(text);
    encode_utf8_decode_utf8(text);
}

/// `percent_encoding::percent_encode_byte` gives a byte as `%` and two upper-case hexadecimal
/// digits.
pub assume_specification[ percent_encoding::percent_encode_byte ](byte: u8) -> (r: &'static str)
    ensures
        r@ == seq!['%', hex_char(byte as int / 16), hex_char(byte as int % 16)],
;

/// Writes a text in percent encoding.
pub fn percent_encode(text: &str, slash: bool) -> (r: String)
    ensures
        r@ == percent_text(encode_utf8(text@), slash),
{
    let bytes: &[u8] = text.as_bytes();
    let mut out: String = String::new();
    let mut i: usize = 0;
    proof {
        assert(bytes@.skip(0) == bytes@);
        assert(out@ + percent_text(bytes@, slash) =~= percent_text(bytes@, slash));
    }
    while i < bytes.len()
        invariant
            0 <= i <= bytes@.len(),
            out@ + percent_text(bytes@.skip(i as int), slash) == percent_text(bytes@, slash),
        decreases bytes.len() - i,
    {
        let b: u8 = bytes[i];
        let ghost before = out@;
        let ghost rest = bytes@.skip(i as int);
        if (48 <= b && b <= 57) || (65 <= b && b <= 90) || (97 <= b && b <= 122) || b == 45 || b
            == 46 || b == 95 || b == 126 || (slash && b == 47) {
            out.push(b as char);
        } else {
            out.append(percent_encode_byte(b));
        }
        proof {
            assert(out@ =~= before + escaped(b, slash));
            assert(rest.skip(1) =~= bytes@.skip(i + 1));
            assert(before + (escaped(b, slash) + percent_text(rest.skip(1), slash)) =~= out@
                + percent_text(rest.skip(1), slash));
        }
        i = i + 1;
    }
    proof {
        assert(bytes@.skip(i as int) =~= Seq::empty());
        assert(out@ + Seq::<char>::empty() =~= out@);
    }
    out
}

} // verus!
