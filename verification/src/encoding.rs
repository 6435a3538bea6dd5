//! Percent-encoding of text for URL paths and query values, done by the
//! `urlencoding` crate.
use vstd::prelude::*;
use vstd::utf8::encode_utf8;

verus! {

/// Bytes that `urlencoding` leaves as they are: ASCII letters and digits,
/// `-`, `.`, `_` and `~`.
pub open spec fn is_unreserved(b: u8) -> bool {
    ||| 48 <= b <= 57
    ||| 65 <= b <= 90
    ||| 97 <= b <= 122
    ||| b == 45
    ||| b == 46
    ||| b == 95
    ||| b == 126
}

/// The upper-case hexadecimal digit for `d` (below sixteen).
pub open spec fn hex_digit(d: u8) -> char {
    if d < 10 {
        (48 + d) as char
    } else {
        (55 + d) as char
    }
}

/// One byte, percent-encoded: itself when unreserved, else `%` and its two
/// upper-case hexadecimal digits.
pub open spec fn encode_byte(b: u8) -> Seq<char> {
    if is_unreserved(b) {
        seq![b as char]
    } else {
        seq!['%', hex_digit(b / 16), hex_digit(b % 16)]
    }
}

/// Each byte of `b` percent-encoded, in order.
pub open spec fn percent_encode_bytes(b: Seq<u8>) -> Seq<char>
    decreases b.len(),
{
    if b.len() == 0 {
        seq![]
    } else {
        encode_byte(b[0]) + percent_encode_bytes(b.drop_first())
    }
}

/// The percent-encoding of the UTF-8 bytes of `s`.
pub open spec fn url_encoded(s: Seq<char>) -> Seq<char> {
    percent_encode_bytes(encode_utf8(s))
}

/// `urlencoding::encode`: percent-encodes every byte of the UTF-8 text except
/// ASCII letters, digits, `-`, `.`, `_` and `~`, with upper-case hexadecimal
/// digits.  The contract states exactly that, byte by byte.
#[verifier::external_body]
pub(crate) fn url_encode(s: &str) -> (r: String)
    ensures
        r@ == url_encoded(s@),
{
    urlencoding::encode(s).into_owned()
}

/// Characters that can stand in a percent-encoded text.
pub open spec fn is_encoded_char(c: char) -> bool {
    ||| 48 <= c as u32 <= 57
    ||| 65 <= c as u32 <= 90
    ||| 97 <= c as u32 <= 122
    ||| c == '-'
    ||| c == '.'
    ||| c == '_'
    ||| c == '~'
    ||| c == '%'
}

/// Law: an encoded text holds only ASCII letters, digits, `-`, `.`, `_`, `~`
/// and `%`; in particular no `/`, `?`, `&` or `=`, so it stays one path
/// segment or one query value.
pub proof fn lemma_encoded_text_is_url_safe(b: Seq<u8>)
    ensures
        forall|i: int|
            0 <= i < percent_encode_bytes(b).len() ==> is_encoded_char(
                #[trigger] percent_encode_bytes(b)[i],
            ),
    decreases b.len(),
{
    if b.len() > 0 {
        lemma_encoded_text_is_url_safe(b.drop_first());
        let head = encode_byte(b[0]);
        let rest = percent_encode_bytes(b.drop_first());
        assert forall|i: int| 0 <= i < head.len() implies is_encoded_char(#[trigger] head[i]) by {
            if !is_unreserved(b[0]) {
                assert(b[0] / 16 < 16);
                assert(b[0] % 16 < 16);
            }
        }
        assert forall|i: int|
            0 <= i < percent_encode_bytes(b).len() implies is_encoded_char(
                #[trigger] percent_encode_bytes(b)[i],
            ) by {
            if i < head.len() {
                assert(percent_encode_bytes(b)[i] == head[i]);
            } else {
                assert(percent_encode_bytes(b)[i] == rest[i - head.len()]);
            }
        }
    }
}

} // verus!
