use vstd::prelude::*;

use crate::utils::text::push_char;

verus! {

/// The lowercase hexadecimal digit of `0 <= n < 16`.
pub open spec fn hex_digit_lower(n: int) -> char {
    if n < 10 {
        (n + 48) as char
    } else {
        (n + 87) as char
    }
}

/// The uppercase hexadecimal digit of `0 <= n < 16`.
pub open spec fn hex_digit_upper(n: int) -> char {
    if n < 10 {
        (n + 48) as char
    } else {
        (n + 55) as char
    }
}

/// Two lowercase hexadecimal digits per byte, as `hex::encode` writes them.
pub open spec fn hex_text(b: Seq<u8>) -> Seq<char>
    decreases b.len(),
{
    if b.len() == 0 {
        Seq::empty()
    } else {
        hex_text(b.drop_last()) + seq![
            hex_digit_lower(b.last() as int / 16),
            hex_digit_lower(b.last() as int % 16),
        ]
    }
}

/// A byte that URI encoding leaves as it is: `A-Z a-z 0-9 - . _ ~`.
pub open spec fn is_unreserved(b: u8) -> bool {
    (65 <= b <= 90) || (97 <= b <= 122) || (48 <= b <= 57) || b == 45 || b == 46 || b == 95 || b
        == 126
}

/// The AWS URI encoding of one byte: unreserved bytes stay, `/` stays unless
/// slashes are encoded, every other byte becomes `%XY` in uppercase hexadecimal.
pub open spec fn uri_encode_byte(b: u8, encode_slash: bool) -> Seq<char> {
    if is_unreserved(b) {
        seq![b as char]
    } else if b == 47 && !encode_slash {
        seq!['/']
    } else {
        seq!['%', hex_digit_upper(b as int / 16), hex_digit_upper(b as int % 16)]
    }
}

/// The AWS URI encoding of a byte string.
pub open spec fn uri_encode_bytes(b: Seq<u8>, encode_slash: bool) -> Seq<char>
    decreases b.len(),
{
    if b.len() == 0 {
        Seq::empty()
    } else {
        uri_encode_bytes(b.drop_last(), encode_slash) + uri_encode_byte(b.last(), encode_slash)
    }
}

fn lower_hex_digit(n: u8) -> (c: char)
    requires
        n < 16,
    ensures
        c == hex_digit_lower(n as int),
{
    if n < 10 {
        (n + 48) as char
    } else {
        (n + 87) as char
    }
}

fn upper_hex_digit(n: u8) -> (c: char)
    requires
        n < 16,
    ensures
        c == hex_digit_upper(n as int),
{
    if n < 10 {
        (n + 48) as char
    } else {
        (n + 55) as char
    }
}

/// Lowercase hexadecimal text of the bytes.
pub fn hex_encode(bytes: &[u8]) -> (s: String)
    ensures
        s@ == hex_text(bytes@),
{
    let mut s = String::new();
    let mut i: usize = 0;
    while i < bytes.len()
        invariant
            i <= bytes@.len(),
            s@ == hex_text(bytes@.take(i as int)),
        decreases bytes@.len() - i,
    {
        let b = bytes[i];
        push_char(&mut s, lower_hex_digit(b / 16));
        push_char(&mut s, lower_hex_digit(b % 16));
        proof {
            let t = bytes@.take(i + 1);
            assert(t.drop_last() =~= bytes@.take(i as int));
            assert(t.last() == b);
        }
        i = i + 1;
    }
    proof {
        assert(bytes@.take(bytes@.len() as int) =~= bytes@);
    }
    s
}

/// URL encode using the custom AWS url encoding
pub fn aws_uri_encode(input: &str, encode_slash: bool) -> (output: String)
    ensures
        output@ == uri_encode_bytes(vstd::utf8::encode_utf8(input@), encode_slash),
{
    let bytes = input.as_bytes();
    let mut output = String::new();
    let mut i: usize = 0;
    while i < bytes.len()
        invariant
            i <= bytes@.len(),
            bytes@ == vstd::utf8::encode_utf8(input@),
            output@ == uri_encode_bytes(bytes@.take(i as int), encode_slash),
        decreases bytes@.len() - i,
    {
        let b = bytes[i];
        if (65 <= b && b <= 90) || (97 <= b && b <= 122) || (48 <= b && b <= 57) || b == 45 || b
            == 46 || b == 95 || b == 126 {
            push_char(&mut output, b as char);
        } else if b == 47 && !encode_slash {
            push_char(&mut output, '/');
        } else {
            push_char(&mut output, '%');
            push_char(&mut output, upper_hex_digit(b / 16));
            push_char(&mut output, upper_hex_digit(b % 16));
        }
        proof {
            let t = bytes@.take(i + 1);
            assert(t.drop_last() =~= bytes@.take(i as int));
            assert(t.last() == b);
        }
        i = i + 1;
    }
    proof {
        assert(bytes@.take(bytes@.len() as int) =~= bytes@);
    }
    output
}

/// A character an AWS URI encoding may hold: an unreserved ASCII character,
/// `%`, an uppercase hexadecimal digit, and `/` when slashes are kept.
pub open spec fn is_uri_safe_char(c: char, encode_slash: bool) -> bool {
    ||| ('A' <= c <= 'Z') || ('a' <= c <= 'z') || ('0' <= c <= '9')
    ||| c == '-' || c == '.' || c == '_' || c == '~' || c == '%'
    ||| (c == '/' && !encode_slash)
}

/// An AWS URI encoding holds only URI-safe characters, and a slash only when
/// slashes are kept.
pub proof fn lemma_uri_encoding_is_safe(b: Seq<u8>, encode_slash: bool)
    ensures
        forall|i: int| 0 <= i < uri_encode_bytes(b, encode_slash).len() ==> is_uri_safe_char(
            #[trigger] uri_encode_bytes(b, encode_slash)[i],
            encode_slash,
        ),
    decreases b.len(),
{
    if b.len() > 0 {
        lemma_uri_encoding_is_safe(b.drop_last(), encode_slash);
        let prefix = uri_encode_bytes(b.drop_last(), encode_slash);
        let last = uri_encode_byte(b.last(), encode_slash);
        let x = b.last();
        assert(x as int / 16 < 16 && x as int % 16 < 16);
        assert forall|i: int| 0 <= i < (prefix + last).len() implies is_uri_safe_char(
            #[trigger] (prefix + last)[i],
            encode_slash,
        ) by {
            if i >= prefix.len() {
                let j = i - prefix.len();
                if is_unreserved(x) {
                    assert(last[j] == x as char);
                }
            } else {
                assert((prefix + last)[i] == prefix[i]);
            }
        }
        assert(uri_encode_bytes(b, encode_slash) == prefix + last);
    }
}

/// Hexadecimal text has two lowercase digits per byte.
pub proof fn lemma_hex_text_shape(b: Seq<u8>)
    ensures
        hex_text(b).len() == 2 * b.len(),
        forall|i: int| 0 <= i < hex_text(b).len() ==> {
            let c = #[trigger] hex_text(b)[i];
            ('0' <= c <= '9') || ('a' <= c <= 'f')
        },
    decreases b.len(),
{
    if b.len() > 0 {
        lemma_hex_text_shape(b.drop_last());
        let x = b.last();
        assert(x as int / 16 < 16 && x as int % 16 < 16);
        let prefix = hex_text(b.drop_last());
        assert forall|i: int| 0 <= i < hex_text(b).len() implies {
            let c = #[trigger] hex_text(b)[i];
            ('0' <= c <= '9') || ('a' <= c <= 'f')
        } by {
            if i < prefix.len() {
                assert(hex_text(b)[i] == prefix[i]);
            }
        }
    }
}

} // verus!
