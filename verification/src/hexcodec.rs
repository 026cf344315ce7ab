use vstd::prelude::*;

verus! {

/// The lowercase hex digit for `n` (0..=15).
pub open spec fn hex_digit(n: u8) -> char {
    if n < 10 {
        ((48 + n) as u32) as char
    } else {
        ((87 + n) as u32) as char
    }
}

/// `c` is a hex digit of either case.
pub open spec fn is_hex_char(c: char) -> bool {
    ('0' <= c && c <= '9') || ('a' <= c && c <= 'f') || ('A' <= c && c <= 'F')
}

/// The value of a hex digit of either case.
pub open spec fn hex_value(c: char) -> u8 {
    if '0' <= c && c <= '9' {
        (c as u32 - 48) as u8
    } else if 'a' <= c && c <= 'f' {
        (c as u32 - 87) as u8
    } else {
        (c as u32 - 55) as u8
    }
}

/// Lowercase hex of `data`: two digits per byte, high nibble first.
pub open spec fn hex_lower(data: Seq<u8>) -> Seq<char> {
    Seq::new(
        2 * data.len(),
        |i: int|
            if i % 2 == 0 {
                hex_digit(data[i / 2] / 16)
            } else {
                hex_digit(data[i / 2] % 16)
            },
    )
}

/// The bytes a hex string stands for: none unless every character is a hex digit (of
/// either case) and there is an even number of them.
pub open spec fn hex_decode_spec(s: Seq<char>) -> Option<Seq<u8>> {
    if exists|i: int| 0 <= i < s.len() && !is_hex_char(#[trigger] s[i]) {
        None
    } else if s.len() % 2 == 1 {
        None
    } else {
        Some(
            Seq::new(
                s.len() / 2,
                |i: int| (hex_value(s[2 * i]) * 16 + hex_value(s[2 * i + 1])) as u8,
            ),
        )
    }
}

/// The view of an optional byte vector.
pub open spec fn opt_bytes(o: Option<Vec<u8>>) -> Option<Seq<u8>> {
    match o {
        Some(v) => Some(v@),
        None => None,
    }
}

/// `hex::encode`: lowercase hex, two digits per byte.
#[verifier::external_body]
pub(crate) fn hex_encode(data: &[u8]) -> (s: String)
    ensures
        s@ == hex_lower(data@),
{
    hex::encode(data)
}

/// `hex::decode`: the bytes of a hex string of either case, or none when its length is
/// odd or a character is not a hex digit.
#[verifier::external_body]
pub(crate) fn hex_decode(s: &str) -> (r: Option<Vec<u8>>)
    ensures
        opt_bytes(r) == hex_decode_spec(s@),
{
    hex::decode(s).ok()
}

proof fn lemma_digit_roundtrip(n: u8)
    requires
        n < 16,
    ensures
        is_hex_char(hex_digit(n)),
        hex_value(hex_digit(n)) == n,
{
}

/// Decoding the hex of some bytes gives those bytes back.
pub proof fn law_hex_roundtrip(data: Seq<u8>)
    ensures
        hex_decode_spec(hex_lower(data)) == Some(data),
{
    let s = hex_lower(data);
    assert forall|i: int| 0 <= i < s.len() implies is_hex_char(#[trigger] s[i]) by {
        if i % 2 == 0 {
            lemma_digit_roundtrip(data[i / 2] / 16);
        } else {
            lemma_digit_roundtrip(data[i / 2] % 16);
        }
    }
    assert(s.len() % 2 == 0);
    let d = Seq::new(
        s.len() / 2,
        |i: int| (hex_value(s[2 * i]) * 16 + hex_value(s[2 * i + 1])) as u8,
    );
    assert forall|i: int| 0 <= i < data.len() implies d[i] == data[i] by {
        let b = data[i];
        lemma_digit_roundtrip(b / 16);
        lemma_digit_roundtrip(b % 16);
        assert((2 * i) / 2 == i);
        assert((2 * i + 1) / 2 == i);
        assert(s[2 * i] == hex_digit(b / 16));
        assert(s[2 * i + 1] == hex_digit(b % 16));
        assert((b / 16) * 16 + b % 16 == b);
    }
    assert(d =~= data);
}

} // verus!
