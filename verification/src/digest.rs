//! Hash digests and hexadecimal text.
use base64::Engine;
use sha2::Digest;
use vstd::prelude::*;

use crate::ids::hex_digit;

verus! {

/// The SHA-256 digest of a run of bytes.
pub uninterp spec fn sha256_of(data: Seq<u8>) -> Seq<u8>;

/// The SHA-512 digest of a run of bytes.
pub uninterp spec fn sha512_of(data: Seq<u8>) -> Seq<u8>;

/// Bytes as hexadecimal text in lower case, two digits for each byte.
pub open spec fn hex_text(data: Seq<u8>) -> Seq<char> {
    Seq::new(
        2 * data.len(),
        |i: int|
            hex_digit(
                if i % 2 == 0 {
                    data[i / 2] as nat / 16
                } else {
                    data[i / 2] as nat % 16
                },
            ),
    )
}

/// The value of a hexadecimal digit of either case, written as an ASCII byte.
pub open spec fn hex_value(b: u8) -> Option<nat> {
    if 48 <= b <= 57 {
        Some((b - 48) as nat)
    } else if 65 <= b <= 70 {
        Some((b - 55) as nat)
    } else if 97 <= b <= 102 {
        Some((b - 87) as nat)
    } else {
        None
    }
}

/// Whether a run of bytes is hexadecimal text: an even number of digits and nothing else.
pub open spec fn is_hex(text: Seq<u8>) -> bool {
    text.len() % 2 == 0 && forall|i: int| 0 <= i < text.len() ==> hex_value(#[trigger] text[i]) is Some
}

/// The bytes that hexadecimal text denotes.
pub open spec fn hex_bytes(text: Seq<u8>) -> Seq<u8> {
    Seq::new(
        (text.len() / 2) as nat,
        |i: int| (hex_value(text[2 * i])->0 * 16 + hex_value(text[2 * i + 1])->0) as u8,
    )
}

/// Calls `sha2::Sha256::digest`: 32 bytes that depend on the data alone.
#[verifier::external_body]
pub(crate) fn sha256(data: &[u8]) -> (r: Vec<u8>)
    ensures
        r@ == sha256_of(data@),
        r@.len() == 32,
{
    sha2::Sha256::digest(data).to_vec()
}

/// Calls `sha2::Sha512::digest`: 64 bytes that depend on the data alone.
#[verifier::external_body]
pub(crate) fn sha512(data: &[u8]) -> (r: Vec<u8>)
    ensures
        r@ == sha512_of(data@),
        r@.len() == 64,
{
    sha2::Sha512::digest(data).to_vec()
}

/// Calls `hex::encode`: two lower-case digits for each byte.
#[verifier::external_body]
pub(crate) fn hex_encode(data: &[u8]) -> (r: String)
    ensures
        r@ == hex_text(data@),
{
    hex::encode(data)
}

/// What `hex` says is wrong with a text that is not hexadecimal.
pub uninterp spec fn hex_complaint(text: Seq<u8>) -> Seq<char>;

/// Calls `hex::decode`: the bytes that an even number of digits of either case denote, and for
/// any other text what is wrong with it, which depends on the text alone.
#[verifier::external_body]
pub(crate) fn hex_decode(text: &[u8]) -> (r: Result<Vec<u8>, String>)
    ensures
        match r {
            Ok(v) => is_hex(text@) && v@ == hex_bytes(text@),
            Err(complaint) => !is_hex(text@) && complaint@ == hex_complaint(text@),
        },
{
    match hex::decode(text) {
        Ok(v) => Ok(v),
        Err(e) => Err(e.to_string()),
    }
}

/// The bytes that a base64 text denotes, or what is wrong with it.
pub uninterp spec fn base64_decoded(text: Seq<char>) -> Result<Seq<u8>, Seq<char>>;

/// Calls `decode` of `base64::engine::general_purpose::STANDARD`: the standard alphabet with
/// padding. Bytes or complaint depend on the text alone.
#[verifier::external_body]
pub(crate) fn base64_decode(text: &str) -> (r: Result<Vec<u8>, String>)
    ensures
        match r {
            Ok(v) => base64_decoded(text@) == Ok::<Seq<u8>, Seq<char>>(v@),
            Err(complaint) => base64_decoded(text@) == Err::<Seq<u8>, Seq<char>>(complaint@),
        },
{
    match base64::engine::general_purpose::STANDARD.decode(text) {
        Ok(v) => Ok(v),
        Err(e) => Err(e.to_string()),
    }
}

/// Bytes that are written in hexadecimal and read again are the same bytes.
pub proof fn law_hexadecimal_is_read_back(data: Seq<u8>, text: Seq<u8>)
    requires
        text == Seq::new(2 * data.len(), |i: int| hex_text(data)[i] as u8),
    ensures
        hex_text(data).len() == 2 * data.len(),
        is_hex(text),
        hex_bytes(text) == data,
{
    assert forall|i: int| 0 <= i < text.len() implies hex_value(#[trigger] text[i]) == Some(
        if i % 2 == 0 {
            data[i / 2] as nat / 16
        } else {
            data[i / 2] as nat % 16
        },
    ) by {
        lemma_hex_digit(
            if i % 2 == 0 {
                data[i / 2] as nat / 16
            } else {
                data[i / 2] as nat % 16
            },
        );
    }
    assert forall|i: int| 0 <= i < data.len() implies hex_bytes(text)[i] == data[i] by {
        assert((2 * i) / 2 == i && (2 * i + 1) / 2 == i);
        assert(hex_value(text[2 * i]) == Some(data[i] as nat / 16));
        assert(hex_value(text[2 * i + 1]) == Some(data[i] as nat % 16));
    }
    assert(hex_bytes(text) =~= data);
}

proof fn lemma_hex_digit(n: nat)
    requires
        n < 16,
    ensures
        hex_value(hex_digit(n) as u8) == Some(n),
{
}

/// Hexadecimal digits are those of decimal and the letters up to `f` of either case.
pub proof fn law_hexadecimal_digits(b: u8)
    ensures
        hex_value(b) is Some <==> {
            ||| '0' as u8 <= b <= '9' as u8
            ||| 'a' as u8 <= b <= 'f' as u8
            ||| 'A' as u8 <= b <= 'F' as u8
        },
        '0' as u8 <= b <= '9' as u8 ==> hex_value(b) == Some((b - '0' as u8) as nat),
        'a' as u8 <= b <= 'f' as u8 ==> hex_value(b) == Some((10 + b - 'a' as u8) as nat),
        'A' as u8 <= b <= 'F' as u8 ==> hex_value(b) == Some((10 + b - 'A' as u8) as nat),
{
}

} // verus!
