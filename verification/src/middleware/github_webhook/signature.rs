//! Parsing and checking of the `X-Hub-Signature-256` header.
use vstd::prelude::*;
use vstd::slice::slice_subrange;
use hmac::{Hmac, Mac};
use sha2::Sha256;

verus! {

/// The error `hex::decode` reports.
#[verifier::external_type_specification]
#[verifier::external_body]
pub struct ExFromHexError(hex::FromHexError);

/// The value of an ASCII hex digit (either case).
pub open spec fn hex_digit_value(c: u8) -> Option<u8> {
    if 48 <= c <= 57 {
        Some((c - 48) as u8)
    } else if 65 <= c <= 70 {
        Some((c - 55) as u8)
    } else if 97 <= c <= 102 {
        Some((c - 87) as u8)
    } else {
        None
    }
}

/// The bytes that a hex text denotes: two digits per byte, high digit first.
pub open spec fn hex_decoded(text: Seq<u8>) -> Option<Seq<u8>> {
    if text.len() % 2 != 0 {
        None
    } else if forall|i: int| 0 <= i < text.len() ==> (#[trigger] hex_digit_value(text[i])) is Some {
        Some(
            Seq::new(
                text.len() / 2,
                |k: int|
                    (hex_digit_value(text[2 * k])->0 * 16 + hex_digit_value(text[2 * k + 1])->0) as u8,
            ),
        )
    } else {
        None
    }
}

/// `hex::decode`: an even number of hex digits (either case) decodes to one byte per
/// pair, high digit first; any other input is refused.
#[verifier::external_body]
fn hex_decode(text: &[u8]) -> (r: Result<Vec<u8>, hex::FromHexError>)
    ensures
        match r {
            Ok(bytes) => hex_decoded(text@) == Some(bytes@),
            Err(_) => hex_decoded(text@) is None,
        },
{
    hex::decode(text)
}

/// The HMAC-SHA256 tag of `message` under `key`.
pub uninterp spec fn hmac_sha256(key: Seq<u8>, message: Seq<u8>) -> Seq<u8>;

/// `Hmac::<Sha256>::new_from_slice`, `Mac::update` and `Mac::verify_slice`: whether
/// `tag` is the HMAC-SHA256 tag of `message` under `key` (compared in constant time).
/// The key may have any length: `new_from_slice` never fails for HMAC.
#[verifier::external_body]
pub(crate) fn hmac_sha256_matches(key: &[u8], message: &[u8], tag: &[u8]) -> (ok: bool)
    ensures
        ok == (tag@ == hmac_sha256(key@, message@)),
{
    let mut mac = <Hmac<Sha256> as hmac::digest::KeyInit>::new_from_slice(key).expect("HMAC takes keys of any length");
    mac.update(message);
    mac.verify_slice(tag).is_ok()
}

/// Why a request was refused.
#[derive(Debug, Clone, Copy, PartialEq, Eq)]
pub enum Rejection {
    /// The `X-Hub-Signature-256` header is absent.
    MissingSignatureHeader,
    /// The header holds no `=`, or what follows it is not hex.
    InvalidHeaderFormat,
    /// The signature is not the HMAC of the body under the secret.
    InvalidSignature,
}

impl Rejection {
    /// The diagnostic the middleware logs for this refusal.
    pub fn debug_message(&self) -> (r: &'static str)
        ensures
            r@ == rejection_message(*self),
    {
        match self {
            Rejection::MissingSignatureHeader => "Missing X-HUB-SIGNATURE-256 header",
            Rejection::InvalidHeaderFormat => "Invalid header format",
            Rejection::InvalidSignature => "Invalid signature",
        }
    }
}

/// The diagnostic text of each refusal.
pub open spec fn rejection_message(r: Rejection) -> Seq<char> {
    match r {
        Rejection::MissingSignatureHeader => "Missing X-HUB-SIGNATURE-256 header"@,
        Rejection::InvalidHeaderFormat => "Invalid header format"@,
        Rejection::InvalidSignature => "Invalid signature"@,
    }
}

/// The bytes after the first `=` of a header value, if it has one.
pub open spec fn after_first_equals(value: Seq<u8>) -> Option<Seq<u8>>
    decreases value.len(),
{
    if value.len() == 0 {
        None
    } else if value[0] == 61u8 {
        Some(value.skip(1))
    } else {
        after_first_equals(value.skip(1))
    }
}

/// The view of an optional header value.
pub open spec fn header_view(header: Option<&[u8]>) -> Option<Seq<u8>> {
    match header {
        Some(h) => Some(h@),
        None => None,
    }
}

/// The signature bytes that a header value carries, or why it carries none.
pub open spec fn signature_from_header(header: Option<Seq<u8>>) -> Result<Seq<u8>, Rejection> {
    match header {
        None => Err(Rejection::MissingSignatureHeader),
        Some(value) => match after_first_equals(value) {
            None => Err(Rejection::InvalidHeaderFormat),
            Some(hex_text) => match hex_decoded(hex_text) {
                None => Err(Rejection::InvalidHeaderFormat),
                Some(signature) => Ok(signature),
            },
        },
    }
}

proof fn lemma_after_first_equals(value: Seq<u8>, i: int)
    requires
        0 <= i <= value.len(),
        forall|j: int| 0 <= j < i ==> value[j] != 61u8,
    ensures
        after_first_equals(value) == after_first_equals(value.skip(i)),
    decreases i,
{
    if i > 0 {
        assert(value[0] != 61u8);
        assert forall|j: int| 0 <= j < i - 1 implies value.skip(1)[j] != 61u8 by {
            assert(value.skip(1)[j] == value[j + 1]);
        }
        lemma_after_first_equals(value.skip(1), i - 1);
        assert(value.skip(1).skip(i - 1) =~= value.skip(i));
    } else {
        assert(value.skip(0) =~= value);
    }
}

/// Reads the signature out of an `X-Hub-Signature-256` header value: the hex text
/// after its first `=`.
pub fn extract_signature(header: Option<&[u8]>) -> (r: Result<Vec<u8>, Rejection>)
    ensures
        match r {
            Ok(signature) => signature_from_header(header_view(header)) == Ok::<Seq<u8>, Rejection>(signature@),
            Err(e) => signature_from_header(header_view(header)) == Err::<Seq<u8>, Rejection>(e),
        },
{
    let value = match header {
        None => {
            return Err(Rejection::MissingSignatureHeader);
        },
        Some(value) => value,
    };
    let n = value.len();
    let mut i: usize = 0;
    while i < n
        invariant
            n == value@.len(),
            i <= n,
            header_view(header) == Some(value@),
            forall|j: int| 0 <= j < i ==> value@[j] != 61u8,
        decreases n - i,
    {
        if value[i] == 61u8 {
            proof {
                lemma_after_first_equals(value@, i as int);
                assert(value@.skip(i as int)[0] == value@[i as int]);
                assert(value@.skip(i as int).skip(1) =~= value@.skip(i + 1));
                assert(after_first_equals(value@) == Some(value@.skip(i + 1)));
            }
            let hex_text = slice_subrange(value, i + 1, n);
            proof {
                assert(hex_text@ =~= value@.skip(i + 1));
            }
            let decoded = hex_decode(hex_text);
            return match decoded {
                Ok(signature) => Ok(signature),
                Err(_) => Err(Rejection::InvalidHeaderFormat),
            };
        }
        i = i + 1;
    }
    proof {
        lemma_after_first_equals(value@, n as int);
    }
    Err(Rejection::InvalidHeaderFormat)
}

} // verus!
