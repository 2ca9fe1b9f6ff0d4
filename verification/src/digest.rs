//! Digests and encodings that the signing protocol takes from other crates.
//!
//! What these functions compute is not defined here: each result has a name,
//! and the callers' contracts are stated over those names.

use vstd::prelude::*;

verus! {

/// Declares `digest::InvalidLength`, the error with which a keyed primitive
/// refuses a key. Nothing is known of what it holds.
#[verifier::external_type_specification]
#[verifier::external_body]
pub struct ExInvalidLength(hmac::digest::InvalidLength);

/// The HMAC-SHA1 tag of `message` under `key`, as the `hmac` and `sha1` crates
/// compute it.
pub uninterp spec fn hmac_sha1(key: Seq<u8>, message: Seq<u8>) -> Seq<u8>;

/// The MD5 digest of `data`, as the `md5` crate computes it.
pub uninterp spec fn md5_digest(data: Seq<u8>) -> Seq<u8>;

/// The padded base64 text of `bytes` in the standard alphabet, as the `base64`
/// crate's `STANDARD` engine writes it.
pub uninterp spec fn base64_standard(bytes: Seq<u8>) -> Seq<char>;

/// A character of the standard base64 alphabet, or the padding character.
pub open spec fn is_base64_char(c: char) -> bool {
    ||| 'A' as u32 <= c as u32 <= 'Z' as u32
    ||| 'a' as u32 <= c as u32 <= 'z' as u32
    ||| '0' as u32 <= c as u32 <= '9' as u32
    ||| c == '+'
    ||| c == '/'
    ||| c == '='
}

/// Calls `Hmac::<Sha1>::new_from_slice`, `update` and `finalize`.
///
/// Trusted: the tag is the one named `hmac_sha1` and has the 20 bytes of a
/// SHA-1 output; and the call succeeds for every key, because the key setup
/// pads a short key and hashes a long one instead of refusing it.
#[verifier::external_body]
pub(crate) fn hmac_sha1_tag(key: &[u8], message: &[u8]) -> (r: Result<
    Vec<u8>,
    hmac::digest::InvalidLength,
>)
    ensures
        r is Ok,
        r matches Ok(tag) ==> tag@ == hmac_sha1(key@, message@) && tag@.len() == 20,
{
    let mut mac = <hmac::Hmac<sha1::Sha1> as hmac::Mac>::new_from_slice(key)?;
    hmac::Mac::update(&mut mac, message);
    Ok(hmac::Mac::finalize(mac).into_bytes().to_vec())
}

/// Calls `md5::compute`.
///
/// Trusted: the digest is the one named `md5_digest` and has 16 bytes.
#[verifier::external_body]
pub(crate) fn md5_of(data: &[u8]) -> (r: Vec<u8>)
    ensures
        r@ == md5_digest(data@),
        r@.len() == 16,
{
    md5::compute(data).0.to_vec()
}

/// Calls `Engine::encode` on `general_purpose::STANDARD`.
///
/// Trusted: the text is the one named `base64_standard`, and it holds only
/// characters of the standard alphabet and padding. The length bound keeps the
/// encoder's own size computation from overflowing, where it would panic.
#[verifier::external_body]
pub(crate) fn base64_encode(bytes: &[u8]) -> (r: String)
    requires
        (bytes@.len() / 3) * 4 + 4 <= usize::MAX,
    ensures
        r@ == base64_standard(bytes@),
        forall|i: int| 0 <= i < r@.len() ==> is_base64_char(#[trigger] r@[i]),
{
    base64::Engine::encode(&base64::engine::general_purpose::STANDARD, bytes)
}

} // verus!
