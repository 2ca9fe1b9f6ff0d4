//! The request-signing protocol: the canonical string of a request and the
//! signature computed over it.

use crate::digest::{base64_encode, base64_standard, hmac_sha1, hmac_sha1_tag, is_base64_char};
use crate::text::{count_char, lemma_concat_cancel, lemma_count_char_concat};
use vstd::prelude::*;
use vstd::string::StringExecFns;
use vstd::utf8::encode_utf8;

verus! {

/// An access key and the secret key that signs requests made under it.
#[derive(Clone)]
pub struct Credentials {
    pub ak: String,
    pub sk: String,
}

/// Mathematical value of `Credentials`.
pub struct CredentialsView {
    pub ak: Seq<char>,
    pub sk: Seq<char>,
}

impl View for Credentials {
    type V = CredentialsView;

    open spec fn view(&self) -> CredentialsView {
        CredentialsView { ak: self.ak@, sk: self.sk@ }
    }
}

/// Why a signature could not be computed.
#[derive(Debug, Clone, Copy, PartialEq, Eq, Structural)]
pub enum SignError {
    /// The HMAC primitive refused the secret key.
    KeyRejected,
}

/// The line break that separates the fields of a canonical string.
pub open spec fn line_break() -> Seq<char> {
    seq!['\n']
}

/// The five fields that a signature covers.
pub struct CanonicalFields {
    pub method: Seq<char>,
    pub content_md5: Seq<char>,
    pub content_type: Seq<char>,
    pub date: Seq<char>,
    pub resource: Seq<char>,
}

/// The canonical string: the five fields in order, one line break between each
/// two, empty fields included.
pub open spec fn canonical_string(f: CanonicalFields) -> Seq<char> {
    f.method + line_break() + f.content_md5 + line_break() + f.content_type + line_break()
        + f.date + line_break() + f.resource
}

/// The signature of `canonical` under `secret_key`: the base64 text of the
/// HMAC-SHA1 tag of the UTF-8 bytes of the one under those of the other.
pub open spec fn signature(secret_key: Seq<char>, canonical: Seq<char>) -> Seq<char> {
    base64_standard(hmac_sha1(encode_utf8(secret_key), encode_utf8(canonical)))
}

/// The value of the `Authorization` header.
pub open spec fn authorization_value(access_key: Seq<char>, sig: Seq<char>) -> Seq<char> {
    "OBS "@ + access_key + ":"@ + sig
}

/// Builds the canonical string of a request from its five fields.
pub fn build_canonical_string(
    method: &str,
    content_md5: &str,
    content_type: &str,
    date: &str,
    resource: &str,
) -> (r: String)
    ensures
        r@ == canonical_string(
            CanonicalFields {
                method: method@,
                content_md5: content_md5@,
                content_type: content_type@,
                date: date@,
                resource: resource@,
            },
        ),
{
    proof {
        reveal_strlit("\n");
        assert("\n"@ =~= line_break());
    }
    let mut s = String::new();
    s.append(method);
    s.append("\n");
    s.append(content_md5);
    s.append("\n");
    s.append(content_type);
    s.append("\n");
    s.append(date);
    s.append("\n");
    s.append(resource);
    assert(s@ =~= method@ + line_break() + content_md5@ + line_break() + content_type@
        + line_break() + date@ + line_break() + resource@);
    s
}

/// Signs a canonical string with a secret key.
///
/// The result depends on the two texts alone, so equal inputs give equal
/// signatures; and it is always `Ok`, as the HMAC primitive takes a key of any
/// length. A signature holds only characters of the base64 alphabet.
pub fn sign(secret_key: &str, canonical_string: &str) -> (r: Result<String, SignError>)
    ensures
        r matches Ok(s) && s@ == signature(secret_key@, canonical_string@),
        r matches Ok(s) && forall|i: int| 0 <= i < s@.len() ==> is_base64_char(#[trigger] s@[i]),
{
    let tag = hmac_sha1_tag(secret_key.as_bytes(), canonical_string.as_bytes());
    match tag {
        Ok(bytes) => Ok(base64_encode(bytes.as_slice())),
        Err(_) => Err(SignError::KeyRejected),
    }
}

/// Signs a canonical string with the secret key of `credentials`.
pub fn generate_signature(credentials: &Credentials, canonical_string: &str) -> (r: Result<
    String,
    SignError,
>)
    ensures
        r matches Ok(s) && s@ == signature(credentials.sk@, canonical_string@),
        r matches Ok(s) && forall|i: int| 0 <= i < s@.len() ==> is_base64_char(#[trigger] s@[i]),
{
    sign(credentials.sk.as_str(), canonical_string)
}

/// Builds the value of the `Authorization` header.
pub fn authorization_header(access_key: &str, sig: &str) -> (r: String)
    ensures
        r@ == authorization_value(access_key@, sig@),
{
    let mut s = String::new();
    s.append("OBS ");
    s.append(access_key);
    s.append(":");
    s.append(sig);
    assert(s@ =~= "OBS "@ + access_key@ + ":"@ + sig@);
    s
}

/// Line breaks inside the fields of `f`, all five together.
pub open spec fn line_breaks_in_fields(f: CanonicalFields) -> nat {
    count_char(f.method, '\n') + count_char(f.content_md5, '\n') + count_char(
        f.content_type,
        '\n',
    ) + count_char(f.date, '\n') + count_char(f.resource, '\n')
}

/// A canonical string holds four line breaks besides those that its fields
/// bring along: exactly four when no field holds one, whichever fields are
/// empty.
pub proof fn lemma_canonical_string_line_breaks(f: CanonicalFields)
    ensures
        count_char(canonical_string(f), '\n') == 4 + line_breaks_in_fields(f),
        line_breaks_in_fields(f) == 0 ==> count_char(canonical_string(f), '\n') == 4,
{
    let nl = line_break();
    assert(count_char(nl, '\n') == 1) by {
        assert(nl.drop_last() =~= Seq::<char>::empty());
        assert(count_char(nl.drop_last(), '\n') == 0);
    }
    let s1 = f.method + nl;
    let s2 = s1 + f.content_md5;
    let s3 = s2 + nl;
    let s4 = s3 + f.content_type;
    let s5 = s4 + nl;
    let s6 = s5 + f.date;
    let s7 = s6 + nl;
    lemma_count_char_concat(f.method, nl, '\n');
    lemma_count_char_concat(s1, f.content_md5, '\n');
    lemma_count_char_concat(s2, nl, '\n');
    lemma_count_char_concat(s3, f.content_type, '\n');
    lemma_count_char_concat(s4, nl, '\n');
    lemma_count_char_concat(s5, f.date, '\n');
    lemma_count_char_concat(s6, nl, '\n');
    lemma_count_char_concat(s7, f.resource, '\n');
}

/// In how many of the five fields `a` and `b` differ.
pub open spec fn differing_fields(a: CanonicalFields, b: CanonicalFields) -> nat {
    (if a.method != b.method { 1nat } else { 0nat })
    + (if a.content_md5 != b.content_md5 { 1nat } else { 0nat })
    + (if a.content_type != b.content_type { 1nat } else { 0nat })
    + (if a.date != b.date { 1nat } else { 0nat })
    + (if a.resource != b.resource { 1nat } else { 0nat })
}

/// Changing one field, whichever it is, changes the canonical string.
pub proof fn lemma_changed_field_changes_canonical_string(a: CanonicalFields, b: CanonicalFields)
    requires
        differing_fields(a, b) == 1,
    ensures
        canonical_string(a) != canonical_string(b),
{
    let nl = line_break();
    let e = Seq::<char>::empty();
    if canonical_string(a) == canonical_string(b) {
        if a.method != b.method {
            let after = nl + a.content_md5 + nl + a.content_type + nl + a.date + nl + a.resource;
            assert(canonical_string(a) =~= e + a.method + after);
            assert(canonical_string(b) =~= e + b.method + after);
            lemma_concat_cancel(e, a.method, b.method, after);
        } else if a.content_md5 != b.content_md5 {
            let before = a.method + nl;
            let after = nl + a.content_type + nl + a.date + nl + a.resource;
            assert(canonical_string(a) =~= before + a.content_md5 + after);
            assert(canonical_string(b) =~= before + b.content_md5 + after);
            lemma_concat_cancel(before, a.content_md5, b.content_md5, after);
        } else if a.content_type != b.content_type {
            let before = a.method + nl + a.content_md5 + nl;
            let after = nl + a.date + nl + a.resource;
            assert(canonical_string(a) =~= before + a.content_type + after);
            assert(canonical_string(b) =~= before + b.content_type + after);
            lemma_concat_cancel(before, a.content_type, b.content_type, after);
        } else if a.date != b.date {
            let before = a.method + nl + a.content_md5 + nl + a.content_type + nl;
            let after = nl + a.resource;
            assert(canonical_string(a) =~= before + a.date + after);
            assert(canonical_string(b) =~= before + b.date + after);
            lemma_concat_cancel(before, a.date, b.date, after);
        } else {
            let before = a.method + nl + a.content_md5 + nl + a.content_type + nl + a.date + nl;
            assert(canonical_string(a) =~= before + a.resource + e);
            assert(canonical_string(b) =~= before + b.resource + e);
            lemma_concat_cancel(before, a.resource, b.resource, e);
        }
    }
}

/// Signing is a function of the secret key and the canonical string: the same
/// two texts have the same signature.
pub proof fn lemma_signature_deterministic(
    key_a: Seq<char>,
    canonical_a: Seq<char>,
    key_b: Seq<char>,
    canonical_b: Seq<char>,
)
    requires
        key_a == key_b,
        canonical_a == canonical_b,
    ensures
        signature(key_a, canonical_a) == signature(key_b, canonical_b),
{
}

} // verus!
