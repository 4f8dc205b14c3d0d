//! Upbit Exchange API authentication: the JWT that an `Authorization: Bearer`
//! header carries, and the query string whose SHA-512 digest it signs.
//!
//! The claims are a JSON object `{"access_key", "nonce"[, "query_hash",
//! "query_hash_alg"]}`; `query_hash` (the lower-case hex SHA-512 of the query
//! string) and `query_hash_alg` (`"SHA512"`) appear exactly when the query
//! string is not empty. The token is signed with HS512 under the secret key.

use sha2::Digest;
use vstd::prelude::*;
use vstd::utf8::encode_utf8;

use crate::text::join_strings;

verus! {

#[verifier::external_type_specification]
#[verifier::external_body]
pub struct ExJwtError(jsonwebtoken::errors::Error);

/// How `serde_json` writes one character inside a JSON string: `"` and `\`
/// behind a backslash, the short escapes `\b \f \n \r \t`, any other character
/// below U+0020 as `\u00` and two lower-case hex digits, and every other
/// character as it is.
pub open spec fn json_escape(c: char) -> Seq<char> {
    if c == '"' {
        seq!['\\', '"']
    } else if c == '\\' {
        seq!['\\', '\\']
    } else if c == '\u{8}' {
        seq!['\\', 'b']
    } else if c == '\u{c}' {
        seq!['\\', 'f']
    } else if c == '\n' {
        seq!['\\', 'n']
    } else if c == '\r' {
        seq!['\\', 'r']
    } else if c == '\t' {
        seq!['\\', 't']
    } else if (c as u32) < 0x20 {
        seq!['\\', 'u', '0', '0', hex_digit(c as int / 16), hex_digit(c as int % 16)]
    } else {
        seq![c]
    }
}

/// The escaped characters of `s`, in order.
pub open spec fn json_escaped(s: Seq<char>) -> Seq<char>
    decreases s.len(),
{
    if s.len() == 0 {
        Seq::empty()
    } else {
        json_escaped(s.drop_last()) + json_escape(s.last())
    }
}

/// The JSON text that `serde_json` writes for the string `s`: quoted and escaped.
pub open spec fn json_string_literal(s: Seq<char>) -> Seq<char> {
    seq!['"'] + json_escaped(s) + seq!['"']
}

/// The SHA-512 digest of `data`.
pub uninterp spec fn sha512(data: Seq<u8>) -> Seq<u8>;

/// The HS512 JWT that `jsonwebtoken` issues for the header `{"typ":"JWT","alg":"HS512"}`,
/// the claims given as JSON text, and the HMAC secret.
pub uninterp spec fn hs512_token(claims_json: Seq<char>, secret: Seq<u8>) -> Seq<char>;

/// Lower-case hexadecimal digit of `n < 16`.
pub open spec fn hex_digit(n: int) -> char {
    if n < 10 {
        (48 + n) as char
    } else {
        (87 + n) as char
    }
}

/// Lower-case hexadecimal text of `data`, two digits per byte.
pub open spec fn hex_lower(data: Seq<u8>) -> Seq<char>
    decreases data.len(),
{
    if data.len() == 0 {
        Seq::empty()
    } else {
        hex_lower(data.drop_last()) + seq![
            hex_digit(data.last() as int / 16),
            hex_digit(data.last() as int % 16),
        ]
    }
}

/// Whether `c` is a lower-case hexadecimal digit.
pub open spec fn is_lower_hex_char(c: char) -> bool {
    ('0' <= c <= '9') || ('a' <= c <= 'f')
}

/// Text of a version-4 UUID in the hyphenated lower-case form
/// `xxxxxxxx-xxxx-4xxx-Vxxx-xxxxxxxxxxxx`, with `V` one of `8`, `9`, `a`, `b`.
pub open spec fn uuid_text(s: Seq<char>) -> bool {
    &&& s.len() == 36
    &&& s[14] == '4'
    &&& (s[19] == '8' || s[19] == '9' || s[19] == 'a' || s[19] == 'b')
    &&& forall|i: int|
        0 <= i < 36 ==> if i == 8 || i == 13 || i == 18 || i == 23 {
            s[i] == '-'
        } else {
            is_lower_hex_char(#[trigger] s[i])
        }
}

/// The `query_hash` claim for a query string: hex SHA-512 of its UTF-8 bytes.
pub open spec fn query_hash(query: Seq<char>) -> Seq<char> {
    hex_lower(sha512(encode_utf8(query)))
}

/// The JSON text of the JWT claims.
pub open spec fn claims_text(access_key: Seq<char>, nonce: Seq<char>, query: Seq<char>) -> Seq<
    char,
> {
    let head = "{\"access_key\":"@ + json_string_literal(access_key) + ",\"nonce\":"@
        + json_string_literal(nonce);
    if query.len() == 0 {
        head + "}"@
    } else {
        head + ",\"query_hash\":"@ + json_string_literal(query_hash(query))
            + ",\"query_hash_alg\":"@ + json_string_literal("SHA512"@) + "}"@
    }
}

/// Calls `serde_json::to_string` on a string slice; the result is the quoted
/// string with each character escaped as `json_escape` says (`format_escaped_str`
/// with its `ESCAPE` table and the compact formatter). Serialising a `str` into memory does not fail in
/// `serde_json`; the error arm is never taken.
#[verifier::external_body]
pub(crate) fn json_quote(s: &str) -> (res: String)
    ensures
        res@ == json_string_literal(s@),
{
    match serde_json::to_string(s) {
        Ok(t) => t,
        Err(_) => String::new(),
    }
}

/// Calls `sha2::Sha512::digest`; the claim is that the result is the SHA-512
/// digest of `data`, 64 bytes long.
#[verifier::external_body]
fn sha512_digest(data: &[u8]) -> (res: Vec<u8>)
    ensures
        res@ == sha512(data@),
        res@.len() == 64,
{
    sha2::Sha512::digest(data).to_vec()
}

/// Calls `hex::encode`, which writes each byte as two lower-case hex digits,
/// high nibble first.
#[verifier::external_body]
fn hex_encode(data: &[u8]) -> (res: String)
    ensures
        res@ == hex_lower(data@),
{
    hex::encode(data)
}

/// Calls `uuid::Uuid::new_v4().to_string()`: a random version-4 UUID (version
/// nibble 4, variant bits `10`), written in its hyphenated lower-case form.
/// Which UUID comes back is left open.
#[verifier::external_body]
pub(crate) fn random_uuid() -> (res: String)
    ensures
        uuid_text(res@),
{
    uuid::Uuid::new_v4().to_string()
}

/// Calls `jsonwebtoken::encode` with the header `Header::new(Algorithm::HS512)`
/// (`typ` = `"JWT"`), the claims as raw JSON text, and
/// `EncodingKey::from_secret(secret)`. A token that comes back is the one those
/// arguments determine. The call succeeds on claims in the form `claims_text`
/// writes: `RawValue::from_string` rejects only text that is not JSON, and that
/// text is a JSON object of members whose names are fixed and whose values are
/// strings as `serde_json` writes them; `encode` then fails only on a key of
/// another algorithm family (not so for a secret with HS512) or when
/// serialising the header or the claims fails (it does not for `Header` and a
/// `RawValue`), and HS512 signing with `ring` does not fail.
#[verifier::external_body]
fn encode_hs512(claims_json: &str, secret: &[u8]) -> (res: Result<
    String,
    jsonwebtoken::errors::Error,
>)
    ensures
        res matches Ok(t) ==> t@ == hs512_token(claims_json@, secret@),
        (exists|a: Seq<char>, n: Seq<char>, q: Seq<char>|
            #![trigger claims_text(a, n, q)]
            claims_json@ == claims_text(a, n, q)) ==> res is Ok,
{
    let claims = serde_json::value::RawValue::from_string(claims_json.to_string())?;
    let mut header = jsonwebtoken::Header::new(jsonwebtoken::Algorithm::HS512);
    header.typ = Some("JWT".to_string());
    jsonwebtoken::encode(&header, &claims, &jsonwebtoken::EncodingKey::from_secret(secret))
}

/// The JSON text of the claims for `access_key`, `nonce` and `query_string`.
pub fn upbit_jwt_claims(access_key: &str, nonce: &str, query_string: &str) -> (res: String)
    ensures
        res@ == claims_text(access_key@, nonce@, query_string@),
{
    let mut out = String::new();
    out.append("{\"access_key\":");
    let a = json_quote(access_key);
    out.append(a.as_str());
    out.append(",\"nonce\":");
    let n = json_quote(nonce);
    out.append(n.as_str());
    if !query_string.is_empty() {
        let bytes = query_string.as_bytes();
        let digest = sha512_digest(bytes);
        let hash = hex_encode(digest.as_slice());
        out.append(",\"query_hash\":");
        let h = json_quote(hash.as_str());
        out.append(h.as_str());
        out.append(",\"query_hash_alg\":");
        let alg = json_quote("SHA512");
        out.append(alg.as_str());
    }
    out.append("}");
    out
}

/// The HS512 token for `access_key`, `secret_key` and `query_string`, with the
/// given nonce; it is always issued.
pub fn jwt_for_nonce(access_key: &str, secret_key: &str, query_string: &str, nonce: &str) -> (res:
    Result<String, jsonwebtoken::errors::Error>)
    ensures
        res is Ok,
        res matches Ok(t) ==> t@ == hs512_token(
            claims_text(access_key@, nonce@, query_string@),
            encode_utf8(secret_key@),
        ),
{
    let claims = upbit_jwt_claims(access_key, nonce, query_string);
    assert(claims@ == claims_text(access_key@, nonce@, query_string@));
    encode_hs512(claims.as_str(), secret_key.as_bytes())
}

/// The Bearer token (without the `Bearer ` prefix) for the Exchange API, signed
/// with HS512. A fresh random UUID is the nonce; the claims carry
/// `query_hash` exactly when `query_string` is not empty. It is always issued.
pub fn issue_upbit_jwt(access_key: &str, secret_key: &str, query_string: &str) -> (res: Result<
    String,
    jsonwebtoken::errors::Error,
>)
    ensures
        res is Ok,
        res matches Ok(t) ==> exists|nonce: Seq<char>|
            #![trigger claims_text(access_key@, nonce, query_string@)]
            uuid_text(nonce) && t@ == hs512_token(
                claims_text(access_key@, nonce, query_string@),
                encode_utf8(secret_key@),
            ),
{
    let nonce = random_uuid();
    let res = jwt_for_nonce(access_key, secret_key, query_string, nonce.as_str());
    proof {
        if res is Ok {
            let t = res->Ok_0;
            assert(uuid_text(nonce@) && t@ == hs512_token(
                claims_text(access_key@, nonce@, query_string@),
                encode_utf8(secret_key@),
            ));
        }
    }
    res
}

/// A JSON value at the top level of a request body, as the query string for
/// `query_hash` reads it: scalars by their text, arrays and objects by their
/// compact JSON text.
pub enum JsonValue {
    Null,
    Bool(bool),
    /// A number, by its JSON text.
    Number(String),
    /// A string, by its contents.
    String(String),
    /// An array or an object, by its compact JSON text.
    Nested(String),
}

/// A request body: an object with its members in iteration order, or any other value.
pub enum JsonBody {
    Object(Vec<(String, JsonValue)>),
    Other,
}

/// The text that stands after `=` for a member's value.
pub open spec fn value_text(v: JsonValue) -> Seq<char> {
    match v {
        JsonValue::Null => "null"@,
        JsonValue::Bool(b) => if b {
            "true"@
        } else {
            "false"@
        },
        JsonValue::Number(t) => t@,
        JsonValue::String(t) => t@,
        JsonValue::Nested(t) => t@,
    }
}

/// The `key=value` parts of the members that are not `null`, in order.
pub open spec fn query_parts(members: Seq<(String, JsonValue)>) -> Seq<Seq<char>>
    decreases members.len(),
{
    if members.len() == 0 {
        Seq::empty()
    } else {
        let rest = query_parts(members.drop_last());
        let (k, v) = members.last();
        if v is Null {
            rest
        } else {
            rest.push(k@ + "="@ + value_text(v))
        }
    }
}

/// The query string of a body: its non-null members as `key=value`, joined by `&`;
/// empty for a body that is not an object.
pub open spec fn body_query_string(body: JsonBody) -> Seq<char> {
    match body {
        JsonBody::Object(members) => crate::text::join_with(query_parts(members@), "&"@),
        JsonBody::Other => Seq::empty(),
    }
}

fn member_part(key: &String, value: &JsonValue) -> (res: String)
    ensures
        res@ == key@ + "="@ + value_text(*value),
{
    let mut p = String::new();
    p.append(key.as_str());
    p.append("=");
    match value {
        JsonValue::Null => p.append("null"),
        JsonValue::Bool(b) => if *b {
            p.append("true")
        } else {
            p.append("false")
        },
        JsonValue::Number(t) => p.append(t.as_str()),
        JsonValue::String(t) => p.append(t.as_str()),
        JsonValue::Nested(t) => p.append(t.as_str()),
    }
    p
}

/// Turns a POST JSON body into the query string that `query_hash` covers:
/// `key=value` for each member that is not `null`, joined by `&`.
pub fn post_body_to_query_string_for_jwt(body: &JsonBody) -> (res: String)
    ensures
        res@ == body_query_string(*body),
{
    match body {
        JsonBody::Other => String::new(),
        JsonBody::Object(members) => {
            let mut parts: Vec<String> = Vec::new();
            let mut i: usize = 0;
            while i < members.len()
                invariant
                    i <= members.len(),
                    parts@.map_values(|p: String| p@) == query_parts(members@.take(i as int)),
                decreases members.len() - i,
            {
                let ghost before = parts@;
                let (k, v) = &members[i];
                assert(members@.take(i + 1).drop_last() =~= members@.take(i as int));
                let is_null = match v {
                    JsonValue::Null => true,
                    _ => false,
                };
                if !is_null {
                    let part = member_part(k, v);
                    parts.push(part);
                    assert(parts@.map_values(|p: String| p@) =~= before.map_values(
                        |p: String| p@,
                    ).push(k@ + "="@ + value_text(*v)));
                }
                i = i + 1;
            }
            assert(members@.take(members.len() as int) =~= members@);
            join_strings(&parts, "&")
        },
    }
}

} // verus!
