use cex_board::auth::{
    issue_upbit_jwt, jwt_for_nonce, post_body_to_query_string_for_jwt, upbit_jwt_claims, JsonBody,
    JsonValue,
};
use jsonwebtoken::{decode, Algorithm, DecodingKey, Validation};
use sha2::{Digest, Sha512};

fn hs512_validation() -> Validation {
    let mut validation = Validation::new(Algorithm::HS512);
    validation.validate_exp = false;
    validation.required_spec_claims.clear();
    validation
}

#[test]
fn jwt_accounts_style_has_no_query_hash() {
    let token = issue_upbit_jwt("test_access", "test_secret_key_bytes", "").unwrap();
    let data = decode::<serde_json::Value>(
        &token,
        &DecodingKey::from_secret("test_secret_key_bytes".as_bytes()),
        &hs512_validation(),
    )
    .unwrap();
    let claims = data.claims;
    assert_eq!(claims["access_key"], "test_access");
    assert!(claims.get("query_hash").is_none());
    assert!(claims["nonce"].as_str().unwrap().len() > 0);
}

#[test]
fn jwt_with_query_includes_sha512_hex() {
    let qs = "market=KRW-BTC&limit=10";
    let token = issue_upbit_jwt("ak", "sk_sk_sk_sk_sk_sk", qs).unwrap();
    let data = decode::<serde_json::Value>(
        &token,
        &DecodingKey::from_secret("sk_sk_sk_sk_sk_sk".as_bytes()),
        &hs512_validation(),
    )
    .unwrap();
    let claims = data.claims;
    assert_eq!(claims["query_hash_alg"], "SHA512");
    let expected = hex::encode(Sha512::digest(qs.as_bytes()));
    assert_eq!(claims["query_hash"], expected);
}

#[test]
fn jwt_header_is_hs512_jwt() {
    let token = issue_upbit_jwt("ak", "sk", "").unwrap();
    let header = jsonwebtoken::decode_header(&token).unwrap();
    assert_eq!(header.alg, Algorithm::HS512);
    assert_eq!(header.typ.as_deref(), Some("JWT"));
}

#[test]
fn jwt_nonce_is_a_fresh_hyphenated_uuid() {
    let a = issue_upbit_jwt("ak", "sk", "").unwrap();
    let b = issue_upbit_jwt("ak", "sk", "").unwrap();
    let key = DecodingKey::from_secret(b"sk");
    let na = decode::<serde_json::Value>(&a, &key, &hs512_validation()).unwrap().claims["nonce"]
        .as_str()
        .unwrap()
        .to_string();
    let nb = decode::<serde_json::Value>(&b, &key, &hs512_validation()).unwrap().claims["nonce"]
        .as_str()
        .unwrap()
        .to_string();
    assert_ne!(na, nb);
    assert_eq!(na.len(), 36);
    for (i, c) in na.chars().enumerate() {
        if i == 8 || i == 13 || i == 18 || i == 23 {
            assert_eq!(c, '-');
        } else if i == 14 {
            assert_eq!(c, '4');
        } else if i == 19 {
            assert!(matches!(c, '8' | '9' | 'a' | 'b'));
        } else {
            assert!(c.is_ascii_hexdigit() && !c.is_ascii_uppercase());
        }
    }
}

#[test]
fn claims_without_query() {
    assert_eq!(upbit_jwt_claims("ak", "n-1", ""), r#"{"access_key":"ak","nonce":"n-1"}"#);
}

#[test]
fn claims_with_query_carry_its_hash() {
    let qs = "a=1";
    let expected = format!(
        r#"{{"access_key":"ak","nonce":"n","query_hash":"{}","query_hash_alg":"SHA512"}}"#,
        hex::encode(Sha512::digest(qs.as_bytes()))
    );
    assert_eq!(upbit_jwt_claims("ak", "n", qs), expected);
}

#[test]
fn claims_escape_json_specials() {
    assert_eq!(
        upbit_jwt_claims("a\"b\\c", "line\nbreak", ""),
        r#"{"access_key":"a\"b\\c","nonce":"line\nbreak"}"#
    );
}

#[test]
fn claims_escape_controls_as_serde_json_does() {
    assert_eq!(
        upbit_jwt_claims("\u{1}\u{8}\u{c}\r\t\u{1f}", "/\u{7f}é", ""),
        "{\"access_key\":\"\\u0001\\b\\f\\r\\t\\u001f\",\"nonce\":\"/\u{7f}é\"}"
    );
    let expected = format!(
        "{{\"access_key\":{},\"nonce\":\"n\"}}",
        serde_json::to_string("\u{0}\"x\\").unwrap()
    );
    assert_eq!(upbit_jwt_claims("\u{0}\"x\\", "n", ""), expected);
}

#[test]
fn jwt_for_nonce_is_determined_by_its_arguments() {
    let a = jwt_for_nonce("ak", "sk", "x=1", "nonce").unwrap();
    let b = jwt_for_nonce("ak", "sk", "x=1", "nonce").unwrap();
    assert_eq!(a, b);
    let c = jwt_for_nonce("ak", "sk", "x=2", "nonce").unwrap();
    assert_ne!(a, c);
    let data =
        decode::<serde_json::Value>(&a, &DecodingKey::from_secret(b"sk"), &hs512_validation())
            .unwrap();
    assert_eq!(data.claims["nonce"], "nonce");
    assert_eq!(data.claims["access_key"], "ak");
}

#[test]
fn jwt_for_nonce_does_not_verify_under_another_secret() {
    let t = jwt_for_nonce("ak", "sk", "", "n").unwrap();
    assert!(decode::<serde_json::Value>(&t, &DecodingKey::from_secret(b"other"), &hs512_validation())
        .is_err());
}

fn s(x: &str) -> String {
    x.to_string()
}

#[test]
fn query_string_skips_null_members() {
    let body = JsonBody::Object(vec![
        (s("identifier"), JsonValue::Null),
        (s("market"), JsonValue::String(s("KRW-BTC"))),
        (s("ord_type"), JsonValue::String(s("limit"))),
        (s("price"), JsonValue::String(s("100.5"))),
        (s("post"), JsonValue::Bool(true)),
        (s("flag"), JsonValue::Bool(false)),
        (s("n"), JsonValue::Number(s("-3"))),
        (s("arr"), JsonValue::Nested(s("[1,2]"))),
        (s("last"), JsonValue::Null),
    ]);
    assert_eq!(
        post_body_to_query_string_for_jwt(&body),
        "market=KRW-BTC&ord_type=limit&price=100.5&post=true&flag=false&n=-3&arr=[1,2]"
    );
}

#[test]
fn query_string_of_empty_or_non_object_body_is_empty() {
    assert_eq!(post_body_to_query_string_for_jwt(&JsonBody::Other), "");
    assert_eq!(post_body_to_query_string_for_jwt(&JsonBody::Object(vec![])), "");
    assert_eq!(
        post_body_to_query_string_for_jwt(&JsonBody::Object(vec![(s("a"), JsonValue::Null)])),
        ""
    );
}
