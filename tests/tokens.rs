use handly_backend::claims::{read_claims_text, write_claims, Claims, TokenKind};
use handly_backend::token::{
    check_claims, encode_jwt, generate_tokens, generate_tokens_at, verify_token, verify_token_at,
    ACCESS_TTL, REFRESH_TTL,
};

const KEY: &[u8] = b"test-secret";

#[test]
fn tokens_roundtrip() {
    let (a, r) = generate_tokens(KEY, "12345678900");
    assert!(verify_token(KEY, &a, TokenKind::Access).is_some());
    assert!(verify_token(KEY, &r, TokenKind::Refresh).is_some());
    assert!(verify_token(KEY, &a, TokenKind::Refresh).is_none());
}

#[test]
fn access_token_carries_subject_and_kind() {
    let now: i64 = 1_700_000_000;
    let (a, r) = generate_tokens_at(KEY, "12345678900", now);
    let c = verify_token_at(KEY, &a, TokenKind::Access, now).unwrap();
    assert_eq!(c.sub, "12345678900");
    assert_eq!(c.exp, now + 3600);
    assert_eq!(c.kind, TokenKind::Access);
    assert!(verify_token_at(KEY, &a, TokenKind::Refresh, now).is_none());
    let f = verify_token_at(KEY, &r, TokenKind::Refresh, now).unwrap();
    assert_eq!(f.exp, now + 2_592_000);
    assert_eq!(ACCESS_TTL, 3600);
    assert_eq!(REFRESH_TTL, 30 * 24 * 3600);
}

#[test]
fn token_is_compact_three_part_string() {
    let (a, _) = generate_tokens_at(KEY, "12345678900", 1_700_000_000);
    assert_eq!(a.split('.').count(), 3);
    assert!(!a.contains("12345678900"));
}

#[test]
fn encoding_is_deterministic() {
    let (a1, r1) = generate_tokens_at(KEY, "s", 1_700_000_000);
    let (a2, r2) = generate_tokens_at(KEY, "s", 1_700_000_000);
    assert_eq!(a1, a2);
    assert_eq!(r1, r2);
    assert_ne!(a1, r1);
}

#[test]
fn expired_token_fails_verification() {
    let now: i64 = 1_700_000_000;
    let past = Claims { sub: "12345678900".to_string(), exp: now - 10, kind: TokenKind::Access };
    let t = encode_jwt(&past, KEY);
    assert!(verify_token_at(KEY, &t, TokenKind::Access, now).is_none());
    assert!(verify_token_at(KEY, &t, TokenKind::Access, now - 9).is_none());
    assert!(verify_token_at(KEY, &t, TokenKind::Access, now - 10).is_some());
    let (a, r) = generate_tokens_at(KEY, "x", now);
    assert!(verify_token_at(KEY, &a, TokenKind::Access, now + 3601).is_none());
    assert!(verify_token_at(KEY, &a, TokenKind::Access, now + 3600).is_some());
    let c = verify_token_at(KEY, &r, TokenKind::Refresh, now + 2_592_000).unwrap();
    assert_eq!(c.sub, "x");
    assert_eq!(c.exp, now + 2_592_000);
    assert!(verify_token_at(KEY, &r, TokenKind::Refresh, now + 2_592_001).is_none());
}

#[test]
fn expired_token_of_the_past_fails_against_the_clock() {
    let old = Claims { sub: "s".to_string(), exp: 1_000_000_000, kind: TokenKind::Refresh };
    let t = encode_jwt(&old, KEY);
    assert!(verify_token(KEY, &t, TokenKind::Refresh).is_none());
}

#[test]
fn wrong_key_or_tampering_fails() {
    let now: i64 = 1_700_000_000;
    let (a, _) = generate_tokens_at(KEY, "12345678900", now);
    assert!(verify_token_at(b"other-secret", &a, TokenKind::Access, now).is_none());
    let mut tampered = a.clone();
    tampered.push('x');
    assert!(verify_token_at(KEY, &tampered, TokenKind::Access, now).is_none());
    assert!(verify_token_at(KEY, "not.a.token", TokenKind::Access, now).is_none());
    assert!(verify_token_at(KEY, "", TokenKind::Access, now).is_none());
}

#[test]
fn refresh_flow_keeps_subject() {
    let t0: i64 = 1_700_000_000;
    let (_, r) = generate_tokens_at(KEY, "12345678000199", t0);
    let t1 = t0 + 10 * 24 * 3600;
    let c = verify_token_at(KEY, &r, TokenKind::Refresh, t1).unwrap();
    let (a2, _) = generate_tokens_at(KEY, &c.sub, t1);
    let c2 = verify_token_at(KEY, &a2, TokenKind::Access, t1 + 60).unwrap();
    assert_eq!(c2.sub, "12345678000199");
    let (_, r_last) = generate_tokens_at(KEY, "12345678000199", t0);
    let at_expiry = t0 + 30 * 24 * 3600;
    let c3 = verify_token_at(KEY, &r_last, TokenKind::Refresh, at_expiry).unwrap();
    let (a3, r3) = generate_tokens_at(KEY, &c3.sub, at_expiry);
    assert_eq!(verify_token_at(KEY, &a3, TokenKind::Access, at_expiry + 3600).unwrap().sub, "12345678000199");
    assert_eq!(verify_token_at(KEY, &r3, TokenKind::Refresh, at_expiry + 3600).unwrap().sub, "12345678000199");
}

#[test]
fn claims_text_is_exact_json() {
    let c = Claims { sub: "12345678900".to_string(), exp: 1_700_003_600, kind: TokenKind::Access };
    assert_eq!(write_claims(&c), r#"{"sub":"12345678900","exp":1700003600,"kind":"access"}"#);
    let r = Claims { sub: "a".to_string(), exp: -5, kind: TokenKind::Refresh };
    assert_eq!(write_claims(&r), r#"{"sub":"a","exp":-5,"kind":"refresh"}"#);
    let m = Claims { sub: String::new(), exp: i64::MIN, kind: TokenKind::Access };
    assert_eq!(write_claims(&m), r#"{"sub":"","exp":-9223372036854775808,"kind":"access"}"#);
}

#[test]
fn claims_text_escapes_like_json() {
    let c = Claims { sub: "q\"b\\n\nt\t\u{1}é".to_string(), exp: 0, kind: TokenKind::Access };
    let text = write_claims(&c);
    assert_eq!(text, "{\"sub\":\"q\\\"b\\\\n\\nt\\t\\u0001é\",\"exp\":0,\"kind\":\"access\"}");
    let back = read_claims_text(&text).unwrap();
    assert_eq!(back.sub, c.sub);
    assert_eq!(back.exp, 0);
    assert_eq!(back.kind, TokenKind::Access);
    let v: serde_json::Value = serde_json::from_str(&text).unwrap();
    assert_eq!(v["sub"].as_str(), Some(c.sub.as_str()));
    assert_eq!(v["exp"].as_i64(), Some(0));
    assert_eq!(v["kind"].as_str(), Some("access"));
}

#[test]
fn claims_text_reads_back() {
    for (sub, exp) in [("x", i64::MAX), ("", 0), ("12345678900", -1)] {
        let c = Claims { sub: sub.to_string(), exp, kind: TokenKind::Refresh };
        let back = read_claims_text(&write_claims(&c)).unwrap();
        assert_eq!(back.sub, sub);
        assert_eq!(back.exp, exp);
        assert_eq!(back.kind, TokenKind::Refresh);
    }
}

#[test]
fn non_canonical_claims_text_is_refused() {
    for text in [
        r#"{"sub":"a","exp":01,"kind":"access"}"#,
        r#"{"sub":"a","exp":-0,"kind":"access"}"#,
        r#"{"sub":"a","exp":9223372036854775808,"kind":"access"}"#,
        r#"{"sub":"a","exp":1,"kind":"other"}"#,
        r#"{"exp":1,"sub":"a","kind":"access"}"#,
        r#"{"sub":"a"b","exp":1,"kind":"access"}"#,
        r#"{"sub":"\u0041","exp":1,"kind":"access"}"#,
        r#"{"sub":"\u001F","exp":1,"kind":"access"}"#,
        r#"{"sub":"\u000a","exp":1,"kind":"access"}"#,
        r#"{"sub":"\/","exp":1,"kind":"access"}"#,
        r#"{"sub":"a","exp":,"kind":"access"}"#,
        "",
    ] {
        assert!(read_claims_text(text).is_none(), "{}", text);
    }
}

#[test]
fn check_claims_applies_expiry_and_kind() {
    let text = r#"{"sub":"s","exp":100,"kind":"access"}"#;
    assert_eq!(check_claims(text, TokenKind::Access, 99).unwrap().sub, "s");
    assert_eq!(check_claims(text, TokenKind::Access, 100).unwrap().exp, 100);
    assert!(check_claims(text, TokenKind::Access, 101).is_none());
    assert!(check_claims(text, TokenKind::Refresh, 99).is_none());
    assert!(check_claims("garbage", TokenKind::Access, 0).is_none());
}
