use data_encoding::{BASE64, HEXUPPER};
use nkeys::KeyPair;
use parity_wasm::elements::Module;
use parity_wasm::{deserialize_buffer, serialize};
use wascap::dates::{days_from_now_to_jwt_time, epoch_seconds_now, since_the_epoch};
use wascap::errors::ErrorKind;
use wascap::hash::{encode_hex, hash_hex, sha256_digest};
use wascap::jwt::{Claims, Token};
use wascap::wasm::{
    check_claims, compute_hash_without_jwt, custom_section, embed_claims, extract_claims, find_section,
    replace_custom_section, sign_buffer_with_claims, strip_custom_section,
};

const WASM_BASE64: &str =
    "AGFzbQEAAAAADAZkeWxpbmuAgMACAAGKgICAAAJgAn9/AX9gAAACwYCAgAAEA2VudgptZW1vcnlCYXNl\
     A38AA2VudgZtZW1vcnkCAIACA2VudgV0YWJsZQFwAAADZW52CXRhYmxlQmFzZQN/AAOEgICAAAMAAQEGi\
     4CAgAACfwFBAAt/AUEACwejgICAAAIKX3RyYW5zZm9ybQAAEl9fcG9zdF9pbnN0YW50aWF0ZQACCYGAgI\
     AAAArpgICAAAPBgICAAAECfwJ/IABBAEoEQEEAIQIFIAAPCwNAIAEgAmoiAywAAEHpAEYEQCADQfkAOgA\
     ACyACQQFqIgIgAEcNAAsgAAsLg4CAgAAAAQuVgICAAAACQCMAJAIjAkGAgMACaiQDEAELCw==";

const MESSAGING: &str = "wascc:messaging";
const KEY_VALUE: &str = "wascc:keyvalue";

fn opt_u64(v: Option<u64>) -> String {
    match v {
        Some(n) => n.to_string(),
        None => "~".to_string(),
    }
}

fn parse_opt_u64(s: &str) -> Option<Option<u64>> {
    if s == "~" {
        Some(None)
    } else {
        s.parse().ok().map(Some)
    }
}

fn opt_list(v: &Option<Vec<String>>) -> String {
    match v {
        Some(l) => format!("+{}", l.join(",")),
        None => "~".to_string(),
    }
}

fn parse_opt_list(s: &str) -> Option<Option<Vec<String>>> {
    if s == "~" {
        Some(None)
    } else if s == "+" {
        Some(Some(vec![]))
    } else {
        s.strip_prefix('+')
            .map(|l| Some(l.split(',').map(|x| x.to_string()).collect()))
    }
}

/// A small signed-token format for the tests: the claims' fields, one per
/// line, in hexadecimal, a dot, and the issuer's signature in hexadecimal.
fn encode_with(kp: &KeyPair, c: &Claims) -> Option<String> {
    let body = [
        c.module_hash.clone(),
        opt_u64(c.expires),
        c.id.clone(),
        c.issued_at.to_string(),
        c.issuer.clone(),
        c.subject.clone(),
        opt_u64(c.not_before),
        opt_list(&c.tags),
        opt_list(&c.caps),
    ]
    .join("\n");
    let sig = kp.sign(body.as_bytes()).ok()?;
    Some(format!("{}.{}", HEXUPPER.encode(body.as_bytes()), HEXUPPER.encode(&sig)))
}

fn decode_token(token: String) -> Option<Claims> {
    let (body_hex, sig_hex) = token.split_once('.')?;
    let body_bytes = HEXUPPER.decode(body_hex.as_bytes()).ok()?;
    let sig = HEXUPPER.decode(sig_hex.as_bytes()).ok()?;
    let body = String::from_utf8(body_bytes).ok()?;
    let fields: Vec<&str> = body.split('\n').collect();
    if fields.len() != 9 {
        return None;
    }
    let issuer_kp = KeyPair::from_public_key(fields[4]).ok()?;
    issuer_kp.verify(body.as_bytes(), &sig).ok()?;
    Some(Claims {
        module_hash: fields[0].to_string(),
        expires: parse_opt_u64(fields[1])?,
        id: fields[2].to_string(),
        issued_at: fields[3].parse().ok()?,
        issuer: fields[4].to_string(),
        subject: fields[5].to_string(),
        not_before: parse_opt_u64(fields[6])?,
        tags: parse_opt_list(fields[7])?,
        caps: parse_opt_list(fields[8])?,
    })
}

fn raw_module() -> Vec<u8> {
    let dec_module = BASE64.decode(WASM_BASE64.as_bytes()).unwrap();
    let m: Module = deserialize_buffer(&dec_module).unwrap();
    serialize(m).unwrap()
}

fn sample_claims(kp: &KeyPair) -> Claims {
    Claims {
        module_hash: "".to_string(),
        expires: None,
        id: "claims-0001".to_string(),
        issued_at: 0,
        issuer: kp.public_key(),
        subject: "test.wasm".to_string(),
        not_before: None,
        tags: None,
        caps: Some(vec![MESSAGING.to_string(), KEY_VALUE.to_string()]),
    }
}

fn with_section(bytes: &[u8], name: &str, payload: Vec<u8>) -> Vec<u8> {
    let mut m: Module = deserialize_buffer(bytes).unwrap();
    m.set_custom_section(name, payload);
    serialize(m).unwrap()
}

fn count_sections(bytes: &[u8], name: &str) -> usize {
    let m: Module = deserialize_buffer(bytes).unwrap();
    let n = m.custom_sections().filter(|s| s.name() == name).count();
    n
}

#[test]
fn claims_roundtrip() {
    let raw_module = raw_module();
    let kp = KeyPair::new_account();
    let claims = sample_claims(&kp);
    let modified_bytecode =
        embed_claims(&raw_module, &claims, |c: Claims| encode_with(&kp, &c)).unwrap();
    println!(
        "Added {} bytes in custom section.",
        modified_bytecode.len() - raw_module.len()
    );
    if let Some(token) = extract_claims(&modified_bytecode, decode_token).unwrap() {
        assert_eq!(claims.issuer, token.claims.issuer);
        assert_eq!(claims.caps, token.claims.caps);
        assert_ne!(claims.module_hash, token.claims.module_hash);
    } else {
        assert!(false);
    }
}

#[test]
fn embedded_caps_and_hash_shape() {
    let raw_module = raw_module();
    let kp = KeyPair::new_account();
    let claims = sample_claims(&kp);
    let out = embed_claims(&raw_module, &claims, |c: Claims| encode_with(&kp, &c)).unwrap();
    let token = extract_claims(&out, decode_token).unwrap().unwrap();
    assert_eq!(
        token.claims.caps,
        Some(vec![MESSAGING.to_string(), KEY_VALUE.to_string()])
    );
    assert_eq!(token.claims.module_hash.len(), 64);
    assert!(token
        .claims
        .module_hash
        .chars()
        .all(|c| c.is_ascii_digit() || ('A'..='F').contains(&c)));
    assert_eq!(token.claims.subject, "test.wasm");
    assert_eq!(token.claims.id, "claims-0001");
}

#[test]
fn embedded_hash_is_hash_of_module_without_token() {
    let raw_module = raw_module();
    let kp = KeyPair::new_account();
    let out = embed_claims(&raw_module, &sample_claims(&kp), |c: Claims| encode_with(&kp, &c))
        .unwrap();
    let token = extract_claims(&out, decode_token).unwrap().unwrap();
    assert_eq!(token.claims.module_hash, hash_hex(&raw_module));
    let m: Module = deserialize_buffer(&out).unwrap();
    assert_eq!(compute_hash_without_jwt(m).unwrap(), hash_hex(&raw_module));
    assert_eq!(count_sections(&out, "jwt"), 1);
}

#[test]
fn tampered_module_is_rejected() {
    let raw_module = raw_module();
    let kp = KeyPair::new_account();
    let mut out = embed_claims(&raw_module, &sample_claims(&kp), |c: Claims| {
        encode_with(&kp, &c)
    })
    .unwrap();
    let name = b"_transform";
    let pos = out.windows(name.len()).position(|w| w == name).unwrap();
    out[pos + 1] = b'T';
    assert_eq!(
        extract_claims(&out, decode_token),
        Err(ErrorKind::InvalidModuleHash)
    );
}

#[test]
fn module_without_token_has_no_claims() {
    let raw_module = raw_module();
    assert_eq!(extract_claims(&raw_module, decode_token), Ok(None));
}

#[test]
fn non_utf8_token_section_is_an_encoding_error() {
    let bytes = with_section(&raw_module(), "jwt", vec![0xff, 0xfe, 0x41]);
    assert_eq!(
        extract_claims(&bytes, decode_token),
        Err(ErrorKind::Encoding)
    );
}

#[test]
fn malformed_token_is_a_decode_error() {
    let bytes = with_section(&raw_module(), "jwt", b"not a token".to_vec());
    assert_eq!(
        extract_claims(&bytes, decode_token),
        Err(ErrorKind::TokenDecode)
    );
}

#[test]
fn malformed_module_is_a_parse_error() {
    let kp = KeyPair::new_account();
    let garbage = vec![1u8, 2, 3, 4, 5];
    assert_eq!(extract_claims(&garbage, decode_token), Err(ErrorKind::Parse));
    assert_eq!(
        embed_claims(&garbage, &sample_claims(&kp), |c: Claims| encode_with(&kp, &c)),
        Err(ErrorKind::Parse)
    );
    assert_eq!(extract_claims(&[], decode_token), Err(ErrorKind::Parse));
}

#[test]
fn failing_signer_is_a_signing_error() {
    let kp = KeyPair::new_account();
    assert_eq!(
        embed_claims(&raw_module(), &sample_claims(&kp), |_c: Claims| None),
        Err(ErrorKind::Signing)
    );
}

#[test]
fn embedding_twice_verifies_both_times() {
    let raw_module = raw_module();
    let kp = KeyPair::new_account();
    let claims = sample_claims(&kp);
    let first = embed_claims(&raw_module, &claims, |c: Claims| encode_with(&kp, &c)).unwrap();
    let second = embed_claims(&raw_module, &claims, |c: Claims| encode_with(&kp, &c)).unwrap();
    let t1 = extract_claims(&first, decode_token).unwrap().unwrap();
    let t2 = extract_claims(&second, decode_token).unwrap().unwrap();
    assert_eq!(t1.claims.module_hash, t2.claims.module_hash);
    let again = embed_claims(&first, &claims, |c: Claims| encode_with(&kp, &c)).unwrap();
    let t3 = extract_claims(&again, decode_token).unwrap().unwrap();
    assert_eq!(t3.claims.module_hash, t1.claims.module_hash);
    assert_eq!(count_sections(&again, "jwt"), 1);
}

#[test]
fn duplicate_token_sections_are_replaced_by_one() {
    let raw_module = raw_module();
    let mut m: Module = deserialize_buffer(&raw_module).unwrap();
    m.sections_mut().push(parity_wasm::elements::Section::Custom(
        parity_wasm::elements::CustomSection::new("jwt".to_string(), vec![1]),
    ));
    m.sections_mut().push(parity_wasm::elements::Section::Custom(
        parity_wasm::elements::CustomSection::new("other".to_string(), vec![7]),
    ));
    m.sections_mut().push(parity_wasm::elements::Section::Custom(
        parity_wasm::elements::CustomSection::new("jwt".to_string(), vec![2]),
    ));
    let mut stripped = m.clone();
    strip_custom_section(&mut stripped, "jwt");
    assert_eq!(stripped.custom_sections().filter(|s| s.name() == "jwt").count(), 0);
    assert_eq!(stripped.custom_sections().filter(|s| s.name() == "other").count(), 1);
    replace_custom_section(&mut m, "jwt", vec![9, 9]);
    let jwts: Vec<Vec<u8>> = m
        .custom_sections()
        .filter(|s| s.name() == "jwt")
        .map(|s| s.payload().to_vec())
        .collect();
    assert_eq!(jwts, vec![vec![9u8, 9]]);
}

#[test]
fn find_section_returns_first_match() {
    let sections = vec![
        ("a".to_string(), vec![1u8]),
        ("jwt".to_string(), vec![2u8]),
        ("jwt".to_string(), vec![3u8]),
    ];
    assert_eq!(find_section(&sections, "jwt"), Some(1));
    assert_eq!(find_section(&sections, "a"), Some(0));
    assert_eq!(find_section(&sections, "b"), None);
    assert_eq!(find_section(&vec![], "jwt"), None);
}

#[test]
fn check_claims_outcomes() {
    let kp = KeyPair::new_account();
    let mut c = sample_claims(&kp);
    c.module_hash = "ABCD".to_string();
    assert_eq!(
        check_claims("t".to_string(), None, "ABCD".to_string()),
        Err(ErrorKind::TokenDecode)
    );
    assert_eq!(
        check_claims("t".to_string(), Some(c.clone()), "ABCE".to_string()),
        Err(ErrorKind::InvalidModuleHash)
    );
    assert_eq!(
        check_claims("t".to_string(), Some(c.clone()), "ABCD".to_string()),
        Ok(Some(Token {
            jwt: "t".to_string(),
            claims: c
        }))
    );
}

#[test]
fn sha256_known_values() {
    assert_eq!(
        hash_hex(b"abc"),
        "BA7816BF8F01CFEA414140DE5DAE2223B00361A396177A9CB410FF61F20015AD"
    );
    assert_eq!(
        hash_hex(b""),
        "E3B0C44298FC1C149AFBF4C8996FB92427AE41E4649B934CA495991B7852B855"
    );
}

#[test]
fn sha256_over_several_chunks() {
    let data: Vec<u8> = (0..5000u32).map(|i| (i % 251) as u8).collect();
    let expected = ring::digest::digest(&ring::digest::SHA256, &data);
    assert_eq!(sha256_digest(&data), expected.as_ref().to_vec());
    let exact: Vec<u8> = vec![7u8; 2048];
    let expected = ring::digest::digest(&ring::digest::SHA256, &exact);
    assert_eq!(sha256_digest(&exact), expected.as_ref().to_vec());
}

#[test]
fn hex_is_upper_case() {
    assert_eq!(encode_hex(&[0x00, 0xab, 0x1f, 0xff]), "00AB1FFF");
    assert_eq!(encode_hex(&[]), "");
}

#[test]
fn day_offsets_to_epoch_seconds() {
    assert_eq!(days_from_now_to_jwt_time(Some(2), 1000), Some(1000 + 2 * 86400));
    assert_eq!(days_from_now_to_jwt_time(Some(0), 1000), Some(1000));
    assert_eq!(days_from_now_to_jwt_time(None, 1000), None);
}

#[test]
fn clock_reads_after_epoch() {
    let (secs, nanos) = since_the_epoch().unwrap();
    assert!(nanos < 1000000000);
    assert!(secs > 1500000000);
    assert!(epoch_seconds_now().unwrap() > 1_500_000_000);
}

#[test]
fn with_module_hash_keeps_other_fields() {
    let kp = KeyPair::new_account();
    let c = sample_claims(&kp);
    let h = c.with_module_hash("00FF".to_string());
    assert_eq!(h.module_hash, "00FF");
    assert_eq!(h.caps, c.caps);
    assert_eq!(h.issuer, c.issuer);
    assert_eq!(h.id, c.id);
}

#[test]
fn signed_buffer_carries_dates_and_keys() {
    let raw_module = raw_module();
    let mod_kp = KeyPair::new_module();
    let acct_kp = KeyPair::new_account();
    let now = 1_600_000_000u64;
    let out = sign_buffer_with_claims(
        &raw_module,
        &mod_kp,
        &acct_kp,
        Some(10),
        Some(1),
        vec![MESSAGING.to_string()],
        vec!["demo".to_string()],
        now,
        "id-7".to_string(),
        |c: Claims| encode_with(&acct_kp, &c),
    )
    .unwrap();
    let token = extract_claims(&out, decode_token).unwrap().unwrap();
    assert_eq!(token.claims.issuer, acct_kp.public_key());
    assert_eq!(token.claims.subject, mod_kp.public_key());
    assert_eq!(token.claims.expires, Some(now + 10 * 86400));
    assert_eq!(token.claims.not_before, Some(now + 86400));
    assert_eq!(token.claims.issued_at, now);
    assert_eq!(token.claims.caps, Some(vec![MESSAGING.to_string()]));
    assert_eq!(token.claims.tags, Some(vec!["demo".to_string()]));
}

#[test]
fn with_dates_starts_without_hash() {
    let c = Claims::with_dates(
        "A".to_string(),
        "B".to_string(),
        None,
        Some(vec![]),
        None,
        Some(5),
        12,
        "x".to_string(),
    );
    assert_eq!(c.module_hash, "");
    assert_eq!(c.tags, Some(vec![]));
    assert_eq!(c.expires, Some(5));
    assert_eq!(c.issued_at, 12);
}

#[test]
fn error_kinds_describe_themselves() {
    assert!(!ErrorKind::InvalidModuleHash.description().is_empty());
    assert_ne!(
        ErrorKind::Parse.description(),
        ErrorKind::InvalidModuleHash.description()
    );
}

#[test]
fn custom_section_reads_first_payload() {
    let bytes = with_section(&raw_module(), "meta", vec![4, 5, 6]);
    let m: Module = deserialize_buffer(&bytes).unwrap();
    assert_eq!(custom_section(&m, "meta"), Some(vec![4u8, 5, 6]));
    assert_eq!(custom_section(&m, "jwt"), None);
}
