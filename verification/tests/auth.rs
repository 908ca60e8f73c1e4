use base64::{engine::general_purpose::STANDARD, Engine as _};
use bytes::{BufMut, Bytes, BytesMut};
use hmac::{Hmac, KeyInit, Mac};
use sha2::{Digest, Sha256};

use pg_kinetic_proxy::auth::{
    authenticate_client, authenticate_md5, expected_md5_client_hash, hex_lower, load_user_store,
    md5_salt, parse_md5_password_response, rejection_message, scram_escape, scram_unescape, xor_bytes,
    AuthStart, BackendAuthSession, BackendCredentials, EnvironmentCredentialProvider, Md5Verdict,
    ScramExchange, ScramVerdict,
};
use pg_kinetic_proxy::backend_query::{
    auth_query_startup_packet, encode_query_message, parse_auth_query_result, parse_data_row,
    parse_user_secret, quote_literal, read_query_frames, render_auth_query, AuthQueryCache,
    SimpleQueryRow,
};
use pg_kinetic_proxy::clock::Duration;
use pg_kinetic_proxy::config::{AuthConfig, AuthFailureMessageMode, AuthMode};
use pg_kinetic_proxy::secrets::{
    generate_nonce, nonce_of, Md5Secret, ScramVerifier, UserSecret, UserStore,
};
use pg_kinetic_proxy::wire::{parse_startup_packet, FrontendFrame, StartupPacket};

fn credentials() -> BackendCredentials {
    BackendCredentials::new(String::from("pool_user"), String::from("pool-password"))
}

#[test]
fn backend_auth_sends_cleartext_password_only_over_tls() {
    let mut session = BackendAuthSession::with_nonce(credentials(), String::from("nonce"));

    let response = session
        .respond(&3_i32.to_be_bytes(), true)
        .expect("cleartext auth response")
        .expect("cleartext password frame");

    assert_eq!(&response[..], b"p\0\0\0\x12pool-password\0");
    assert!(session.respond(&3_i32.to_be_bytes(), false).is_err());
}

#[test]
fn backend_auth_sends_the_postgres_md5_password_response() {
    let mut session = BackendAuthSession::with_nonce(credentials(), String::from("nonce"));
    let mut request = 5_i32.to_be_bytes().to_vec();
    request.extend_from_slice(&[1, 2, 3, 4]);

    let response = session
        .respond(&request, true)
        .expect("MD5 auth response")
        .expect("MD5 password frame");

    assert_eq!(&response[..], b"p\0\0\0(md5f0fd7950af7ca2887fd5d036850c905d\0");
}

#[test]
fn backend_auth_completes_scram_and_verifies_the_server_signature() {
    let mut session = BackendAuthSession::with_nonce(credentials(), String::from("nonce"));
    let mut initial_request = 10_i32.to_be_bytes().to_vec();
    initial_request.extend_from_slice(b"SCRAM-SHA-256\0\0");

    let initial = session
        .respond(&initial_request, true)
        .expect("SCRAM initial response")
        .expect("SCRAM initial frame");
    assert!(initial.ends_with(b"n,,n=pool_user,r=nonce"));

    let mut continue_request = 11_i32.to_be_bytes().to_vec();
    continue_request.extend_from_slice(b"r=nonce-server,s=c2FsdA==,i=4096");
    let final_response = session
        .respond(&continue_request, true)
        .expect("SCRAM final response")
        .expect("SCRAM final frame");
    assert!(final_response.windows(7).any(|window| window == b"c=biws,"));

    let signature = session
        .expected_server_signature()
        .expect("expected server signature");
    let mut server_final = 12_i32.to_be_bytes().to_vec();
    server_final.extend_from_slice(format!("v={}", STANDARD.encode(signature)).as_bytes());
    assert_eq!(
        session.respond(&server_final, true).expect("valid server signature"),
        None
    );
}

#[test]
fn backend_auth_rejects_an_invalid_scram_server_signature() {
    let mut session = BackendAuthSession::with_nonce(credentials(), String::from("nonce"));
    let mut initial_request = 10_i32.to_be_bytes().to_vec();
    initial_request.extend_from_slice(b"SCRAM-SHA-256\0\0");
    let _ = session
        .respond(&initial_request, true)
        .expect("SCRAM initial response");
    let mut continue_request = 11_i32.to_be_bytes().to_vec();
    continue_request.extend_from_slice(b"r=nonce-server,s=c2FsdA==,i=4096");
    let _ = session
        .respond(&continue_request, true)
        .expect("SCRAM final response");

    let error = session
        .respond(b"\0\0\0\x0cv=not-a-valid-signature", true)
        .expect_err("invalid server signature must fail");
    assert!(error.to_string().contains("signature"));
}

#[test]
fn quotes_auth_query_username_literals() {
    assert_eq!(quote_literal("alice"), "'alice'");
    assert_eq!(quote_literal(""), "''");
    assert_eq!(quote_literal("a'lice"), "'a''lice'");
    assert_eq!(
        render_auth_query("select $1", "x'; drop table users; --").expect("render"),
        "select 'x''; drop table users; --'"
    );
    assert!(render_auth_query("select $1, $1", "alice").is_err());
    assert!(render_auth_query("select 'alice'", "alice").is_err());
}

#[test]
fn parses_data_rows_strictly() {
    let mut payload = BytesMut::new();
    payload.put_i16(2);
    payload.put_i32(5);
    payload.extend_from_slice(b"alice");
    payload.put_i32(-1);

    let row = parse_data_row(&payload).expect("parse");
    assert_eq!(
        row,
        SimpleQueryRow { columns: vec![Some(String::from("alice")), None] }
    );

    let mut trailing = payload.clone();
    trailing.put_u8(0);
    assert!(parse_data_row(&trailing).is_err());

    let mut truncated = BytesMut::new();
    truncated.put_i16(1);
    truncated.put_i32(5);
    truncated.extend_from_slice(b"ali");
    assert!(parse_data_row(&truncated).is_err());
}

#[test]
fn cache_expires_after_ttl() {
    let mut cache = AuthQueryCache::new();
    let start = Duration::from_secs(100);
    cache.put("alice", UserSecret::Trust, start);
    assert!(cache.get("alice", Duration::from_secs(60), start).is_some());
    assert!(cache.get("alice", Duration::zero(), start).is_none());
    let later = start.plus(&Duration::from_millis(3));
    assert!(cache.get("alice", Duration::from_millis(1), later).is_none());
}

#[test]
fn a_cached_user_is_held_once() {
    let mut cache = AuthQueryCache::new();
    let start = Duration::from_secs(100);
    let later = start.plus(&Duration::from_secs(50));
    let ttl = Duration::from_secs(60);
    cache.put("alice", UserSecret::Trust, start);
    cache.put("bob", UserSecret::Trust, start);
    let hash = Md5Secret::parse("md5a6343a68d964ca596d9752250d54bb8a").expect("digest");
    cache.put("alice", UserSecret::Md5(hash), later);
    let end = start.plus(&Duration::from_secs(70));
    assert!(matches!(cache.get("alice", ttl, end), Some(UserSecret::Md5(_))));
    assert!(cache.get("bob", ttl, end).is_none());
    assert_eq!(format!("{cache:?}").matches("alice").count(), 1);
}

#[test]
fn escaping_keeps_names_and_hides_commas() {
    for name in ["plain", "a,b", "a=b", "=2C", "=,=,"] {
        let escaped = scram_escape(name);
        assert!(!escaped.contains(','));
        assert_eq!(scram_unescape(&escaped).expect("unescape"), name);
    }
    assert_eq!(scram_escape("a,b=c"), "a=2Cb=3Dc");
    assert!(scram_unescape("=4F").is_err());
}

#[test]
fn xor_twice_gives_the_first_back() {
    let a = [1u8, 2, 255, 7];
    let b = [9u8, 8, 1, 7];
    let once = xor_bytes(&a, &b);
    assert_eq!(once, vec![8, 10, 254, 0]);
    assert_eq!(xor_bytes(&once, &b), a.to_vec());
}

#[test]
fn bytes_are_shown_in_small_letters() {
    assert_eq!(hex_lower(&[0, 15, 16, 255]), "000f10ff");
}

#[test]
fn credentials_come_from_the_environment() {
    let provider = EnvironmentCredentialProvider::new("pool", "POOL_PASSWORD");
    assert_eq!(provider.password_env_var_name(), "POOL_PASSWORD");
    let found = provider.credentials_from(Some("x".to_string())).expect("set");
    assert_eq!(found.username(), "pool");
    assert_eq!(found.password(), "x");
    assert!(provider.credentials_from(None).is_err());
}

fn scram_secret(password: &str, salt: &[u8], iterations: u32) -> ScramVerifier {
    let mut salted = [0u8; 32];
    pbkdf2::pbkdf2_hmac::<Sha256>(password.as_bytes(), salt, iterations, &mut salted);
    let keyed = |key: &[u8], text: &[u8]| -> [u8; 32] {
        let mut mac = Hmac::<Sha256>::new_from_slice(key).expect("any key");
        mac.update(text);
        mac.finalize().into_bytes().into()
    };
    let client_key = keyed(&salted, b"Client Key");
    ScramVerifier {
        iterations,
        salt: salt.to_vec(),
        stored_key: Sha256::digest(client_key).into(),
        server_key: keyed(&salted, b"Server Key"),
    }
}

fn password_frame(body: Vec<u8>) -> FrontendFrame {
    FrontendFrame { tag: b'p', payload: Bytes::from(body) }
}

fn initial_response(first: &str) -> FrontendFrame {
    let mut body = b"SCRAM-SHA-256\0".to_vec();
    body.extend_from_slice(&(first.len() as i32).to_be_bytes());
    body.extend_from_slice(first.as_bytes());
    password_frame(body)
}

#[test]
fn the_two_ends_of_scram_agree() {
    let verifier = scram_secret("pool-password", b"salt", 4096);
    let mut client = BackendAuthSession::with_nonce(credentials(), String::from("cnonce"));

    let mut request = 10_i32.to_be_bytes().to_vec();
    request.extend_from_slice(b"SCRAM-SHA-256\0\0");
    let first = client.respond(&request, true).expect("first").expect("frame");
    let frame = password_frame(first[5..].to_vec());
    let exchange = ScramExchange::open(&frame, "pool_user", String::from("snonce"), &verifier)
        .expect("exchange");
    assert_eq!(exchange.server_first(), "r=cnoncesnonce,s=c2FsdA==,i=4096");

    let mut request = 11_i32.to_be_bytes().to_vec();
    request.extend_from_slice(exchange.server_first().as_bytes());
    let last = client.respond(&request, true).expect("final").expect("frame");
    let frame = password_frame(last[5..].to_vec());
    let verdict = exchange
        .close(&frame, "pool_user", AuthFailureMessageMode::Generic, &verifier)
        .expect("verdict");
    let server_final = match verdict {
        ScramVerdict::Accepted { server_final } => server_final,
        _ => panic!("not accepted"),
    };
    let mut request = 12_i32.to_be_bytes().to_vec();
    request.extend_from_slice(server_final.as_bytes());
    assert_eq!(client.respond(&request, true), Ok(None));

    let stranger = scram_secret("another", b"salt", 4096);
    let refused = exchange
        .close(&frame, "pool_user", AuthFailureMessageMode::Generic, &stranger)
        .expect("verdict");
    assert!(!matches!(refused, ScramVerdict::Accepted { .. }));
}

#[test]
fn scram_opens_only_for_the_user_that_logs_in() {
    let verifier = scram_secret("p", b"salt", 1);
    assert!(ScramExchange::open(
        &initial_response("n,,n=alice,r=abc"),
        "alice",
        String::from("s"),
        &verifier
    )
    .is_ok());
    assert!(ScramExchange::open(
        &initial_response("n,,n=mallory,r=abc"),
        "alice",
        String::from("s"),
        &verifier
    )
    .is_err());
}

#[test]
fn salts_are_drawn_from_the_system() {
    let salts: Vec<[u8; 4]> = (0..16).map(|_| md5_salt().expect("salt")).collect();
    assert!(salts.iter().any(|salt| *salt != salts[0]));
}

#[test]
fn md5_answers_are_compared() {
    let secret = Md5Secret::parse("md5a6343a68d964ca596d9752250d54bb8a");
    assert!(Md5Secret::parse("md5short").is_none());
    let secret = secret.expect("digest");
    let salt = [1u8, 2, 3, 4];
    let expected = expected_md5_client_hash(&secret, &salt);
    assert_eq!(expected.len(), 32);
    let mut body = format!("md5{}", expected).into_bytes();
    body.push(0);
    assert!(parse_md5_password_response(&body).is_some());
    assert!(parse_md5_password_response(b"password\0").is_none());
    let verdict = authenticate_md5(
        &password_frame(body),
        "alice",
        AuthFailureMessageMode::Generic,
        &secret,
        &salt,
    )
    .expect("verdict");
    assert!(matches!(verdict, Md5Verdict::Accepted));
    let mut wrong = b"md5".to_vec();
    wrong.extend_from_slice(&[b'0'; 32]);
    wrong.push(0);
    let verdict = authenticate_md5(
        &password_frame(wrong),
        "alice",
        AuthFailureMessageMode::Generic,
        &secret,
        &salt,
    )
    .expect("verdict");
    assert!(!matches!(verdict, Md5Verdict::Accepted));
}

#[test]
fn generic_refusals_tell_nothing() {
    let a = rejection_message(AuthFailureMessageMode::Generic, "alice", "unknown user");
    let b = rejection_message(AuthFailureMessageMode::Generic, "alice", "wrong password");
    assert_eq!(a, b);
    let c = rejection_message(AuthFailureMessageMode::Detailed, "alice", "unknown user");
    assert_ne!(a, c);
}

#[test]
fn users_are_let_in_by_their_secret() {
    let mut users = UserStore::new();
    users.insert("alice".to_string(), UserSecret::Trust);
    let mut auth = AuthConfig::default();
    assert!(matches!(
        authenticate_client("alice", &auth, &users),
        AuthStart::PassThrough
    ));
    auth.auth_mode = AuthMode::Trust;
    assert!(matches!(
        authenticate_client("alice", &auth, &users),
        AuthStart::Authenticated
    ));
    auth.auth_mode = AuthMode::ScramSha256;
    assert!(matches!(
        authenticate_client("nobody", &auth, &users),
        AuthStart::Rejected { .. }
    ));
    assert!(users.get("alice").is_some());
    assert!(users.get("bob").is_none());
    let hash = Md5Secret::parse("md5a6343a68d964ca596d9752250d54bb8a").expect("digest");
    users.insert("alice".to_string(), UserSecret::Md5(hash));
    assert!(matches!(users.get("alice"), Some(UserSecret::Md5(_))));
    let store = load_user_store(
        "alice = trust\nalice = md5a6343a68d964ca596d9752250d54bb8a\n",
        "users.txt",
    )
    .expect("users");
    assert!(matches!(store.get("alice"), Some(UserSecret::Md5(_))));
}

#[test]
fn user_files_are_read_line_by_line() {
    let store = load_user_store(
        "# comment\n\nalice = trust\n\"bob\" = \"md5a6343a68d964ca596d9752250d54bb8a\"\n",
        "users.txt",
    )
    .expect("users");
    assert!(matches!(store.get("alice"), Some(UserSecret::Trust)));
    assert!(matches!(store.get("bob"), Some(UserSecret::Md5(_))));
    assert_eq!(
        load_user_store("\nalice", "users.txt").err(),
        Some("parse auth users file users.txt line 2".to_string())
    );
    assert!(load_user_store("a = md5zz", "f").unwrap_err().starts_with("parse MD5 verifier"));
    assert!(load_user_store("a = zz", "f").unwrap_err().starts_with("parse SCRAM verifier"));
}

#[test]
fn secrets_of_lookups_are_read() {
    assert!(matches!(
        parse_user_secret("md5a6343a68d964ca596d9752250d54bb8a"),
        Ok(UserSecret::Md5(_))
    ));
    assert!(parse_user_secret("nothing of the kind").is_err());
    let rows = vec![SimpleQueryRow {
        columns: vec![
            Some("alice".to_string()),
            Some("md5a6343a68d964ca596d9752250d54bb8a".to_string()),
        ],
    }];
    assert!(matches!(parse_auth_query_result(&rows, "alice"), Ok(Some(UserSecret::Md5(_)))));
    assert!(parse_auth_query_result(&rows, "bob").is_err());
    assert!(matches!(parse_auth_query_result(&vec![], "alice"), Ok(None)));
}

#[test]
fn lookups_speak_the_protocol() {
    assert_eq!(&encode_query_message("select 1")[..], b"Q\0\0\0\x0dselect 1\0");
    let packet = auth_query_startup_packet("pool");
    match parse_startup_packet(&packet).expect("packet") {
        StartupPacket::Startup { parameters } => {
            assert_eq!(parameters[0], ("user".to_string(), "pool".to_string()));
        }
        other => panic!("not a startup packet: {:?}", other),
    }
    let mut answer = BytesMut::new();
    answer.extend_from_slice(b"D\0\0\0\x0c\0\x01\0\0\0\x02hi");
    answer.extend_from_slice(b"Z\0\0\0\x05I");
    let mut rows = Vec::new();
    assert_eq!(read_query_frames(&mut answer, &mut rows), Ok(true));
    assert_eq!(rows, vec![SimpleQueryRow { columns: vec![Some("hi".to_string())] }]);
}

#[test]
fn credentials_are_shown_without_the_password() {
    assert_eq!(
        BackendCredentials::new("a\"b".to_string(), "hunter2".to_string()).shown(),
        "BackendCredentials { username: \"a\\\"b\", password: \"[REDACTED]\" }"
    );
}

#[test]
fn nonces_are_random_bytes_in_base64() {
    let nonces: Vec<String> = (0..8).map(|_| generate_nonce().expect("nonce")).collect();
    assert!(nonces.iter().any(|nonce| *nonce != nonces[0]));
    for nonce in &nonces {
        assert_eq!(STANDARD.decode(nonce).expect("base64").len(), 18);
    }
    assert_eq!(nonce_of(&[0; 18]), "A".repeat(24));
}
