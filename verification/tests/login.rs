//! Signing in.
use base64::Engine;
use nobilis::accounts::store::{AccountStore, AccountsFile};
use nobilis::backend::discord::login::{
    accept_account, answer_nonce, exchange_ticket, finish_login, finish_token_login, login_failed, login_status,
    prove_nonce, qr_heartbeat, read_hello, read_qr_message, read_token, run_password_login, tell_scanned,
    write_qr_file, LoginStep, Opened, PendingLogins, QrAction, QrLogin, QrStep, KEY_BITS,
};
use nobilis::json::{parse, Json};

fn json(text: &str) -> Json {
    parse(text).expect("JSON")
}

fn store() -> AccountStore {
    AccountStore::open(AccountsFile { irc: vec![], discord: vec![], sneedchat: vec![], matrix: vec![], kick: vec![] })
}

#[test]
fn a_password_login_can_ask_for_a_code() {
    let request = run_password_login("me@example.com", "SECRET-REDACTED");
    assert_eq!(request.body.as_ref().unwrap().at("login").text(), Some("me@example.com"));
    let mut pending = PendingLogins::new();
    let step = pending.handle_login_response("l1", &json(r#"{ "mfa": true, "ticket": "t1" }"#), None);
    assert!(matches!(step, LoginStep::AskCode(_)));
    let (request, reauth) = pending.run_mfa_submit("l1", "123456").expect("a login waits for a code");
    assert_eq!(reauth, None);
    let body = request.body.unwrap();
    assert_eq!(body.at("code").text(), Some("123456"));
    assert_eq!(body.at("ticket").text(), Some("t1"));
    // The ticket is spent.
    assert!(pending.run_mfa_submit("l1", "123456").is_err());
}

#[test]
fn a_token_finishes_a_login_and_anything_else_fails_it() {
    let mut pending = PendingLogins::new();
    let done = pending.handle_login_response("l1", &json(r#"{ "token": "tok" }"#), None);
    assert_eq!(done, LoginStep::Finish("tok".into()));
    let refused = pending.handle_login_response("l1", &json(r#"{ "message": "Login or password is invalid." }"#), None);
    match refused {
        LoginStep::Fail(e) => assert!(e.contains("Login or password is invalid."), "{e}"),
        other => panic!("{other:?}"),
    }
    let asked = json(r#"{ "captcha_key": ["captcha-required"], "captcha_sitekey": "abc" }"#);
    assert!(matches!(pending.handle_login_response("l1", &asked, None), LoginStep::Fail(_)));
}

#[test]
fn the_remote_gateway_is_understood() {
    let hello = json(r#"{ "op": "hello", "heartbeat_interval": 41250, "timeout_ms": 120000 }"#);
    assert_eq!(read_hello(&hello), (120_000, 41_250));
    assert_eq!(qr_heartbeat().at("op").text(), Some("heartbeat"));
    assert_eq!(
        read_qr_message(&json(r#"{ "op": "nonce_proof", "encrypted_nonce": "AAAA" }"#)),
        QrStep::Prove("AAAA".into())
    );
    assert_eq!(
        read_qr_message(&json(r#"{ "op": "pending_ticket", "encrypted_user_payload": "AAAA" }"#)),
        QrStep::Scanned("AAAA".into())
    );
    assert_eq!(
        read_qr_message(&json(r#"{ "op": "pending_login", "ticket": "t" }"#)),
        QrStep::Ticket("t".into())
    );
    assert!(matches!(read_qr_message(&json(r#"{ "op": "cancel" }"#)), QrStep::Fail(_)));
    assert_eq!(read_qr_message(&json(r#"{ "op": "heartbeat_ack" }"#)), QrStep::Nothing);
}

#[test]
fn a_nonce_is_proven_in_the_alphabet_of_addresses() {
    let proof = prove_nonce(&[0xfb, 0xff]);
    assert_eq!(proof.at("op").text(), Some("nonce_proof"));
    assert_eq!(proof.at("proof").text(), Some("24_tVBWa_kCs5bSdcCJZ_YjJxACTBxgYJEh7qrXGveo"));
    assert_eq!(answer_nonce(Opened::Plain(vec![0xfb, 0xff])), Ok(QrAction::Send(proof)));
    assert!(answer_nonce(Opened::NotEncoded).is_err());
    assert!(answer_nonce(Opened::NotSealed).is_err());
}

#[test]
fn whoever_scanned_is_told_of() {
    let told = tell_scanned("l1", b"5:0:abc:alice");
    assert!(told.write().contains("alice"), "{}", told.write());
    assert_eq!(read_token(Opened::Plain(b"tok".to_vec())), Ok("tok".into()));
    assert!(read_token(Opened::Plain(vec![0xff, 0xfe])).is_err());
    assert!(exchange_ticket("t").body.unwrap().write().contains("\"t\""));
}

#[test]
fn what_does_not_open_is_an_error() {
    let login = QrLogin::new().expect("a key pair");
    assert_eq!(login.open("???"), Opened::NotEncoded);
    assert_eq!(login.open("AAAA"), Opened::NotSealed);
    assert!(login.run_qr_login("l1", &json(r#"{ "op": "nonce_proof", "encrypted_nonce": "???" }"#)).is_err());
    assert_eq!(
        login.run_qr_login("l1", &json(r#"{ "op": "pending_login", "ticket": "t" }"#)),
        Ok(QrAction::Ticket("t".into()))
    );
    assert!(login.token_from(&json("{}")).is_err());
}

/// Seals a text for the key that a login announced.
fn seal(init: &Json, plain: &[u8]) -> String {
    let der = base64::engine::general_purpose::STANDARD
        .decode(init.at("encoded_public_key").text().expect("a public key"))
        .expect("base64");
    let key: rsa::RsaPublicKey = rsa::pkcs8::DecodePublicKey::from_public_key_der(&der).expect("a public key");
    let sealed = key
        .encrypt(&mut rand::thread_rng(), rsa::Oaep::new::<sha2::Sha256>(), plain)
        .expect("a short text can be sealed");
    base64::engine::general_purpose::STANDARD.encode(sealed)
}

#[test]
fn what_is_sealed_for_a_login_opens() {
    let login = QrLogin::new().expect("a key pair");
    let init = login.init().expect("a key pair has a public half");
    assert_eq!(init.at("op").text(), Some("init"));
    let asked = Json::object()
        .put("op", Json::string("nonce_proof"))
        .put("encrypted_nonce", Json::string(&seal(&init, &[0xfb, 0xff])));
    assert_eq!(login.run_qr_login("l1", &asked), Ok(QrAction::Send(prove_nonce(&[0xfb, 0xff]))));
    let scanned = Json::object()
        .put("op", Json::string("pending_ticket"))
        .put("encrypted_user_payload", Json::string(&seal(&init, b"5:0:abc:alice")));
    assert_eq!(login.run_qr_login("l1", &scanned), Ok(QrAction::Tell(tell_scanned("l1", b"5:0:abc:alice"))));
    let answer = Json::object().put("encrypted_token", Json::string(&seal(&init, b"tok")));
    assert_eq!(login.token_from(&answer), Ok("tok".into()));
    // Another login cannot open it.
    let other = QrLogin::new().expect("another key pair");
    assert_eq!(other.open(&seal(&init, b"tok")), Opened::NotSealed);
}

#[test]
fn a_code_can_be_drawn() {
    let picture = write_qr_file("https://discord.com/ra/abc").expect("a short address fits");
    assert_eq!(picture.points.len(), picture.width as usize * picture.height as usize);
    assert!(picture.points.iter().any(|p| *p != picture.points[0]), "a code is not all of one colour");
}

#[test]
fn an_account_is_taken_in_by_its_profile() {
    let me = json(r#"{ "id": "5", "username": "alice", "global_name": "Alice", "avatar": "abc" }"#);
    let config = accept_account(&me, "tok", None).unwrap();
    assert_eq!(config.user_id, "5");
    assert_eq!(config.token, "tok");
    assert!(accept_account(&me, "tok", Some("discord:6")).is_err(), "somebody else signed in");
    assert!(accept_account(&json("{}"), "tok", None).is_err());
    let mut accounts = store();
    let (kept, listed) = finish_login(&mut accounts, &me, "tok", None).unwrap();
    assert_eq!(kept.user_id, "5");
    assert_eq!(listed.id, "discord:5");
    assert_eq!(accounts.get_discord("discord:5").unwrap().token, "tok");
}

#[test]
fn a_token_login_asks_who_it_is() {
    assert!(finish_token_login(" tok ").is_ok());
    assert!(finish_token_login("  ").is_err());
    assert!(login_status("l1", "waiting").write().contains("waiting"));
    assert!(login_failed("l1", "refused").write().contains("refused"));
}

#[test]
fn a_login_announces_a_key_of_its_size() {
    let login = QrLogin::new().expect("a key pair");
    let init = login.init().expect("a key pair has a public half");
    let der = base64::engine::general_purpose::STANDARD
        .decode(init.at("encoded_public_key").text().expect("a public key"))
        .expect("base64");
    let key: rsa::RsaPublicKey = rsa::pkcs8::DecodePublicKey::from_public_key_der(&der).expect("a public key");
    assert_eq!(rsa::traits::PublicKeyParts::size(&key) * 8, KEY_BITS);
    assert_ne!(QrLogin::new().expect("another key pair").init(), Ok(init), "every login has a key of its own");
}
