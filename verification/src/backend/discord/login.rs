//! Getting a token: by a code scanned with a phone, by a password with the second factor that may
//! follow it, or by bringing one along.
use vstd::prelude::*;
use vstd::utf8::{decode_utf8, valid_utf8};
use crate::accounts::config::{DiscordAccountConfig, DiscordAccountV};
use crate::accounts::listing::{Account, discord_account_to_json, discord_listed};
use crate::accounts::store::{AccountStore, AccountsV};
use crate::bytes::{decode_standard, encode_standard, encode_url, decoded_base64, lossy_text, standard_base64, text_from_utf8, text_from_utf8_lossy, url_base64};
use crate::json::{Json, JsonV, flag_or, jstr, law_put_then_read, nothing};
use crate::text::{blank, chars_of, is_blank, is_space, maybe, maybe_str, own, same, split, split_on, texts};
use crate::text_map::{TextMap, lemma_map_views_insert, map_views};
use super::attachments::{sha256, sha256_of};
use super::http::{Method, Request, RequestV, API_BASE, asking, asking_openly, complaints, form_errors, request_view};
use super::people::{filled, first_of, only_filled, or_else};

verus! {

pub const REMOTE_AUTH_URL: &'static str = "wss://remote-auth-gateway.discord.gg/?v=2";

/// Where a scanned code is exchanged for a token.
pub const REMOTE_AUTH_LOGIN_URL: &'static str = "https://discord.com/api/v9/users/@me/remote-auth/login";

/// What is told of how a login goes.
pub fn login_status(login_id: &str, detail: &str) -> (r: Json)
    ensures
        r@ == nothing().put("loginId"@, jstr(login_id@)).put("detail"@, jstr(detail@)),
{
    Json::object().put("loginId", Json::string(login_id)).put("detail", Json::string(detail))
}

/// What is told of a login that went through.
pub fn login_done(login_id: &str, account: &Account) -> (r: Json)
    ensures
        r@ == nothing().put("loginId"@, jstr(login_id@)).put("success"@, JsonV::Bool(true)).put(
            "accountId"@,
            jstr(account@.id),
        ).put("displayName"@, jstr(account@.display_name)),
{
    Json::object().put("loginId", Json::string(login_id)).put("success", Json::Bool(true)).put(
        "accountId",
        Json::string(account.id.as_str()),
    ).put("displayName", Json::string(account.display_name.as_str()))
}

/// What is told of a login that failed.
pub fn login_failed(login_id: &str, error: &str) -> (r: Json)
    ensures
        r@ == nothing().put("loginId"@, jstr(login_id@)).put("success"@, JsonV::Bool(false)).put(
            "error"@,
            jstr(error@),
        ),
{
    Json::object().put("loginId", Json::string(login_id)).put("success", Json::Bool(false)).put(
        "error",
        Json::string(error),
    )
}

/// What signs in with a password: the whole shape of the form, absences included.
pub open spec fn password_request(login: Seq<char>, password: Seq<char>) -> RequestV {
    asking_openly(Method::Post, API_BASE@ + "/auth/login"@).with_body(
        nothing().put("login"@, jstr(login)).put("password"@, jstr(password)).put(
            "undelete"@,
            JsonV::Bool(false),
        ).put("login_source"@, JsonV::Null).put("gift_code_sku_id"@, JsonV::Null),
    )
}

/// Signs in with a password.
pub fn run_password_login(login: &str, password: &str) -> (r: Request)
    ensures
        r@ == password_request(login@, password@),
{
    let url = API_BASE.to_owned().concat("/auth/login");
    Request::bare(Method::Post, url.as_str()).with_body(
        Json::object().put("login", Json::string(login)).put("password", Json::string(password)).put(
            "undelete",
            Json::Bool(false),
        ).put("login_source", Json::Null).put("gift_code_sku_id", Json::Null),
    )
}

/// A login that waits for a code: what stands for the password meanwhile, and the account that is
/// being signed in again, where it is one.
#[derive(Debug, PartialEq, Eq)]
pub struct PendingMfa {
    pub ticket: String,
    pub reauth_account_id: Option<String>,
}

pub struct PendingMfaV {
    pub ticket: Seq<char>,
    pub reauth_account_id: Option<Seq<char>>,
}

impl View for PendingMfa {
    type V = PendingMfaV;

    open spec fn view(&self) -> PendingMfaV {
        PendingMfaV { ticket: self.ticket@, reauth_account_id: maybe(self.reauth_account_id) }
    }
}

/// What an answer to a login comes to.
#[derive(Debug, PartialEq, Eq)]
pub enum LoginStep {
    /// A token to finish with.
    Finish(String),
    /// A second factor is asked for: what to tell.
    AskCode(Json),
    /// The words for why not.
    Fail(String),
}

pub enum LoginStepV {
    Finish(Seq<char>),
    AskCode(JsonV),
    Fail(Seq<char>),
}

impl View for LoginStep {
    type V = LoginStepV;

    open spec fn view(&self) -> LoginStepV {
        match self {
            LoginStep::Finish(t) => LoginStepV::Finish(t@),
            LoginStep::AskCode(j) => LoginStepV::AskCode(j@),
            LoginStep::Fail(t) => LoginStepV::Fail(t@),
        }
    }
}

/// What is told of a second factor: which ones the account has.
pub open spec fn factors(login_id: Seq<char>, resp: JsonV) -> JsonV {
    nothing().put("loginId"@, jstr(login_id)).put(
        "totp"@,
        JsonV::Bool(flag_or(resp.at("totp"@), true)),
    ).put("sms"@, JsonV::Bool(flag_or(resp.at("sms"@), false))).put(
        "backup"@,
        JsonV::Bool(flag_or(resp.at("backup"@), false)),
    )
}

/// The words for a rejection. A form that is refused whatever is in it means that no password is
/// taken from here, and that trying again does harm.
pub open spec fn rejection(resp: JsonV) -> Seq<char> {
    let message = match resp.at("message"@).text() {
        Some(m) => m,
        None => "Discord rejected the login and gave no reason"@,
    };
    if resp.at("code"@).as_u64() == Some(50035int) {
        "Discord refused the sign-in"@ + (match complaints(resp) {
            Some(d) => " ("@ + d + ")"@,
            None => Seq::empty(),
        }) + refused_form()
    } else {
        match complaints(resp) {
            Some(d) => message + " ("@ + d + ")"@,
            None => message,
        }
    }
}

pub open spec fn refused_form() -> Seq<char> {
    ". It generally will not accept a password from a third-party client, and each attempt counts against the account - which is where the warnings on it are coming from. Use QR login instead: approving on a device already signed in is the proof Discord is actually asking for, and it does not put the account at risk."@
}

/// What an answer to a login comes to. A token ends it; a captcha cannot be answered from here; a
/// second factor comes with a ticket.
pub open spec fn login_step(login_id: Seq<char>, resp: JsonV) -> LoginStepV {
    match resp.at("token"@).text() {
        Some(token) => LoginStepV::Finish(token),
        None => if resp.get("captcha_key"@) is Some {
            LoginStepV::Fail(
                "Discord asked for a captcha, which can't be answered from here - use QR login instead"@,
            )
        } else if flag_or(resp.at("mfa"@), false) {
            match resp.at("ticket"@).text() {
                Some(_) => LoginStepV::AskCode(factors(login_id, resp)),
                None => LoginStepV::Fail("two-factor challenge without a ticket"@),
            }
        } else {
            LoginStepV::Fail(rejection(resp))
        },
    }
}

fn explain_rejection(resp: &Json) -> (r: String)
    ensures
        r@ == rejection(resp@),
{
    let refused = match resp.at("code").as_u64() {
        Some(code) => code == 50035,
        None => false,
    };
    let detail = form_errors(resp);
    if refused {
        let mut out = "Discord refused the sign-in".to_owned();
        match &detail {
            Some(d) => {
                let part = " (".to_owned().concat(d.as_str()).concat(")");
                out.append(part.as_str());
            },
            None => {
                assert(out@ + Seq::<char>::empty() =~= out@);
            },
        }
        out.append(
            ". It generally will not accept a password from a third-party client, and each attempt counts against the account - which is where the warnings on it are coming from. Use QR login instead: approving on a device already signed in is the proof Discord is actually asking for, and it does not put the account at risk.",
        );
        return out;
    }
    let message = match resp.at("message").text() {
        Some(m) => m,
        None => "Discord rejected the login and gave no reason",
    };
    match &detail {
        Some(d) => message.to_owned().concat(" (").concat(d.as_str()).concat(")"),
        None => message.to_owned(),
    }
}

/// A code without the blanks that it was pasted with.
pub open spec fn without_blanks(code: Seq<char>) -> Seq<char>
    decreases code.len(),
{
    if code.len() == 0 {
        Seq::empty()
    } else if is_space(code.last()) {
        without_blanks(code.drop_last())
    } else {
        without_blanks(code.drop_last()).push(code.last())
    }
}

fn drop_blanks(code: &str) -> (r: String)
    ensures
        r@ == without_blanks(code@),
{
    let chars = chars_of(code);
    let mut out = String::new();
    let mut i: usize = 0;
    assert(out@ =~= without_blanks(code@.take(0)));
    while i < chars.len()
        invariant
            chars@ == code@,
            i <= chars.len(),
            out@ == without_blanks(code@.take(i as int)),
        decreases chars.len() - i,
    {
        assert(code@.take(i + 1).drop_last() =~= code@.take(i as int));
        if !chars[i].is_whitespace() {
            out.push(chars[i]);
        }
        i += 1;
    }
    assert(code@.take(i as int) =~= code@);
    out
}

/// What exchanges a ticket and a code for a token.
pub open spec fn code_request(code: Seq<char>, ticket: Seq<char>) -> RequestV {
    asking_openly(Method::Post, API_BASE@ + "/auth/mfa/totp"@).with_body(
        nothing().put("code"@, jstr(without_blanks(code))).put("ticket"@, jstr(ticket)),
    )
}

/// The logins that wait for a code.
pub struct PendingLogins {
    waiting: TextMap<PendingMfa>,
}

impl View for PendingLogins {
    type V = Map<Seq<char>, PendingMfaV>;

    closed spec fn view(&self) -> Map<Seq<char>, PendingMfaV> {
        map_views(self.waiting@)
    }
}

impl PendingLogins {
    pub fn new() -> (r: PendingLogins)
        ensures
            r@ == Map::<Seq<char>, PendingMfaV>::empty(),
    {
        let r = PendingLogins { waiting: TextMap::new() };
        assert(r@ =~= Map::<Seq<char>, PendingMfaV>::empty());
        r
    }

    /// Decides what an answer to a login comes to. One that asks for a second factor waits for it
    /// from now on.
    pub fn handle_login_response(
        &mut self,
        login_id: &str,
        resp: &Json,
        reauth_account_id: Option<&str>,
    ) -> (r: LoginStep)
        ensures
            r@ == login_step(login_id@, resp@),
            final(self)@ == (match login_step(login_id@, resp@) {
                LoginStepV::AskCode(_) => old(self)@.insert(
                    login_id@,
                    PendingMfaV {
                        ticket: resp@.at("ticket"@).text()->0,
                        reauth_account_id: maybe_str(reauth_account_id),
                    },
                ),
                _ => old(self)@,
            }),
    {
        match resp.at("token").text() {
            Some(token) => {
                return LoginStep::Finish(token.to_owned());
            },
            None => {},
        }
        if resp.get("captcha_key").is_some() {
            return LoginStep::Fail(
                "Discord asked for a captcha, which can't be answered from here - use QR login instead".to_owned(),
            );
        }
        let mfa = match resp.at("mfa").flag() {
            Some(b) => b,
            None => false,
        };
        if !mfa {
            return LoginStep::Fail(explain_rejection(resp));
        }
        let ticket = match resp.at("ticket").text() {
            Some(t) => t,
            None => {
                return LoginStep::Fail("two-factor challenge without a ticket".to_owned());
            },
        };
        let pending = PendingMfa {
            ticket: ticket.to_owned(),
            reauth_account_id: own(reauth_account_id),
        };
        proof {
            lemma_map_views_insert(self.waiting@, login_id@, pending);
        }
        self.waiting.insert(login_id, pending);
        let totp = match resp.at("totp").flag() {
            Some(b) => b,
            None => true,
        };
        let sms = match resp.at("sms").flag() {
            Some(b) => b,
            None => false,
        };
        let backup = match resp.at("backup").flag() {
            Some(b) => b,
            None => false,
        };
        LoginStep::AskCode(
            Json::object().put("loginId", Json::string(login_id)).put("totp", Json::Bool(totp)).put(
                "sms",
                Json::Bool(sms),
            ).put("backup", Json::Bool(backup)),
        )
    }

    /// Sends the code that a login waits for. A ticket is spent whatever comes of it.
    pub fn run_mfa_submit(&mut self, login_id: &str, code: &str) -> (r: Result<
        (Request, Option<String>),
        String,
    >)
        ensures
            final(self)@ == old(self)@.remove(login_id@),
            match r {
                Ok(sent) => {
                    &&& old(self)@.contains_key(login_id@)
                    &&& sent.0@ == code_request(code@, old(self)@[login_id@].ticket)
                    &&& maybe(sent.1) == old(self)@[login_id@].reauth_account_id
                },
                Err(e) => !old(self)@.contains_key(login_id@) && e@
                    == "that login is no longer waiting for a code - start again"@,
            },
    {
        let ghost before = self.waiting@;
        let taken = self.waiting.remove(login_id);
        assert(self@ =~= map_views(before).remove(login_id@));
        let pending = match taken {
            Some(p) => p,
            None => {
                return Err("that login is no longer waiting for a code - start again".to_owned());
            },
        };
        let bare = drop_blanks(code);
        let url = API_BASE.to_owned().concat("/auth/mfa/totp");
        let request = Request::bare(Method::Post, url.as_str()).with_body(
            Json::object().put("code", Json::string(bare.as_str())).put(
                "ticket",
                Json::string(pending.ticket.as_str()),
            ),
        );
        Ok((request, pending.reauth_account_id))
    }
}

/// A ticket is spent by the first code, right or wrong: the login does not wait any longer.
pub proof fn law_a_ticket_is_spent_once(waiting: Map<Seq<char>, PendingMfaV>, login_id: Seq<char>)
    ensures
        !waiting.remove(login_id).contains_key(login_id),
{
}

/// The first message of the remote-auth gateway: how long the code lives and how often to say that
/// this end does, in milliseconds.
pub open spec fn hello_times(hello: JsonV) -> (int, int) {
    (
        match hello.at("timeout_ms"@).as_u64() {
            Some(t) => t,
            None => 150_000,
        },
        match hello.at("heartbeat_interval"@).as_u64() {
            Some(t) => if t < 1 {
                1
            } else {
                t
            },
            None => 41_250,
        },
    )
}

pub fn read_hello(hello: &Json) -> (r: (u64, u64))
    ensures
        (r.0 as int, r.1 as int) == hello_times(hello@),
        r.1 >= 1,
{
    let timeout: u64 = match hello.at("timeout_ms").as_u64() {
        Some(t) => t,
        None => 150_000,
    };
    let interval: u64 = match hello.at("heartbeat_interval").as_u64() {
        Some(t) => if t < 1 {
            1
        } else {
            t
        },
        None => 41_250,
    };
    (timeout, interval)
}

/// Says that this end lives.
pub fn qr_heartbeat() -> (r: Json)
    ensures
        r@ == nothing().put("op"@, jstr("heartbeat"@)),
{
    Json::object().put("op", Json::string("heartbeat"))
}

/// What a message of the remote-auth gateway asks for.
#[derive(Debug, PartialEq, Eq)]
pub enum QrStep {
    /// To be ignored.
    Nothing,
    /// To prove that this end holds the key, by opening this.
    Prove(String),
    /// To show a code for this address.
    Show(String),
    /// To open this and tell who scanned the code.
    Scanned(String),
    /// The login was approved: the ticket to exchange.
    Ticket(String),
    /// The words for why it cannot go on.
    Fail(String),
}

pub enum QrStepV {
    Nothing,
    Prove(Seq<char>),
    Show(Seq<char>),
    Scanned(Seq<char>),
    Ticket(Seq<char>),
    Fail(Seq<char>),
}

impl View for QrStep {
    type V = QrStepV;

    open spec fn view(&self) -> QrStepV {
        match self {
            QrStep::Nothing => QrStepV::Nothing,
            QrStep::Prove(t) => QrStepV::Prove(t@),
            QrStep::Show(t) => QrStepV::Show(t@),
            QrStep::Scanned(t) => QrStepV::Scanned(t@),
            QrStep::Ticket(t) => QrStepV::Ticket(t@),
            QrStep::Fail(t) => QrStepV::Fail(t@),
        }
    }
}

/// What a message of the remote-auth gateway asks for.
pub open spec fn qr_step(msg: JsonV) -> QrStepV {
    let op = msg.at("op"@).text_or_empty();
    if op == "nonce_proof"@ {
        match msg.at("encrypted_nonce"@).text() {
            Some(t) => QrStepV::Prove(t),
            None => QrStepV::Fail("nonce_proof missing encrypted_nonce"@),
        }
    } else if op == "pending_remote_init"@ {
        match msg.at("fingerprint"@).text() {
            Some(t) => QrStepV::Show("https://discord.com/ra/"@ + t),
            None => QrStepV::Fail("pending_remote_init missing fingerprint"@),
        }
    } else if op == "pending_ticket"@ {
        match msg.at("encrypted_user_payload"@).text() {
            Some(t) => QrStepV::Scanned(t),
            None => QrStepV::Fail("pending_ticket missing encrypted_user_payload"@),
        }
    } else if op == "pending_login"@ {
        match msg.at("ticket"@).text() {
            Some(t) => QrStepV::Ticket(t),
            None => QrStepV::Fail("pending_login missing ticket"@),
        }
    } else if op == "cancel"@ {
        QrStepV::Fail("login was cancelled on your device"@)
    } else {
        QrStepV::Nothing
    }
}

pub fn read_qr_message(msg: &Json) -> (r: QrStep)
    ensures
        r@ == qr_step(msg@),
{
    let op = msg.at("op").text_or_empty();
    if same(op, "nonce_proof") {
        match msg.at("encrypted_nonce").text() {
            Some(t) => QrStep::Prove(t.to_owned()),
            None => QrStep::Fail("nonce_proof missing encrypted_nonce".to_owned()),
        }
    } else if same(op, "pending_remote_init") {
        match msg.at("fingerprint").text() {
            Some(t) => QrStep::Show("https://discord.com/ra/".to_owned().concat(t)),
            None => QrStep::Fail("pending_remote_init missing fingerprint".to_owned()),
        }
    } else if same(op, "pending_ticket") {
        match msg.at("encrypted_user_payload").text() {
            Some(t) => QrStep::Scanned(t.to_owned()),
            None => QrStep::Fail("pending_ticket missing encrypted_user_payload".to_owned()),
        }
    } else if same(op, "pending_login") {
        match msg.at("ticket").text() {
            Some(t) => QrStep::Ticket(t.to_owned()),
            None => QrStep::Fail("pending_login missing ticket".to_owned()),
        }
    } else if same(op, "cancel") {
        QrStep::Fail("login was cancelled on your device".to_owned())
    } else {
        QrStep::Nothing
    }
}

/// How many bits the key of a login has.
pub const KEY_BITS: usize = 2048;

/// A private key as `rsa` keeps it.
#[verifier::external_type_specification]
#[verifier::external_body]
pub struct ExRsaPrivateKey(rsa::RsaPrivateKey);

/// Whether a key is what `rsa::RsaPrivateKey::new` may make of so many bits; no key where it makes none.
pub uninterp spec fn key_made(bits: usize, key: Option<rsa::RsaPrivateKey>) -> bool;

/// How many bits the modulus of a key has.
pub uninterp spec fn key_bits(key: rsa::RsaPrivateKey) -> usize;

/// The public key that belongs to a private one.
pub uninterp spec fn public_key_of(key: rsa::RsaPrivateKey) -> Option<Seq<u8>>;

/// `rsa::RsaPrivateKey::new`: a key of so many bits. Which one is chance, but it has as many bits as
/// were asked for, and there is a public key to it.
#[verifier::external_body]
fn make_private_key(bits: usize) -> (r: Option<rsa::RsaPrivateKey>)
    requires
        1024 <= bits <= 4096,
    ensures
        key_made(bits, r),
        r matches Some(key) ==> key_bits(key) == bits && public_key_of(key) is Some,
{
    rsa::RsaPrivateKey::new(&mut rand::thread_rng(), bits).ok()
}

/// `rsa::pkcs8::EncodePublicKey::to_public_key_der` of the public half of a key: nothing where it
/// cannot be written. Which public key belongs to which private one is left to `rsa`.
#[verifier::external_body]
fn write_public_key(key: &rsa::RsaPrivateKey) -> (r: Option<Vec<u8>>)
    ensures
        match r {
            Some(der) => public_key_of(*key) == Some(der@),
            None => public_key_of(*key) is None,
        },
{
    let der = rsa::pkcs8::EncodePublicKey::to_public_key_der(&rsa::RsaPublicKey::from(key)).ok()?;
    Some(der.as_bytes().to_vec())
}

/// What a private key opens.
pub uninterp spec fn opened_with(key: rsa::RsaPrivateKey, ciphertext: Seq<u8>) -> Option<Seq<u8>>;

/// `rsa::RsaPrivateKey::decrypt`, with OAEP over SHA-256: nothing where the bytes were not sealed for
/// the key. What is opened how is left to `rsa`. The key has to be one that `rsa` made: of one whose
/// first prime is far smaller than its second the work would not come to an end.
#[verifier::external_body]
fn open_sealed(key: &rsa::RsaPrivateKey, ciphertext: &[u8]) -> (r: Option<Vec<u8>>)
    requires
        key_made(KEY_BITS, Some(*key)),
    ensures
        match r {
            Some(plain) => opened_with(*key, ciphertext@) == Some(plain@),
            None => opened_with(*key, ciphertext@) is None,
        },
{
    key.decrypt(rsa::Oaep::new::<sha2::Sha256>(), ciphertext).ok()
}

/// What an opened nonce is proved with: its digest.
pub open spec fn proof_of(nonce: Seq<u8>) -> JsonV {
    nothing().put("op"@, jstr("nonce_proof"@)).put("proof"@, jstr(url_base64(sha256_of(nonce))))
}

pub fn prove_nonce(nonce: &[u8]) -> (r: Json)
    ensures
        r@ == proof_of(nonce@),
{
    let digest = sha256(nonce);
    let written = encode_url(digest.as_slice());
    Json::object().put("op", Json::string("nonce_proof")).put(
        "proof",
        Json::string(written.as_str()),
    )
}

/// Who scanned a code: the fourth part of what is told of them.
pub open spec fn scanner_name(told: Seq<char>) -> Seq<char> {
    let parts = split_on(told, ':');
    if parts.len() > 3 {
        parts[3]
    } else {
        "someone"@
    }
}

/// What is told once a code has been scanned.
pub open spec fn scanned_notice(login_id: Seq<char>, told: Seq<u8>) -> JsonV {
    nothing().put("loginId"@, jstr(login_id)).put(
        "username"@,
        jstr(scanner_name(lossy_text(told))),
    )
}

pub fn tell_scanned(login_id: &str, told: &[u8]) -> (r: Json)
    ensures
        r@ == scanned_notice(login_id@, told@),
{
    let text = text_from_utf8_lossy(told);
    let parts = split(text.as_str(), ':');
    assert(texts(parts@).len() == parts@.len());
    let name = if parts.len() > 3 {
        assert(texts(parts@)[3] == parts@[3]@);
        parts[3].as_str()
    } else {
        "someone"
    };
    Json::object().put("loginId", Json::string(login_id)).put("username", Json::string(name))
}

/// What is told of a code to scan.
pub fn code_shown(login_id: &str, path: &str, url: &str) -> (r: Json)
    ensures
        r@ == nothing().put("loginId"@, jstr(login_id@)).put("qrCodePath"@, jstr(path@)).put(
            "url"@,
            jstr(url@),
        ),
{
    Json::object().put("loginId", Json::string(login_id)).put("qrCodePath", Json::string(path)).put(
        "url",
        Json::string(url),
    )
}

/// What is opened of a sealed text.
#[derive(Debug, PartialEq, Eq)]
pub enum Opened {
    /// It is no base64.
    NotEncoded,
    /// It was not sealed for this key.
    NotSealed,
    Plain(Vec<u8>),
}

pub enum OpenedV {
    NotEncoded,
    NotSealed,
    Plain(Seq<u8>),
}

impl View for Opened {
    type V = OpenedV;

    open spec fn view(&self) -> OpenedV {
        match self {
            Opened::NotEncoded => OpenedV::NotEncoded,
            Opened::NotSealed => OpenedV::NotSealed,
            Opened::Plain(b) => OpenedV::Plain(b@),
        }
    }
}

/// What opening a sealed text comes to: it is decoded, then opened with the key.
pub open spec fn opened_text(key: rsa::RsaPrivateKey, sealed: Seq<char>) -> OpenedV {
    match decoded_base64(sealed) {
        Some(b) => match opened_with(key, b) {
            Some(plain) => OpenedV::Plain(plain),
            None => OpenedV::NotSealed,
        },
        None => OpenedV::NotEncoded,
    }
}

/// What this end does about a message of the remote-auth gateway.
#[derive(Debug, PartialEq, Eq)]
pub enum QrAction {
    Nothing,
    Send(Json),
    /// Draw a code for this address.
    Show(String),
    Tell(Json),
    /// The ticket to exchange for a token.
    Ticket(String),
}

pub enum QrActionV {
    Nothing,
    Send(JsonV),
    Show(Seq<char>),
    Tell(JsonV),
    Ticket(Seq<char>),
}

impl View for QrAction {
    type V = QrActionV;

    open spec fn view(&self) -> QrActionV {
        match self {
            QrAction::Nothing => QrActionV::Nothing,
            QrAction::Send(j) => QrActionV::Send(j@),
            QrAction::Show(t) => QrActionV::Show(t@),
            QrAction::Tell(j) => QrActionV::Tell(j@),
            QrAction::Ticket(t) => QrActionV::Ticket(t@),
        }
    }
}

/// An action, or the words for why there is none.
pub open spec fn action_view(r: Result<QrAction, String>) -> Result<QrActionV, Seq<char>> {
    match r {
        Ok(a) => Ok(a@),
        Err(e) => Err(e@),
    }
}

/// What is done about a nonce, given what was opened.
pub open spec fn nonce_action(o: OpenedV) -> Result<QrActionV, Seq<char>> {
    match o {
        OpenedV::NotEncoded => Err("decoding encrypted_nonce"@),
        OpenedV::NotSealed => Err("decrypting nonce"@),
        OpenedV::Plain(nonce) => Ok(QrActionV::Send(proof_of(nonce))),
    }
}

pub fn answer_nonce(opened: Opened) -> (r: Result<QrAction, String>)
    ensures
        action_view(r) == nonce_action(opened@),
{
    match opened {
        Opened::NotEncoded => Err("decoding encrypted_nonce".to_owned()),
        Opened::NotSealed => Err("decrypting nonce".to_owned()),
        Opened::Plain(nonce) => Ok(QrAction::Send(prove_nonce(nonce.as_slice()))),
    }
}

/// What is done about a scanned code, given what was opened.
pub open spec fn scanned_action(login_id: Seq<char>, o: OpenedV) -> Result<QrActionV, Seq<char>> {
    match o {
        OpenedV::NotEncoded => Err("decoding encrypted_user_payload"@),
        OpenedV::NotSealed => Err("decrypting user payload"@),
        OpenedV::Plain(who) => Ok(QrActionV::Tell(scanned_notice(login_id, who))),
    }
}

pub fn answer_scanned(login_id: &str, opened: Opened) -> (r: Result<QrAction, String>)
    ensures
        action_view(r) == scanned_action(login_id@, opened@),
{
    match opened {
        Opened::NotEncoded => Err("decoding encrypted_user_payload".to_owned()),
        Opened::NotSealed => Err("decrypting user payload".to_owned()),
        Opened::Plain(who) => Ok(QrAction::Tell(tell_scanned(login_id, who.as_slice()))),
    }
}

/// What is done about a message of the remote-auth gateway by whoever holds the key.
pub open spec fn qr_action(key: rsa::RsaPrivateKey, login_id: Seq<char>, msg: JsonV) -> Result<
    QrActionV,
    Seq<char>,
> {
    match qr_step(msg) {
        QrStepV::Nothing => Ok(QrActionV::Nothing),
        QrStepV::Prove(sealed) => nonce_action(opened_text(key, sealed)),
        QrStepV::Show(url) => Ok(QrActionV::Show(url)),
        QrStepV::Scanned(sealed) => scanned_action(login_id, opened_text(key, sealed)),
        QrStepV::Ticket(ticket) => Ok(QrActionV::Ticket(ticket)),
        QrStepV::Fail(words) => Err(words),
    }
}

/// The token, given what was opened.
pub open spec fn token_in(o: OpenedV) -> Result<Seq<char>, Seq<char>> {
    match o {
        OpenedV::NotEncoded => Err("decoding encrypted_token"@),
        OpenedV::NotSealed => Err("decrypting token"@),
        OpenedV::Plain(b) => if valid_utf8(b) {
            Ok(decode_utf8(b))
        } else {
            Err("token was not valid UTF-8"@)
        },
    }
}

/// A text, or the words for why there is none.
pub open spec fn words_view(r: Result<String, String>) -> Result<Seq<char>, Seq<char>> {
    match r {
        Ok(t) => Ok(t@),
        Err(e) => Err(e@),
    }
}

pub fn read_token(opened: Opened) -> (r: Result<String, String>)
    ensures
        words_view(r) == token_in(opened@),
{
    match opened {
        Opened::NotEncoded => Err("decoding encrypted_token".to_owned()),
        Opened::NotSealed => Err("decrypting token".to_owned()),
        Opened::Plain(bytes) => match text_from_utf8(bytes) {
            Some(t) => Ok(t),
            None => Err("token was not valid UTF-8".to_owned()),
        },
    }
}

/// A login by code: the key that it is sealed with, which was made for it.
pub struct QrLogin {
    private_key: rsa::RsaPrivateKey,
}

impl QrLogin {
    /// The key that the login is sealed with.
    pub closed spec fn key(&self) -> rsa::RsaPrivateKey {
        self.private_key
    }

    #[verifier::type_invariant]
    spec fn has_made_key(&self) -> bool {
        key_made(KEY_BITS, Some(self.private_key))
    }

    /// Starts a login with a fresh key.
    pub fn new() -> (r: Result<QrLogin, String>)
        ensures
            match r {
                Ok(login) => {
                    &&& key_made(KEY_BITS, Some(login.key()))
                    &&& key_bits(login.key()) == KEY_BITS
                    &&& public_key_of(login.key()) is Some
                },
                Err(e) => key_made(KEY_BITS, None) && e@ == "generating RSA keypair"@,
            },
    {
        match make_private_key(KEY_BITS) {
            Some(private_key) => Ok(QrLogin { private_key }),
            None => Err("generating RSA keypair".to_owned()),
        }
    }

    /// The first message to send: which key to seal with.
    pub fn init(&self) -> (r: Result<Json, String>)
        ensures
            match (public_key_of(self.key()), r) {
                (Some(der), Ok(j)) => j@ == nothing().put("op"@, jstr("init"@)).put(
                    "encoded_public_key"@,
                    jstr(standard_base64(der)),
                ),
                (None, Err(e)) => e@ == "encoding public key"@,
                _ => false,
            },
    {
        match write_public_key(&self.private_key) {
            Some(der) => {
                let encoded = encode_standard(der.as_slice());
                Ok(
                    Json::object().put("op", Json::string("init")).put(
                        "encoded_public_key",
                        Json::string(encoded.as_str()),
                    ),
                )
            },
            None => Err("encoding public key".to_owned()),
        }
    }

    /// Opens a sealed text.
    pub fn open(&self, sealed: &str) -> (r: Opened)
        ensures
            r@ == opened_text(self.key(), sealed@),
    {
        proof {
            use_type_invariant(self);
        }
        match decode_standard(sealed) {
            Some(ciphertext) => match open_sealed(&self.private_key, ciphertext.as_slice()) {
                Some(plain) => Opened::Plain(plain),
                None => Opened::NotSealed,
            },
            None => Opened::NotEncoded,
        }
    }

    /// Takes in a message of the remote-auth gateway and says what to do about it.
    pub fn run_qr_login(&self, login_id: &str, msg: &Json) -> (r: Result<QrAction, String>)
        ensures
            action_view(r) == qr_action(self.key(), login_id@, msg@),
    {
        match read_qr_message(msg) {
            QrStep::Nothing => Ok(QrAction::Nothing),
            QrStep::Prove(sealed) => answer_nonce(self.open(sealed.as_str())),
            QrStep::Show(url) => Ok(QrAction::Show(url)),
            QrStep::Scanned(sealed) => answer_scanned(login_id, self.open(sealed.as_str())),
            QrStep::Ticket(ticket) => Ok(QrAction::Ticket(ticket)),
            QrStep::Fail(words) => Err(words),
        }
    }

    /// The token in the answer to a ticket.
    pub fn token_from(&self, resp: &Json) -> (r: Result<String, String>)
        ensures
            words_view(r) == (match resp@.at("encrypted_token"@).text() {
                Some(sealed) => token_in(opened_text(self.key(), sealed)),
                None => Err(
                    "token exchange response missing encrypted_token (captcha challenge?)"@,
                ),
            }),
    {
        match resp.at("encrypted_token").text() {
            Some(sealed) => read_token(self.open(sealed)),
            None => Err(
                "token exchange response missing encrypted_token (captcha challenge?)".to_owned(),
            ),
        }
    }
}

/// Exchanges a ticket for a token.
pub fn exchange_ticket(ticket: &str) -> (r: Request)
    ensures
        r@ == asking_openly(Method::Post, REMOTE_AUTH_LOGIN_URL@).with_body(
            nothing().put("ticket"@, jstr(ticket@)),
        ),
{
    Request::bare(Method::Post, REMOTE_AUTH_LOGIN_URL).with_body(
        Json::object().put("ticket", Json::string(ticket)),
    )
}

/// Asks whose a token is.
pub fn profile_of_token(token: &str) -> (r: Request)
    ensures
        r@ == asking(Method::Get, "/users/@me"@, token@),
{
    Request::new(Method::Get, "/users/@me", token)
}

/// Signs in with a token that was brought along.
pub fn finish_token_login(token: &str) -> (r: Result<Request, String>)
    ensures
        request_view(r) == (if is_blank(token@) {
            Err("the sign-in window returned an empty token"@)
        } else {
            Ok(asking(Method::Get, "/users/@me"@, token@))
        }),
{
    if blank(token) {
        Err("the sign-in window returned an empty token".to_owned())
    } else {
        Ok(profile_of_token(token))
    }
}

/// The account that a token belongs to, from the service's answer.
pub open spec fn account_in(me: JsonV, token: Seq<char>) -> Option<DiscordAccountV> {
    match me.at("id"@).text() {
        Some(user_id) => Some(
            DiscordAccountV {
                user_id,
                username: match or_else(
                    filled(me.at("global_name"@).text()),
                    me.at("username"@).text(),
                ) {
                    Some(name) => name,
                    None => "Discord user"@,
                },
                display_name: None,
                token,
                avatar_url: match me.at("avatar"@).text() {
                    Some(hash) => Some(
                        "https://cdn.discordapp.com/avatars/"@ + user_id + "/"@ + hash + ".png"@,
                    ),
                    None => None,
                },
            },
        ),
        None => None,
    }
}

/// The account to keep, or the words for why not: one that is signed in again has to be the same.
pub open spec fn accepted_account(
    me: JsonV,
    token: Seq<char>,
    reauth_account_id: Option<Seq<char>>,
) -> Result<DiscordAccountV, Seq<char>> {
    match account_in(me, token) {
        Some(a) => match reauth_account_id {
            Some(expected) => if a.account_id() == expected {
                Ok(a)
            } else {
                Err(
                    "that is a different Discord account - re-authenticating "@ + expected
                        + " needs the same account"@,
                )
            },
            None => Ok(a),
        },
        None => Err("profile response missing id"@),
    }
}

/// The account that a token belongs to.
pub fn accept_account(me: &Json, token: &str, reauth_account_id: Option<&str>) -> (r: Result<
    DiscordAccountConfig,
    String,
>)
    ensures
        match r {
            Ok(a) => accepted_account(me@, token@, maybe_str(reauth_account_id)) == Ok::<
                DiscordAccountV,
                Seq<char>,
            >(a@),
            Err(e) => accepted_account(me@, token@, maybe_str(reauth_account_id)) == Err::<
                DiscordAccountV,
                Seq<char>,
            >(e@),
        },
{
    let user_id = match me.at("id").text() {
        Some(id) => id,
        None => {
            return Err("profile response missing id".to_owned());
        },
    };
    let username = match first_of(
        only_filled(me.at("global_name").text()),
        me.at("username").text(),
    ) {
        Some(name) => name,
        None => "Discord user",
    };
    let avatar_url = match me.at("avatar").text() {
        Some(hash) => {
            let mut url = "https://cdn.discordapp.com/avatars/".to_owned();
            url.append(user_id);
            url.append("/");
            url.append(hash);
            url.append(".png");
            Some(url)
        },
        None => None,
    };
    let config = DiscordAccountConfig {
        user_id: user_id.to_owned(),
        username: username.to_owned(),
        display_name: None,
        token: token.to_owned(),
        avatar_url,
    };
    match reauth_account_id {
        Some(expected) => {
            let id = config.account_id();
            if !same(id.as_str(), expected) {
                return Err(
                    "that is a different Discord account - re-authenticating ".to_owned().concat(
                        expected,
                    ).concat(" needs the same account"),
                );
            }
        },
        None => {},
    }
    Ok(config)
}

/// The end of every login: whose the token is, kept under that account. What to connect with, and
/// how the account is listed.
pub fn finish_login(
    accounts: &mut AccountStore,
    me: &Json,
    token: &str,
    reauth_account_id: Option<&str>,
) -> (r: Result<(DiscordAccountConfig, Account), String>)
    ensures
        match (accepted_account(me@, token@, maybe_str(reauth_account_id)), r) {
            (Ok(a), Ok(saved)) => {
                &&& saved.0@ == a
                &&& saved.1@ == discord_listed(a, "connecting"@)
                &&& final(accounts)@ == old(accounts)@.with_discord(a.account_id(), a)
            },
            (Err(words), Err(e)) => e@ == words && final(accounts)@ == old(accounts)@,
            _ => false,
        },
{
    match accept_account(me, token, reauth_account_id) {
        Ok(config) => {
            let saved = accounts.add_discord(config);
            let listed = discord_account_to_json(&saved, "connecting");
            Ok((saved, listed))
        },
        Err(e) => Err(e),
    }
}

/// Signing an account in again never touches another: what is kept under any other id stays.
pub proof fn law_signing_in_again_is_about_one_account(
    accounts: AccountsV,
    me: JsonV,
    token: Seq<char>,
    expected: Seq<char>,
    other: Seq<char>,
)
    requires
        accepted_account(me, token, Some(expected)) is Ok,
        other != expected,
    ensures
        ({
            let a = accepted_account(me, token, Some(expected))->Ok_0;
            let after = accounts.with_discord(a.account_id(), a);
            &&& after.discord.contains_key(other) == accounts.discord.contains_key(other)
            &&& after.discord.contains_key(other) ==> after.discord[other]
                == accounts.discord[other]
            &&& after.discord[expected] == a
        }),
{
}

/// A code to scan, as a grey picture: its width, its height, and its points row by row.
#[derive(Debug, PartialEq, Eq)]
pub struct QrPicture {
    pub width: u32,
    pub height: u32,
    pub points: Vec<u8>,
}

pub struct QrPictureV {
    pub width: u32,
    pub height: u32,
    pub points: Seq<u8>,
}

impl View for QrPicture {
    type V = QrPictureV;

    open spec fn view(&self) -> QrPictureV {
        QrPictureV { width: self.width, height: self.height, points: self.points@ }
    }
}

/// How many points a code is wide and high, at the least.
pub const CODE_SIZE: u32 = 300;

/// The code that stands for an address, at least so many points wide and high.
pub uninterp spec fn qr_code_of(url: Seq<char>, size: u32) -> Option<QrPictureV>;

/// `qrcode::QrCode::new` of the bytes of an address, rendered to at least so many points each way:
/// nothing where the address is too long for a code. What the code looks like is left to `qrcode`.
#[verifier::external_body]
fn render_code(url: &str, size: u32) -> (r: Option<QrPicture>)
    requires
        size <= 10_000,
    ensures
        match r {
            Some(p) => qr_code_of(url@, size) == Some(p@),
            None => qr_code_of(url@, size) is None,
        },
{
    let code = qrcode::QrCode::new(url.as_bytes()).ok()?;
    let picture = code.render::<image::Luma<u8>>().min_dimensions(size, size).build();
    Some(QrPicture { width: picture.width(), height: picture.height(), points: picture.into_raw() })
}

/// The picture to write for an address.
pub fn write_qr_file(url: &str) -> (r: Result<QrPicture, String>)
    ensures
        match (qr_code_of(url@, CODE_SIZE), r) {
            (Some(p), Ok(q)) => q@ == p,
            (None, Err(e)) => e@ == "rendering QR code"@,
            _ => false,
        },
{
    match render_code(url, CODE_SIZE) {
        Some(p) => Ok(p),
        None => Err("rendering QR code".to_owned()),
    }
}

/// A password goes to the login of the service, with the name it is for and with nothing that says whose
/// it is besides.
pub proof fn law_a_password_goes_with_its_name(login: Seq<char>, password: Seq<char>)
    ensures
        ({
            let q = password_request(login, password);
            &&& q.method == Method::Post
            &&& q.url == "https://discord.com/api/v10"@ + "/auth/login"@
            &&& q.headers.len() == 0
            &&& q.body->0.at("login"@) == JsonV::Str(login)
            &&& q.body->0.at("password"@) == JsonV::Str(password)
            &&& q.body->0.at("undelete"@) == JsonV::Bool(false)
            &&& q.body->0.get("login_source"@) == Some(JsonV::Null)
            &&& q.body->0.get("gift_code_sku_id"@) == Some(JsonV::Null)
        }),
{
    broadcast use law_put_then_read;

    reveal_strlit("login");
    reveal_strlit("password");
    reveal_strlit("undelete");
    reveal_strlit("login_source");
    reveal_strlit("gift_code_sku_id");
    assert("login"@.len() == 5);
    assert("password"@.len() == 8);
    assert("undelete"@.len() == 8);
    assert("login_source"@.len() == 12);
    assert("gift_code_sku_id"@.len() == 16);
    assert("password"@[0] == 'p');
    assert("undelete"@[0] == 'u');
}

/// A code is asked for by the factors that the account has: an app unless it is said not to, a text
/// message and a backup where it is said to.
pub proof fn law_factors_are_those_that_are_said(login_id: Seq<char>, resp: JsonV)
    ensures
        ({
            let j = factors(login_id, resp);
            &&& j.at("loginId"@) == JsonV::Str(login_id)
            &&& j.at("totp"@) == JsonV::Bool(resp.at("totp"@) != JsonV::Bool(false))
            &&& j.at("sms"@) == JsonV::Bool(resp.at("sms"@) == JsonV::Bool(true))
            &&& j.at("backup"@) == JsonV::Bool(resp.at("backup"@) == JsonV::Bool(true))
        }),
{
    broadcast use law_put_then_read;

    reveal_strlit("loginId");
    reveal_strlit("totp");
    reveal_strlit("sms");
    reveal_strlit("backup");
    assert("loginId"@.len() == 7);
    assert("totp"@.len() == 4);
    assert("sms"@.len() == 3);
    assert("backup"@.len() == 6);
}

/// An answer to a login ends it where it has a token; fails it where it asks for a captcha; asks for a
/// code where it wants a second factor and has a ticket for it; and fails it in every other case.
pub proof fn law_a_login_goes_by_its_answer(login_id: Seq<char>, resp: JsonV)
    ensures
        ({
            let r = login_step(login_id, resp);
            let token = resp.at("token"@);
            let captcha = resp.get("captcha_key"@) is Some;
            let second = resp.at("mfa"@) == JsonV::Bool(true);
            &&& r is Finish <==> token is Str
            &&& r is Finish ==> r == LoginStepV::Finish(token->Str_0)
            &&& r is AskCode <==> !(token is Str) && !captcha && second && resp.at("ticket"@) is Str
            &&& r is AskCode ==> r == LoginStepV::AskCode(factors(login_id, resp))
            &&& !(token is Str) && !captcha && !second ==> r == LoginStepV::Fail(rejection(resp))
            &&& !(token is Str) && !captcha && second && !(resp.at("ticket"@) is Str) ==> r
                == LoginStepV::Fail("two-factor challenge without a ticket"@)
        }),
{
}

/// A rejection is told in the service's words with its complaints behind them; where the form itself is
/// refused, what that means is told instead.
pub proof fn law_a_rejection_is_told_with_its_complaints(resp: JsonV)
    ensures
        ({
            let told = rejection(resp);
            let wrong = complaints(resp);
            let form = resp.at("code"@) == JsonV::Int(50035);
            let message = if resp.at("message"@) is Str {
                resp.at("message"@)->Str_0
            } else {
                "Discord rejected the login and gave no reason"@
            };
            &&& !form && wrong is None ==> told == message
            &&& !form && wrong is Some ==> told == message + " ("@ + wrong->0 + ")"@
            &&& form && wrong is Some ==> told == "Discord refused the sign-in"@ + (" ("@ + wrong->0
                + ")"@) + refused_form()
            &&& form && wrong is None ==> told == "Discord refused the sign-in"@ + refused_form()
        }),
{
    let none = Seq::<char>::empty();
    assert("Discord refused the sign-in"@ + none =~= "Discord refused the sign-in"@);
}

/// A code loses every blank that it was pasted with, wherever it is, and nothing else.
pub proof fn law_a_code_loses_its_blanks(front: Seq<char>, back: Seq<char>, c: char)
    ensures
        without_blanks(front + back) == without_blanks(front) + without_blanks(back),
        is_space(c) ==> without_blanks(seq![c]).len() == 0,
        !is_space(c) ==> without_blanks(seq![c]) == seq![c],
    decreases back.len(),
{
    if back.len() == 0 {
        assert(front + back =~= front);
        assert(without_blanks(front) + without_blanks(back) =~= without_blanks(front));
    } else {
        let rest = back.drop_last();
        law_a_code_loses_its_blanks(front, rest, c);
        assert((front + back).drop_last() =~= front + rest);
        assert((front + back).last() == back.last());
        let (a, b) = (without_blanks(front), without_blanks(rest));
        assert((a + b).push(back.last()) =~= a + b.push(back.last()));
    }
    assert(seq![c].drop_last() =~= Seq::empty());
    assert(without_blanks(seq![c].drop_last()).len() == 0);
    if !is_space(c) {
        assert(without_blanks(seq![c]) =~= seq![c]);
    }
}

/// A code is sent with the ticket that it was asked for with.
pub proof fn law_a_code_goes_with_its_ticket(code: Seq<char>, ticket: Seq<char>)
    ensures
        ({
            let q = code_request(code, ticket);
            &&& q.method == Method::Post
            &&& q.url == "https://discord.com/api/v10"@ + "/auth/mfa/totp"@
            &&& q.headers.len() == 0
            &&& q.body->0.at("code"@) == JsonV::Str(without_blanks(code))
            &&& q.body->0.at("ticket"@) == JsonV::Str(ticket)
        }),
{
    broadcast use law_put_then_read;

    reveal_strlit("code");
    reveal_strlit("ticket");
    assert("code"@.len() == 4);
    assert("ticket"@.len() == 6);
}

/// How long a code lives and how often to say that this end does is what the first message says.
pub proof fn law_the_first_message_sets_the_times(hello: JsonV)
    ensures
        ({
            let (lives, beats) = hello_times(hello);
            let (timeout, interval) = (
                hello.at("timeout_ms"@).as_u64(),
                hello.at("heartbeat_interval"@).as_u64(),
            );
            &&& timeout is Some ==> lives == timeout->0
            &&& timeout is None ==> lives == 150_000
            &&& interval is Some && interval->0 >= 1 ==> beats == interval->0
            &&& interval is Some && interval->0 == 0 ==> beats == 1
            &&& interval is None ==> beats == 41_250
        }),
{
}

/// Each message of the remote-auth gateway asks for one thing, with what it brings: to prove a nonce, to
/// show a code, to tell who scanned it, to trade a ticket; one without what it should bring fails, and one
/// that is not known asks for nothing.
pub proof fn law_each_message_asks_for_one_thing(msg: JsonV)
    ensures
        ({
            let r = qr_step(msg);
            let op = msg.at("op"@);
            let nonce = msg.at("encrypted_nonce"@);
            let print = msg.at("fingerprint"@);
            let who = msg.at("encrypted_user_payload"@);
            let ticket = msg.at("ticket"@);
            &&& op == JsonV::Str("nonce_proof"@) && nonce is Str ==> r == QrStepV::Prove(
                nonce->Str_0,
            )
            &&& op == JsonV::Str("nonce_proof"@) && !(nonce is Str) ==> r is Fail
            &&& op == JsonV::Str("pending_remote_init"@) && print is Str ==> r == QrStepV::Show(
                "https://discord.com/ra/"@ + print->Str_0,
            )
            &&& op == JsonV::Str("pending_remote_init"@) && !(print is Str) ==> r is Fail
            &&& op == JsonV::Str("pending_ticket"@) && who is Str ==> r == QrStepV::Scanned(
                who->Str_0,
            )
            &&& op == JsonV::Str("pending_ticket"@) && !(who is Str) ==> r is Fail
            &&& op == JsonV::Str("pending_login"@) && ticket is Str ==> r == QrStepV::Ticket(
                ticket->Str_0,
            )
            &&& op == JsonV::Str("pending_login"@) && !(ticket is Str) ==> r is Fail
            &&& op == JsonV::Str("cancel"@) ==> r == QrStepV::Fail(
                "login was cancelled on your device"@,
            )
            &&& op != JsonV::Str("nonce_proof"@) && op != JsonV::Str("pending_remote_init"@) && op
                != JsonV::Str("pending_ticket"@) && op != JsonV::Str("pending_login"@) && op
                != JsonV::Str("cancel"@) ==> r is Nothing
        }),
{
    reveal_strlit("nonce_proof");
    reveal_strlit("pending_remote_init");
    reveal_strlit("pending_ticket");
    reveal_strlit("pending_login");
    reveal_strlit("cancel");
    assert("nonce_proof"@.len() == 11);
    assert("pending_remote_init"@.len() == 19);
    assert("pending_ticket"@.len() == 14);
    assert("pending_login"@.len() == 13);
    assert("cancel"@.len() == 6);
}

/// A nonce is proved by its digest; whoever scanned the code is told of by the fourth part of what is
/// told of them.
pub proof fn law_a_nonce_is_proved_by_its_digest(
    nonce: Seq<u8>,
    login_id: Seq<char>,
    told: Seq<u8>,
)
    ensures
        proof_of(nonce).at("op"@) == JsonV::Str("nonce_proof"@),
        proof_of(nonce).at("proof"@) == JsonV::Str(url_base64(sha256_of(nonce))),
        scanned_notice(login_id, told).at("loginId"@) == JsonV::Str(login_id),
        ({
            let parts = split_on(lossy_text(told), ':');
            &&& parts.len() >= 4 ==> scanned_notice(login_id, told).at("username"@) == JsonV::Str(
                parts[3],
            )
            &&& parts.len() < 4 ==> scanned_notice(login_id, told).at("username"@) == JsonV::Str(
                "someone"@,
            )
        }),
{
    broadcast use law_put_then_read;

    reveal_strlit("op");
    reveal_strlit("proof");
    reveal_strlit("loginId");
    reveal_strlit("username");
    assert("op"@.len() == 2);
    assert("proof"@.len() == 5);
    assert("loginId"@.len() == 7);
    assert("username"@.len() == 8);
}

/// What is sealed is decoded and then opened with the key, and each of the two that fails is told as
/// itself.
pub proof fn law_what_is_sealed_is_decoded_and_opened(
    key: rsa::RsaPrivateKey,
    sealed: Seq<char>,
    login_id: Seq<char>,
)
    ensures
        ({
            let bytes = decoded_base64(sealed);
            let o = opened_text(key, sealed);
            &&& bytes is None ==> o is NotEncoded
            &&& bytes is Some && opened_with(key, bytes->0) is None ==> o is NotSealed
            &&& bytes is Some && opened_with(key, bytes->0) is Some ==> o == OpenedV::Plain(
                opened_with(key, bytes->0)->0,
            )
        }),
        ({
            let o = opened_text(key, sealed);
            let plain = o->Plain_0;
            &&& nonce_action(o) is Ok <==> o is Plain
            &&& o is Plain ==> nonce_action(o) == Ok::<QrActionV, Seq<char>>(
                QrActionV::Send(proof_of(plain)),
            )
            &&& scanned_action(login_id, o) is Ok <==> o is Plain
            &&& o is Plain ==> scanned_action(login_id, o) == Ok::<QrActionV, Seq<char>>(
                QrActionV::Tell(scanned_notice(login_id, plain)),
            )
            &&& token_in(o) is Ok <==> o is Plain && valid_utf8(plain)
            &&& token_in(o) is Ok ==> token_in(o)->Ok_0 == decode_utf8(plain)
        }),
{
}

/// What is done about a message is what it asks for, done with the key.
pub proof fn law_a_message_is_answered_with_the_key(
    key: rsa::RsaPrivateKey,
    login_id: Seq<char>,
    msg: JsonV,
)
    ensures
        ({
            let r = qr_action(key, login_id, msg);
            let asked = qr_step(msg);
            &&& asked matches QrStepV::Prove(sealed) ==> r == nonce_action(opened_text(key, sealed))
            &&& asked matches QrStepV::Scanned(sealed) ==> r == scanned_action(
                login_id,
                opened_text(key, sealed),
            )
            &&& asked matches QrStepV::Show(url) ==> r == Ok::<QrActionV, Seq<char>>(
                QrActionV::Show(url),
            )
            &&& asked matches QrStepV::Ticket(ticket) ==> r == Ok::<QrActionV, Seq<char>>(
                QrActionV::Ticket(ticket),
            )
            &&& asked matches QrStepV::Fail(words) ==> r == Err::<QrActionV, Seq<char>>(words)
            &&& asked is Nothing ==> r == Ok::<QrActionV, Seq<char>>(QrActionV::Nothing)
        }),
{
}

/// An account is the user that the service names, with the token that it was asked with, under the name
/// they chose or else signed up with, and with the picture they set.
pub proof fn law_an_account_is_whom_the_service_names(me: JsonV, token: Seq<char>)
    ensures
        ({
            let r = account_in(me, token);
            let chosen = me.at("global_name"@).text_or_empty();
            let signed = me.at("username"@);
            &&& r is Some <==> me.at("id"@) is Str
            &&& r is Some ==> {
                &&& me.at("id"@) == JsonV::Str(r->0.user_id)
                &&& r->0.token == token
                &&& r->0.display_name is None
                &&& chosen.len() > 0 ==> r->0.username == chosen
                &&& chosen.len() == 0 && signed is Str ==> signed == JsonV::Str(r->0.username)
                &&& chosen.len() == 0 && !(signed is Str) ==> r->0.username == "Discord user"@
                &&& r->0.avatar_url is Some <==> me.at("avatar"@) is Str
                &&& r->0.avatar_url is Some ==> r->0.avatar_url->0
                    == "https://cdn.discordapp.com/avatars/"@ + r->0.user_id + "/"@ + me.at(
                    "avatar"@,
                )->Str_0 + ".png"@
            }
        }),
{
}

/// An account that is signed in again has to be the same; one that is new is taken as it is.
pub proof fn law_an_account_is_accepted_as_itself(
    me: JsonV,
    token: Seq<char>,
    reauth_account_id: Option<Seq<char>>,
)
    ensures
        ({
            let r = accepted_account(me, token, reauth_account_id);
            let own = "discord:"@ + me.at("id"@).text_or_empty();
            &&& r is Ok <==> me.at("id"@) is Str && (reauth_account_id is None
                || reauth_account_id->0 == own)
            &&& r is Ok ==> Some(r->Ok_0) == account_in(me, token)
            &&& !(me.at("id"@) is Str) ==> r->Err_0 == "profile response missing id"@
        }),
{
}

/// Whatever is sealed and cannot be read is told of by what it was and by how far it was read.
pub proof fn law_what_cannot_be_opened_is_named(login_id: Seq<char>, b: Seq<u8>)
    ensures
        nonce_action(OpenedV::NotEncoded) == Err::<QrActionV, Seq<char>>(
            "decoding encrypted_nonce"@,
        ),
        nonce_action(OpenedV::NotSealed) == Err::<QrActionV, Seq<char>>("decrypting nonce"@),
        scanned_action(login_id, OpenedV::NotEncoded) == Err::<QrActionV, Seq<char>>(
            "decoding encrypted_user_payload"@,
        ),
        scanned_action(login_id, OpenedV::NotSealed) == Err::<QrActionV, Seq<char>>(
            "decrypting user payload"@,
        ),
        token_in(OpenedV::NotEncoded) == Err::<Seq<char>, Seq<char>>("decoding encrypted_token"@),
        token_in(OpenedV::NotSealed) == Err::<Seq<char>, Seq<char>>("decrypting token"@),
        valid_utf8(b) ==> token_in(OpenedV::Plain(b)) == Ok::<Seq<char>, Seq<char>>(decode_utf8(b)),
        !valid_utf8(b) ==> token_in(OpenedV::Plain(b)) == Err::<Seq<char>, Seq<char>>(
            "token was not valid UTF-8"@,
        ),
{
}

/// A message that lacks what its kind carries fails the login, in words that name both; so does one that
/// takes the login back.
pub proof fn law_a_message_without_its_content_fails(msg: JsonV)
    ensures
        msg.at("op"@) == JsonV::Str("nonce_proof"@) && !(msg.at("encrypted_nonce"@) is Str)
            ==> qr_step(msg) == QrStepV::Fail("nonce_proof missing encrypted_nonce"@),
        msg.at("op"@) == JsonV::Str("pending_remote_init"@) && !(msg.at("fingerprint"@) is Str)
            ==> qr_step(msg) == QrStepV::Fail("pending_remote_init missing fingerprint"@),
        msg.at("op"@) == JsonV::Str("pending_ticket"@) && !(msg.at("encrypted_user_payload"@) is Str)
            ==> qr_step(msg) == QrStepV::Fail("pending_ticket missing encrypted_user_payload"@),
        msg.at("op"@) == JsonV::Str("pending_login"@) && !(msg.at("ticket"@) is Str) ==> qr_step(msg)
            == QrStepV::Fail("pending_login missing ticket"@),
        msg.at("op"@) == JsonV::Str("cancel"@) ==> qr_step(msg) == QrStepV::Fail(
            "login was cancelled on your device"@,
        ),
{
    reveal_strlit("nonce_proof");
    reveal_strlit("pending_remote_init");
    reveal_strlit("pending_ticket");
    reveal_strlit("pending_login");
    reveal_strlit("cancel");
    assert("nonce_proof"@.len() == 11);
    assert("pending_remote_init"@.len() == 19);
    assert("pending_ticket"@.len() == 14);
    assert("pending_login"@.len() == 13);
    assert("cancel"@.len() == 6);

}

/// A form that is refused sends whoever filled it in to the code on a device that is signed in.
pub proof fn law_a_refused_form_points_to_the_code()
    ensures
        refused_form()
            == ". It generally will not accept a password from a third-party client, and each attempt counts against the account - which is where the warnings on it are coming from. Use QR login instead: approving on a device already signed in is the proof Discord is actually asking for, and it does not put the account at risk."@,
{
}

} // verus!
