//! Requests, refusals and the pace of writing.
use nobilis::backend::discord::http::{
    after_send, discord_error_elsewhere, discord_error_text, form_errors, need_channel, need_server, need_token,
    retry_after, send_answerable, settle, succeeded, with_captcha, AfterSend, CaptchaAnswer, CaptchaAsked, Method,
    Pace, Request, WRITE_GAP,
};
use nobilis::json::{parse, Json};

fn json(text: &str) -> Json {
    parse(text).expect("JSON")
}

/// What a header says, as milliseconds: seconds, with a decimal point.
fn asked_for(seconds: Option<&str>) -> Option<u64> {
    let seconds = seconds.and_then(|v| v.parse::<f64>().ok())?;
    Some((seconds.max(0.0) * 1000.0) as u64)
}

fn pause_for(seconds: Option<&str>) -> u64 {
    retry_after(asked_for(seconds))
}

#[test]
fn a_wait_is_taken_as_asked() {
    assert_eq!(pause_for(Some("1.5")), 1500);
    assert_eq!(pause_for(Some("0.75")), 750);
}

#[test]
fn a_missing_or_absurd_wait_is_still_a_wait() {
    assert_eq!(pause_for(None), 1000);
    assert_eq!(pause_for(Some("nonsense")), 1000);
    // Nothing is not an answer to being told to slow down.
    assert_eq!(pause_for(Some("0")), 200);
    assert_eq!(pause_for(Some("-5")), 200);
    // And nobody waits half an hour inside one request.
    assert_eq!(pause_for(Some("1800")), 30_000);
}

#[test]
fn a_refusal_carrying_a_challenge_is_a_question() {
    let body = json(
        r#"{"captcha_key":["captcha-required"],"captcha_sitekey":"4c672d35","captcha_service":"hcaptcha",
            "captcha_rqdata":"bound-to-this","captcha_rqtoken":"rq-1"}"#,
    );
    let asked = CaptchaAsked::read(&body).expect("a challenge");
    assert_eq!(asked.sitekey, "4c672d35");
    assert_eq!(asked.rqdata.as_deref(), Some("bound-to-this"));
    assert_eq!(asked.rqtoken.as_deref(), Some("rq-1"));

    let question = asked.to_question();
    assert_eq!(question.at("captcha").at("sitekey").text(), Some("4c672d35"));
    assert_eq!(question.at("captcha").at("rqdata").text(), Some("bound-to-this"));
}

#[test]
fn a_plain_challenge_is_still_a_challenge() {
    let body = json(r#"{"captcha_key":["captcha-required"],"captcha_sitekey":"abc"}"#);
    let asked = CaptchaAsked::read(&body).expect("a challenge");
    // Named even when Discord does not name it: hcaptcha is what it is.
    assert_eq!(asked.service, "hcaptcha");
    assert!(asked.rqdata.is_none());
    assert!(asked.rqtoken.is_none());
}

#[test]
fn an_ordinary_refusal_is_not_a_question() {
    let body = json(r#"{"message":"You are being rate limited.","code":20016}"#);
    assert!(CaptchaAsked::read(&body).is_none());
    assert!(CaptchaAsked::read(&Json::Null).is_none());
}

#[test]
fn an_answer_is_read_only_when_there_is_one() {
    let with = json(r#"{ "captchaKey": "P1_eyJ0", "captchaRqtoken": "rq-1" }"#);
    let answer = CaptchaAnswer::from_params(&with).expect("an answer");
    assert_eq!(answer.key, "P1_eyJ0");
    assert_eq!(answer.rqtoken.as_deref(), Some("rq-1"));

    assert!(CaptchaAnswer::from_params(&json("{}")).is_none());
    assert!(CaptchaAnswer::from_params(&json(r#"{ "captchaKey": "" }"#)).is_none());
}

#[test]
fn a_captcha_with_nowhere_to_go_is_explained_rather_than_dumped() {
    let body = r#"{"captcha_key":["captcha-required"],"captcha_sitekey":"abc","captcha_service":"hcaptcha"}"#;
    let text = discord_error_text(400, body, "adding a friend");
    assert!(text.contains("captcha"), "got {text}");
    assert!(text.contains("adding a friend"), "got {text}");
    // The raw body is not what somebody reads.
    assert!(!text.contains("captcha_sitekey"), "got {text}");
}

#[test]
fn a_captcha_is_explained_rather_than_dumped() {
    let body = r#"{"captcha_key":["captcha-required"],"captcha_sitekey":"abc","captcha_service":"hcaptcha"}"#;
    let text = discord_error_elsewhere(400, body, "adding a friend");
    assert!(text.contains("captcha"), "got {text}");
    assert!(text.contains("adding a friend"), "got {text}");
    assert!(text.contains("discord.com"), "should say where it can be done: {text}");
    // The raw body is not what somebody reads.
    assert!(!text.contains("captcha_sitekey"), "got {text}");
}

#[test]
fn http_discord_own_words_are_used_when_it_gives_them() {
    let body = r#"{"message":"No users with that username were found.","code":80004}"#;
    assert_eq!(discord_error_text(400, body, "adding a friend"), "No users with that username were found.");
}

#[test]
fn discord_discord_own_words_are_used_when_it_gives_them() {
    let body = r#"{"message":"No users with that username were found.","code":80004}"#;
    assert_eq!(discord_error_elsewhere(400, body, "adding a friend"), "No users with that username were found.");
}

#[test]
fn http_other_shapes_still_say_something() {
    let fields = r#"{"errors":{"username":{"_errors":[{"message":"Too short"}]}}}"#;
    assert_eq!(discord_error_text(400, fields, "adding a friend"), "username: Too short");

    let junk = "<html>gateway timeout</html>";
    let text = discord_error_text(502, junk, "adding a friend");
    assert!(text.contains("502"), "got {text}");
}

#[test]
fn discord_other_shapes_still_say_something() {
    let fields = r#"{"errors":{"username":{"_errors":[{"message":"Too short"}]}}}"#;
    assert_eq!(discord_error_elsewhere(400, fields, "adding a friend"), "username: Too short");

    let junk = "<html>gateway timeout</html>";
    let text = discord_error_elsewhere(502, junk, "adding a friend");
    assert!(text.contains("502"), "got {text}");
}

fn a_complaint() -> Json {
    json(
        r#"{
            "code": 50035,
            "message": "Invalid Form Body",
            "errors": { "login": { "_errors": [{ "code": "BASE_TYPE_REQUIRED", "message": "This field is required" }] } }
        }"#,
    )
}

#[test]
fn discord_a_field_complaint_is_pulled_out_of_the_rejection() {
    assert_eq!(form_errors(&a_complaint()).as_deref(), Some("login: This field is required"));
}

#[test]
fn login_a_field_complaint_is_pulled_out_of_the_rejection() {
    let resp = a_complaint();
    assert_eq!(form_errors(&resp).as_deref(), Some("login: This field is required"));
}

#[test]
fn discord_a_rejection_with_no_field_detail_reports_nothing() {
    assert!(form_errors(&json(r#"{ "code": 50035, "message": "Invalid Form Body" }"#)).is_none());
    assert!(form_errors(&json(r#"{ "message": "Login or password is invalid." }"#)).is_none());
}

#[test]
fn login_a_rejection_with_no_field_detail_reports_nothing() {
    let resp = json(r#"{ "code": 50035, "message": "Invalid Form Body" }"#);
    assert!(form_errors(&resp).is_none());
    let resp = json(r#"{ "message": "Login or password is invalid." }"#);
    assert!(form_errors(&resp).is_none());
}

#[test]
fn discord_a_field_with_no_message_is_still_named() {
    assert_eq!(form_errors(&json(r#"{ "errors": { "password": {} } }"#)).as_deref(), Some("password"));
}

#[test]
fn login_a_field_with_no_message_is_still_named() {
    let resp = json(r#"{ "errors": { "password": {} } }"#);
    assert_eq!(form_errors(&resp).as_deref(), Some("password"));
}

#[test]
fn a_status_is_written_with_its_name() {
    let text = discord_error_text(404, "nothing here", "reading");
    assert!(text.contains("404 Not Found"), "got {text}");
}

#[test]
fn a_reply_settles_by_its_status() {
    assert!(succeeded(204));
    assert!(!succeeded(304));
    assert_eq!(settle(204, "", "pinning"), Ok(()));
    assert!(settle(403, r#"{"message":"Missing Permissions"}"#, "pinning").unwrap_err().contains("Missing Permissions"));
    assert_eq!(send_answerable(200, r#"{"id":"1"}"#, "joining").unwrap().write(), r#"{"ok":true}"#);
    let asked = send_answerable(400, r#"{"captcha_key":["captcha-required"],"captcha_sitekey":"abc"}"#, "joining");
    assert_eq!(asked.unwrap().at("captcha").at("sitekey").text(), Some("abc"));
    assert!(send_answerable(400, r#"{"message":"No"}"#, "joining").is_err());
}

#[test]
fn a_solved_challenge_goes_into_the_headers() {
    let answer = CaptchaAnswer { key: "K".into(), rqtoken: Some("T".into()) };
    let sent = with_captcha(Request::new(Method::Post, "/x", "tok"), Some(&answer));
    let header = |name: &str| sent.headers.iter().find(|h| h.name == name).map(|h| h.value.clone());
    assert_eq!(header("X-Captcha-Key").as_deref(), Some("K"));
    assert_eq!(header("X-Captcha-Rqtoken").as_deref(), Some("T"));
    let plain = with_captcha(Request::new(Method::Post, "/x", "tok"), None);
    assert_eq!(plain, Request::new(Method::Post, "/x", "tok"));
}

#[test]
fn what_is_missing_is_named() {
    assert_eq!(need_token(Some("t")), Ok("t"));
    assert!(need_token(None).is_err());
    assert_eq!(need_channel(Some("c")), Ok("c"));
    assert!(need_channel(None).is_err());
    assert_eq!(need_server(Some("s")), Ok("s"));
    assert!(need_server(None).is_err());
}

#[test]
fn a_limited_request_is_repeated_a_few_times() {
    assert_eq!(after_send(0, 200, true, None), AfterSend::Done);
    assert_eq!(after_send(0, 429, true, Some(500)), AfterSend::Retry(500));
    assert_eq!(after_send(0, 429, false, Some(500)), AfterSend::Done);
    assert_eq!(after_send(3, 429, true, Some(500)), AfterSend::Done);
}

#[test]
fn writes_keep_their_distance() {
    let mut pace = Pace::new();
    assert_eq!(pace.send_write(1_000_000_000), 0);
    // One that comes in between waits out the rest of the gap.
    assert_eq!(pace.send_write(1_100_000_000), WRITE_GAP - 100_000_000);
    assert_eq!(pace.send_write(1_000_000_000 + WRITE_GAP), WRITE_GAP);
    assert_eq!(pace.send_write(60_000_000_000), 0);
    // Three that are ready at once go out one after another.
    let mut busy = Pace::new();
    assert_eq!(busy.send_write(5), 0);
    assert_eq!(busy.send_write(5), WRITE_GAP);
    assert_eq!(busy.send_write(5), 2 * WRITE_GAP);
}
