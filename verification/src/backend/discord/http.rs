//! Requests to the service, what its answers mean, and the pace at which to ask.
use vstd::prelude::*;
use crate::json::{Entry, EntryV, Json, JsonV, collect, jopt, jstr, law_put_then_read, lemma_collect_step, nothing, parse, parsed_json, text_or, text_or_v};
use crate::text::{chars_of, join, joined, lend, maybe, own, slice_text, texts, views};

verus! {

pub const API_BASE: &'static str = "https://discord.com/api/v10";

/// The shortest gap between two writes, in nanoseconds.
pub const WRITE_GAP: u64 = 400_000_000;

/// How many times to wait out a rate limit before giving up on a request.
pub const RATE_LIMIT_RETRIES: usize = 3;

#[derive(Clone, Copy, Debug, PartialEq, Eq, Structural)]
pub enum Method {
    Get,
    Post,
    Put,
    Patch,
    Delete,
}

#[derive(Debug, PartialEq, Eq)]
pub struct Header {
    pub name: String,
    pub value: String,
}

pub struct HeaderV {
    pub name: Seq<char>,
    pub value: Seq<char>,
}

impl View for Header {
    type V = HeaderV;

    open spec fn view(&self) -> HeaderV {
        HeaderV { name: self.name@, value: self.value@ }
    }
}

/// A request to be sent: how, where, with which parameters, headers and body. The parameters are
/// to be encoded onto the address.
#[derive(Debug, PartialEq, Eq)]
pub struct Request {
    pub method: Method,
    pub url: String,
    pub query: Vec<Header>,
    pub headers: Vec<Header>,
    pub body: Option<Json>,
}

pub struct RequestV {
    pub method: Method,
    pub url: Seq<char>,
    pub query: Seq<HeaderV>,
    pub headers: Seq<HeaderV>,
    pub body: Option<JsonV>,
}

impl View for Request {
    type V = RequestV;

    open spec fn view(&self) -> RequestV {
        RequestV {
            method: self.method,
            url: self.url@,
            query: views(self.query@),
            headers: views(self.headers@),
            body: match self.body {
                Some(b) => Some(b@),
                None => None,
            },
        }
    }
}

impl RequestV {
    pub open spec fn with_header(self, name: Seq<char>, value: Seq<char>) -> RequestV {
        RequestV { headers: self.headers.push(HeaderV { name, value }), ..self }
    }

    pub open spec fn with_query(self, name: Seq<char>, value: Seq<char>) -> RequestV {
        RequestV { query: self.query.push(HeaderV { name, value }), ..self }
    }

    pub open spec fn with_body(self, body: JsonV) -> RequestV {
        RequestV { body: Some(body), ..self }
    }
}

/// A request made with a token.
pub open spec fn asking(method: Method, path: Seq<char>, token: Seq<char>) -> RequestV {
    RequestV {
        method,
        url: API_BASE@ + path,
        query: Seq::empty(),
        headers: seq![HeaderV { name: "Authorization"@, value: token }],
        body: None,
    }
}

/// A request for an address, made by nobody in particular.
pub open spec fn asking_openly(method: Method, url: Seq<char>) -> RequestV {
    RequestV { method, url, query: Seq::empty(), headers: Seq::empty(), body: None }
}

impl Request {
    /// A request for an address, made by nobody in particular.
    pub fn bare(method: Method, url: &str) -> (r: Request)
        ensures
            r@ == asking_openly(method, url@),
    {
        let r = Request {
            method,
            url: url.to_owned(),
            query: Vec::new(),
            headers: Vec::new(),
            body: None,
        };
        assert(r@.headers =~= Seq::empty());
        assert(r@.query =~= Seq::empty());
        r
    }

    /// A request for `path`, made with a token.
    pub fn new(method: Method, path: &str, token: &str) -> (r: Request)
        ensures
            r@ == asking(method, path@, token@),
    {
        let mut headers: Vec<Header> = Vec::new();
        headers.push(Header { name: "Authorization".to_owned(), value: token.to_owned() });
        let r = Request {
            method,
            url: API_BASE.to_owned().concat(path),
            query: Vec::new(),
            headers,
            body: None,
        };
        assert(r@.headers =~= asking(method, path@, token@).headers);
        assert(r@.query =~= Seq::empty());
        r
    }

    pub fn with_header(self, name: &str, value: &str) -> (r: Request)
        ensures
            r@ == self@.with_header(name@, value@),
    {
        let Request { method, url, query, headers, body } = self;
        let mut headers = headers;
        let ghost before = views(headers@);
        let header = Header { name: name.to_owned(), value: value.to_owned() };
        headers.push(header);
        assert(views(headers@) =~= before.push(header@));
        Request { method, url, query, headers, body }
    }

    pub fn with_query(self, name: &str, value: &str) -> (r: Request)
        ensures
            r@ == self@.with_query(name@, value@),
    {
        let Request { method, url, query, headers, body } = self;
        let mut query = query;
        let ghost before = views(query@);
        let parameter = Header { name: name.to_owned(), value: value.to_owned() };
        query.push(parameter);
        assert(views(query@) =~= before.push(parameter@));
        Request { method, url, query, headers, body }
    }

    pub fn with_body(self, body: Json) -> (r: Request)
        ensures
            r@ == self@.with_body(body@),
    {
        let Request { method, url, query, headers, .. } = self;
        Request { method, url, query, headers, body: Some(body) }
    }
}

/// What the service wants answered before it will do something.
#[derive(Debug, PartialEq, Eq)]
pub struct CaptchaAsked {
    pub sitekey: String,
    pub service: String,
    pub rqdata: Option<String>,
    pub rqtoken: Option<String>,
}

pub struct CaptchaAskedV {
    pub sitekey: Seq<char>,
    pub service: Seq<char>,
    pub rqdata: Option<Seq<char>>,
    pub rqtoken: Option<Seq<char>>,
}

impl View for CaptchaAsked {
    type V = CaptchaAskedV;

    open spec fn view(&self) -> CaptchaAskedV {
        CaptchaAskedV {
            sitekey: self.sitekey@,
            service: self.service@,
            rqdata: maybe(self.rqdata),
            rqtoken: maybe(self.rqtoken),
        }
    }
}

/// The captcha that a refusal asks for. It asks for one where it has a `captcha_key`, whatever
/// that holds; everything else may be missing.
pub open spec fn captcha_in(body: JsonV) -> Option<CaptchaAskedV> {
    match body.get("captcha_key"@) {
        Some(_) => Some(
            CaptchaAskedV {
                sitekey: body.at("captcha_sitekey"@).text_or_empty(),
                service: text_or_v(body.at("captcha_service"@), "hcaptcha"@),
                rqdata: body.at("captcha_rqdata"@).text(),
                rqtoken: body.at("captcha_rqtoken"@).text(),
            },
        ),
        None => None,
    }
}

/// The question that a captcha puts to a client.
pub open spec fn captcha_question(asked: CaptchaAskedV) -> JsonV {
    nothing().put(
        "captcha"@,
        nothing().put("sitekey"@, jstr(asked.sitekey)).put("service"@, jstr(asked.service)).put(
            "rqdata"@,
            jopt(asked.rqdata),
        ).put("rqtoken"@, jopt(asked.rqtoken)),
    )
}

impl CaptchaAsked {
    /// Reads a captcha demand out of a refusal, if that is what it is.
    pub fn read(body: &Json) -> (r: Option<CaptchaAsked>)
        ensures
            match r {
                Some(asked) => captcha_in(body@) == Some(asked@),
                None => captcha_in(body@) is None,
            },
    {
        match body.get("captcha_key") {
            Some(_) => Some(
                CaptchaAsked {
                    sitekey: body.at("captcha_sitekey").text_or_empty().to_owned(),
                    service: text_or(body.at("captcha_service"), "hcaptcha").to_owned(),
                    rqdata: own(body.at("captcha_rqdata").text()),
                    rqtoken: own(body.at("captcha_rqtoken").text()),
                },
            ),
            None => None,
        }
    }

    /// What a client needs to put the challenge on screen and come back.
    pub fn to_question(&self) -> (r: Json)
        ensures
            r@ == captcha_question(self@),
    {
        Json::object().put(
            "captcha",
            Json::object().put("sitekey", Json::string(self.sitekey.as_str())).put(
                "service",
                Json::string(self.service.as_str()),
            ).put("rqdata", Json::opt(lend(&self.rqdata))).put(
                "rqtoken",
                Json::opt(lend(&self.rqtoken)),
            ),
        )
    }
}

/// A solved captcha, on its way back to the request that asked for one.
#[derive(Debug, PartialEq, Eq)]
pub struct CaptchaAnswer {
    pub key: String,
    pub rqtoken: Option<String>,
}

pub struct CaptchaAnswerV {
    pub key: Seq<char>,
    pub rqtoken: Option<Seq<char>>,
}

impl View for CaptchaAnswer {
    type V = CaptchaAnswerV;

    open spec fn view(&self) -> CaptchaAnswerV {
        CaptchaAnswerV { key: self.key@, rqtoken: maybe(self.rqtoken) }
    }
}

/// The answer that parameters carry: only one that is not empty counts.
pub open spec fn captcha_answer_in(params: JsonV) -> Option<CaptchaAnswerV> {
    match params.at("captchaKey"@).text() {
        Some(key) => if key.len() > 0 {
            Some(CaptchaAnswerV { key, rqtoken: params.at("captchaRqtoken"@).text() })
        } else {
            None
        },
        None => None,
    }
}

impl CaptchaAnswer {
    /// Reads the answer off a call's parameters, where one was sent.
    pub fn from_params(params: &Json) -> (r: Option<CaptchaAnswer>)
        ensures
            match r {
                Some(answer) => captcha_answer_in(params@) == Some(answer@),
                None => captcha_answer_in(params@) is None,
            },
    {
        match params.at("captchaKey").text() {
            Some(key) => if key.is_empty() {
                None
            } else {
                Some(
                    CaptchaAnswer {
                        key: key.to_owned(),
                        rqtoken: own(params.at("captchaRqtoken").text()),
                    },
                )
            },
            None => None,
        }
    }
}

/// A request with a solved captcha on it, where there is one.
pub open spec fn captcha_added(request: RequestV, answer: Option<CaptchaAnswerV>) -> RequestV {
    match answer {
        Some(a) => {
            let keyed = request.with_header("X-Captcha-Key"@, a.key);
            match a.rqtoken {
                Some(t) => keyed.with_header("X-Captcha-Rqtoken"@, t),
                None => keyed,
            }
        },
        None => request,
    }
}

/// An optional answer, by what it is.
pub open spec fn answer_view(answer: Option<&CaptchaAnswer>) -> Option<CaptchaAnswerV> {
    match answer {
        Some(a) => Some(a@),
        None => None,
    }
}

/// Puts a solved captcha on a request, where there is one.
pub fn with_captcha(request: Request, answer: Option<&CaptchaAnswer>) -> (r: Request)
    ensures
        r@ == captcha_added(request@, answer_view(answer)),
{
    match answer {
        Some(a) => {
            let keyed = request.with_header("X-Captcha-Key", a.key.as_str());
            match &a.rqtoken {
                Some(t) => keyed.with_header("X-Captcha-Rqtoken", t.as_str()),
                None => keyed,
            }
        },
        None => request,
    }
}

pub open spec fn message_reader() -> spec_fn(JsonV) -> Option<Seq<char>> {
    |e: JsonV| e.at("message"@).text()
}

/// What is wrong with one field: its name, and what is said of it.
pub open spec fn field_complaint(entry: EntryV) -> Seq<char> {
    let messages = collect(entry.value.at("_errors"@).items(), message_reader());
    if messages.len() == 0 {
        entry.key
    } else {
        entry.key + ": "@ + joined(messages, "; "@)
    }
}

/// What is wrong with a form, field by field; nothing where no field is named.
pub open spec fn complaints(resp: JsonV) -> Option<Seq<char>> {
    let fields = resp.at("errors"@).entries();
    if fields.len() == 0 {
        None
    } else {
        Some(joined(Seq::new(fields.len(), |i: int| field_complaint(fields[i])), ", "@))
    }
}

fn complain(entry: &Entry) -> (r: String)
    ensures
        r@ == field_complaint(EntryV { key: entry.key@, value: entry.value@ }),
{
    let empty: Vec<Json> = Vec::new();
    let errors = crate::json::elements(entry.value.at("_errors"), &empty);
    let ghost all = views(errors@);
    let mut messages: Vec<String> = Vec::new();
    let mut i: usize = 0;
    assert(texts(messages@) =~= collect(all.take(0), message_reader()));
    while i < errors.len()
        invariant
            i <= errors.len(),
            all == views(errors@),
            texts(messages@) == collect(all.take(i as int), message_reader()),
        decreases errors.len() - i,
    {
        let ghost before = messages@;
        proof {
            lemma_collect_step(all, message_reader(), i as int);
        }
        match errors[i].at("message").text() {
            Some(message) => {
                messages.push(message.to_owned());
                assert(texts(messages@) =~= texts(before).push(message@));
            },
            None => {},
        }
        i += 1;
    }
    assert(all.take(i as int) =~= all);
    assert(texts(messages@).len() == messages@.len());
    if messages.len() == 0 {
        entry.key.clone()
    } else {
        let mut out = entry.key.clone();
        out.append(": ");
        let said = join(&messages, "; ");
        out.append(said.as_str());
        out
    }
}

/// The service's complaints about single fields, in one line.
pub fn form_errors(resp: &Json) -> (r: Option<String>)
    ensures
        maybe(r) == complaints(resp@),
{
    let errors = resp.at("errors");
    match errors.fields() {
        Some(fields) => {
            let ghost all = resp@.at("errors"@).entries();
            let mut parts: Vec<String> = Vec::new();
            let mut i: usize = 0;
            while i < fields.len()
                invariant
                    i <= fields.len(),
                    all == crate::json::entry_views(fields@),
                    parts.len() == i,
                    forall|j: int|
                        0 <= j < i ==> (#[trigger] parts@[j])@ == field_complaint(all[j]),
                decreases fields.len() - i,
            {
                parts.push(complain(&fields[i]));
                i += 1;
            }
            if parts.len() == 0 {
                None
            } else {
                assert(texts(parts@) =~= Seq::new(all.len(), |i: int| field_complaint(all[i])));
                Some(join(&parts, ", "))
            }
        },
        None => None,
    }
}

/// A status as it is written: its number and what it is called.
pub uninterp spec fn status_line(code: u16) -> Seq<char>;

/// `reqwest::StatusCode` written out: the number and the name that `reqwest` has for it. A status
/// code has three digits. Which name goes with which number is left to `reqwest`.
#[verifier::external_body]
pub(crate) fn write_status(code: u16) -> (r: String)
    requires
        100 <= code <= 999,
    ensures
        r@ == status_line(code),
{
    reqwest::StatusCode::from_u16(code).map(|s| s.to_string()).unwrap_or_default()
}

/// The first characters of a text.
pub open spec fn head(text: Seq<char>, most: nat) -> Seq<char> {
    if text.len() <= most {
        text
    } else {
        text.take(most as int)
    }
}

fn first_chars(text: &str, most: usize) -> (r: String)
    ensures
        r@ == head(text@, most as nat),
{
    let chars = chars_of(text);
    if chars.len() <= most {
        text.to_owned()
    } else {
        let r = slice_text(&chars, 0, most);
        assert(r@ =~= text@.take(most as int));
        r
    }
}

/// The sentence for a captcha that cannot be shown.
pub open spec fn captcha_sentence(doing: Seq<char>) -> Seq<char> {
    "Discord asked for a captcha before "@ + doing
        + ", and this action has no way to show one."@
}

/// The sentence for a captcha where nothing can show one.
pub open spec fn captcha_elsewhere_sentence(doing: Seq<char>) -> Seq<char> {
    "Discord asked for a captcha before "@ + doing
        + ". That cannot be answered from here - do it in Discord's own app or on discord.com, and it will work here afterwards."@
}

/// What a failed reply says: `captcha` where it asks for a captcha, else the service's own
/// message, else its complaints about fields, else the status and the start of the reply.
pub open spec fn error_sentence(
    status: u16,
    reply: JsonV,
    body: Seq<char>,
    captcha: Seq<char>,
) -> Seq<char> {
    let message = reply.at("message"@).text_or_empty();
    if reply.get("captcha_key"@) is Some {
        captcha
    } else if message.len() > 0 {
        message
    } else {
        match complaints(reply) {
            Some(fields) => fields,
            None => "Discord API error "@ + status_line(status) + ": "@ + head(body, 200),
        }
    }
}

/// What a text says as JSON, null where it is not JSON.
pub open spec fn reply_of(text: Seq<char>) -> JsonV {
    match parsed_json(text) {
        Some(v) => v,
        None => JsonV::Null,
    }
}

/// Reads a reply, null where it is not JSON.
pub fn read_reply(text: &str) -> (r: Json)
    ensures
        r@ == reply_of(text@),
{
    match parse(text) {
        Some(v) => v,
        None => Json::Null,
    }
}

/// What a failed reply says, given what it is as JSON.
pub fn explain(status: u16, reply: &Json, body: &str, captcha: &str) -> (r: String)
    requires
        100 <= status <= 999,
    ensures
        r@ == error_sentence(status, reply@, body@, captcha@),
{
    if reply.get("captcha_key").is_some() {
        return captcha.to_owned();
    }
    let message = reply.at("message").text_or_empty();
    if !message.is_empty() {
        return message.to_owned();
    }
    match form_errors(reply) {
        Some(fields) => fields,
        None => {
            let mut out = "Discord API error ".to_owned();
            let line = write_status(status);
            out.append(line.as_str());
            out.append(": ");
            let start = first_chars(body, 200);
            out.append(start.as_str());
            out
        },
    }
}

fn captcha_refusal(doing: &str) -> (r: String)
    ensures
        r@ == captcha_sentence(doing@),
{
    let mut out = "Discord asked for a captcha before ".to_owned();
    out.append(doing);
    out.append(", and this action has no way to show one.");
    out
}

/// Turns a failed reply into something worth showing somebody.
pub fn discord_error_text(status: u16, body: &str, doing: &str) -> (r: String)
    requires
        100 <= status <= 999,
    ensures
        r@ == error_sentence(status, reply_of(body@), body@, captcha_sentence(doing@)),
{
    let reply = read_reply(body);
    let captcha = captcha_refusal(doing);
    explain(status, &reply, body, captcha.as_str())
}

/// The same for an action that is better done in the service's own client.
pub fn discord_error_elsewhere(status: u16, body: &str, doing: &str) -> (r: String)
    requires
        100 <= status <= 999,
    ensures
        r@ == error_sentence(status, reply_of(body@), body@, captcha_elsewhere_sentence(doing@)),
{
    let reply = read_reply(body);
    let mut captcha = "Discord asked for a captcha before ".to_owned();
    captcha.append(doing);
    captcha.append(
        ". That cannot be answered from here - do it in Discord's own app or on discord.com, and it will work here afterwards.",
    );
    explain(status, &reply, body, captcha.as_str())
}

/// Whether a status says that the request went through.
pub open spec fn is_success(status: u16) -> bool {
    200 <= status <= 299
}

pub fn succeeded(status: u16) -> (r: bool)
    ensures
        r == is_success(status),
{
    200 <= status && status <= 299
}

/// The three outcomes of a write that may want a captcha, given the reply as JSON: done, a
/// question, or a failure.
pub open spec fn answer_outcome(
    status: u16,
    reply: JsonV,
    text: Seq<char>,
    doing: Seq<char>,
) -> Result<JsonV, Seq<char>> {
    if is_success(status) {
        Ok(nothing().put("ok"@, JsonV::Bool(true)))
    } else {
        match captcha_in(reply) {
            Some(asked) => Ok(captcha_question(asked)),
            None => Err(error_sentence(status, reply, text, captcha_sentence(doing))),
        }
    }
}

/// A result, by what it is.
pub open spec fn result_view(r: Result<Json, String>) -> Result<JsonV, Seq<char>> {
    match r {
        Ok(v) => Ok(v@),
        Err(e) => Err(e@),
    }
}

/// What came of a write that may want a captcha, given the reply as JSON.
pub fn answer_of(status: u16, reply: &Json, text: &str, doing: &str) -> (r: Result<Json, String>)
    requires
        100 <= status <= 999,
    ensures
        result_view(r) == answer_outcome(status, reply@, text@, doing@),
{
    if succeeded(status) {
        return Ok(Json::object().put("ok", Json::Bool(true)));
    }
    match CaptchaAsked::read(reply) {
        Some(asked) => Ok(asked.to_question()),
        None => {
            let captcha = captcha_refusal(doing);
            Err(explain(status, reply, text, captcha.as_str()))
        },
    }
}

/// What came of a write that may want a captcha.
pub fn send_answerable(status: u16, text: &str, doing: &str) -> (r: Result<Json, String>)
    requires
        100 <= status <= 999,
    ensures
        result_view(r) == answer_outcome(status, reply_of(text@), text@, doing@),
{
    let reply = read_reply(text);
    answer_of(status, &reply, text, doing)
}

/// What came of a write that answers nothing, given the reply as JSON.
pub open spec fn settled(
    status: u16,
    reply: JsonV,
    text: Seq<char>,
    captcha: Seq<char>,
) -> Result<(), Seq<char>> {
    if is_success(status) {
        Ok(())
    } else {
        Err(error_sentence(status, reply, text, captcha))
    }
}

/// A result without a value, by what it is.
pub open spec fn unit_view(r: Result<(), String>) -> Result<(), Seq<char>> {
    match r {
        Ok(()) => Ok(()),
        Err(e) => Err(e@),
    }
}

/// What came of a write that answers nothing.
pub fn settle(status: u16, text: &str, doing: &str) -> (r: Result<(), String>)
    requires
        100 <= status <= 999,
    ensures
        unit_view(r) == settled(status, reply_of(text@), text@, captcha_sentence(doing@)),
{
    if succeeded(status) {
        Ok(())
    } else {
        Err(discord_error_text(status, text, doing))
    }
}

/// A failure told by its status and the whole reply.
pub open spec fn bare_failure(status: u16, text: Seq<char>) -> Seq<char> {
    "Discord API error "@ + status_line(status) + ": "@ + text
}

/// What came of a write whose failure is told by its status and the whole reply.
pub fn settle_bare(status: u16, text: &str) -> (r: Result<(), String>)
    requires
        100 <= status <= 999,
    ensures
        unit_view(r) == (if is_success(status) {
            Ok(())
        } else {
            Err(bare_failure(status, text@))
        }),
{
    if succeeded(status) {
        Ok(())
    } else {
        let mut out = "Discord API error ".to_owned();
        let line = write_status(status);
        out.append(line.as_str());
        out.append(": ");
        out.append(text);
        Err(out)
    }
}

/// A result, by what it is.
pub open spec fn request_view(r: Result<Request, String>) -> Result<RequestV, Seq<char>> {
    match r {
        Ok(v) => Ok(v@),
        Err(e) => Err(e@),
    }
}

pub open spec fn not_connected() -> Seq<char> {
    "account not connected"@
}

pub open spec fn no_channel() -> Seq<char> {
    "no known Discord channel for this conversation"@
}

pub open spec fn no_server() -> Seq<char> {
    "that conversation is not in a server"@
}

/// The token of an account that is connected.
pub fn need_token(token: Option<&str>) -> (r: Result<&str, String>)
    ensures
        match (token, r) {
            (Some(t), Ok(s)) => s@ == t@,
            (None, Err(e)) => e@ == not_connected(),
            _ => false,
        },
{
    match token {
        Some(t) => Ok(t),
        None => Err("account not connected".to_owned()),
    }
}

/// The channel of a conversation that has one.
pub fn need_channel(channel: Option<&str>) -> (r: Result<&str, String>)
    ensures
        match (channel, r) {
            (Some(t), Ok(s)) => s@ == t@,
            (None, Err(e)) => e@ == no_channel(),
            _ => false,
        },
{
    match channel {
        Some(t) => Ok(t),
        None => Err("no known Discord channel for this conversation".to_owned()),
    }
}

/// The server of a conversation that is in one.
pub fn need_server(guild: Option<&str>) -> (r: Result<&str, String>)
    ensures
        match (guild, r) {
            (Some(t), Ok(s)) => s@ == t@,
            (None, Err(e)) => e@ == no_server(),
            _ => false,
        },
{
    match guild {
        Some(t) => Ok(t),
        None => Err("that conversation is not in a server".to_owned()),
    }
}

/// How long to wait out a rate limit, in milliseconds: what was asked for, one second where
/// nothing was, and never less than a fifth of a second nor more than half a minute.
pub open spec fn wait_for(asked: Option<u64>) -> u64 {
    let wanted = match asked {
        Some(ms) => ms,
        None => 1000,
    };
    if wanted < 200 {
        200
    } else if wanted > 30_000 {
        30_000
    } else {
        wanted
    }
}

pub fn retry_after(asked: Option<u64>) -> (r: u64)
    ensures
        r == wait_for(asked),
        200 <= r <= 30_000,
{
    let wanted: u64 = match asked {
        Some(ms) => ms,
        None => 1000,
    };
    if wanted < 200 {
        200
    } else if wanted > 30_000 {
        30_000
    } else {
        wanted
    }
}

/// What to do with the answer to one attempt at a write.
#[derive(Clone, Copy, Debug, PartialEq, Eq, Structural)]
pub enum AfterSend {
    /// Hand the answer on.
    Done,
    /// Wait so many milliseconds, then send it again.
    Retry(u64),
}

pub open spec fn next_send(
    attempt: usize,
    status: u16,
    can_repeat: bool,
    asked: Option<u64>,
) -> AfterSend {
    if status == 429 && attempt < RATE_LIMIT_RETRIES && can_repeat {
        AfterSend::Retry(wait_for(asked))
    } else {
        AfterSend::Done
    }
}

/// What to do after attempt number `attempt` was answered: only a rate limit is waited out, and
/// only so often.
pub fn after_send(attempt: usize, status: u16, can_repeat: bool, asked: Option<u64>) -> (r: AfterSend)
    ensures
        r == next_send(attempt, status, can_repeat, asked),
{
    if status == 429 && attempt < RATE_LIMIT_RETRIES && can_repeat {
        AfterSend::Retry(retry_after(asked))
    } else {
        AfterSend::Done
    }
}

/// When the last write goes out, in nanoseconds on some clock.
pub struct Pace {
    pub last: Option<u64>,
}

/// When a write that is ready at `now` goes out: at once, unless that would be too soon after the
/// last one.
pub open spec fn turn_after(last: Option<int>, now: int) -> int {
    match last {
        Some(at) => if at + WRITE_GAP > now {
            at + WRITE_GAP
        } else {
            now
        },
        None => now,
    }
}

impl Pace {
    /// When the last write goes out.
    pub open spec fn last_turn(&self) -> Option<int> {
        match self.last {
            Some(at) => Some(at as int),
            None => None,
        }
    }

    pub fn new() -> (r: Pace)
        ensures
            r.last is None,
    {
        Pace { last: None }
    }

    /// Takes a turn to write: how long to wait from `now` on.
    pub fn send_write(&mut self, now: u64) -> (wait: u64)
        requires
            turn_after(old(self).last_turn(), now as int) <= u64::MAX,
        ensures
            now + wait == turn_after(old(self).last_turn(), now as int),
            final(self).last_turn() == Some(now + wait),
    {
        let wait: u64 = match self.last {
            Some(at) => {
                if now < at {
                    at - now + WRITE_GAP
                } else {
                    WRITE_GAP.saturating_sub(now - at)
                }
            },
            None => 0,
        };
        self.last = Some(now + wait);
        wait
    }
}

/// When each of several writes goes out, given when each of them is ready, in the order in which they
/// take their turns.
pub open spec fn turns(ready: Seq<int>) -> Seq<int>
    decreases ready.len(),
{
    if ready.len() == 0 {
        Seq::empty()
    } else {
        let before = turns(ready.drop_last());
        let last = if before.len() == 0 {
            None
        } else {
            Some(before.last())
        };
        before.push(turn_after(last, ready.last()))
    }
}

/// Between any two writes lies the gap at least, whenever they were ready; and none goes out before
/// it is.
pub proof fn law_writes_keep_their_distance(ready: Seq<int>, i: int, j: int)
    requires
        0 <= i < j < ready.len(),
    ensures
        turns(ready).len() == ready.len(),
        turns(ready)[i] + WRITE_GAP <= turns(ready)[j],
        ready[i] <= turns(ready)[i],
    decreases ready.len(),
{
    lemma_turns(ready);
    lemma_turns(ready.drop_last());
    if j < ready.len() - 1 {
        law_writes_keep_their_distance(ready.drop_last(), i, j);
    } else if i < j - 1 {
        law_writes_keep_their_distance(ready.drop_last(), i, j - 1);
    }
}

proof fn lemma_turns(ready: Seq<int>)
    ensures
        turns(ready).len() == ready.len(),
        forall|i: int| 0 <= i < ready.len() ==> ready[i] <= #[trigger] turns(ready)[i],
    decreases ready.len(),
{
    if ready.len() > 0 {
        lemma_turns(ready.drop_last());
    }
}

/// A request is sent at most four times, however often it is rate-limited.
pub proof fn law_retries_end(status: u16, can_repeat: bool, asked: Option<u64>, attempt: usize)
    requires
        attempt >= RATE_LIMIT_RETRIES,
    ensures
        next_send(attempt, status, can_repeat, asked) == AfterSend::Done,
{
}

/// A reply that names a captcha is never reported with what it holds: the sentence depends on
/// the action alone.
pub proof fn law_captcha_is_explained(
    status: u16,
    other_status: u16,
    reply: JsonV,
    other: JsonV,
    body: Seq<char>,
    other_body: Seq<char>,
    captcha: Seq<char>,
)
    requires
        captcha_in(reply) is Some,
        captcha_in(other) is Some,
    ensures
        error_sentence(status, reply, body, captcha) == error_sentence(
            other_status,
            other,
            other_body,
            captcha,
        ),
{
}

/// A question is asked of a client exactly where a refusal asks for a captcha.
pub proof fn law_only_a_captcha_is_a_question(
    status: u16,
    reply: JsonV,
    text: Seq<char>,
    doing: Seq<char>,
)
    requires
        !is_success(status),
    ensures
        answer_outcome(status, reply, text, doing) is Ok <==> captcha_in(reply) is Some,
{
}

/// A request with a token goes to the service's own address, says whose it is in one header, and
/// carries nothing else.
pub proof fn law_a_request_says_whose_it_is(method: Method, path: Seq<char>, token: Seq<char>)
    ensures
        ({
            let q = asking(method, path, token);
            &&& q.method == method
            &&& q.url == "https://discord.com/api/v10"@ + path
            &&& q.headers.len() == 1
            &&& q.headers[0].name == "Authorization"@
            &&& q.headers[0].value == token
            &&& q.query.len() == 0
            &&& q.body is None
        }),
{
}

/// A request of nobody in particular carries no token.
pub proof fn law_an_open_request_carries_no_token(method: Method, url: Seq<char>)
    ensures
        asking_openly(method, url).method == method,
        asking_openly(method, url).url == url,
        asking_openly(method, url).headers.len() == 0,
        asking_openly(method, url).query.len() == 0,
        asking_openly(method, url).body is None,
{
}

/// A header, a parameter and a body each go behind what is there and leave the rest as it was.
pub proof fn law_a_request_grows_by_one_thing(
    request: RequestV,
    name: Seq<char>,
    value: Seq<char>,
    body: JsonV,
)
    ensures
        ({
            let h = request.with_header(name, value);
            &&& h.headers.len() == request.headers.len() + 1
            &&& h.headers.drop_last() == request.headers
            &&& h.headers.last().name == name && h.headers.last().value == value
            &&& h.method == request.method && h.url == request.url && h.query == request.query
            &&& h.body == request.body
        }),
        ({
            let q = request.with_query(name, value);
            &&& q.query.len() == request.query.len() + 1
            &&& q.query.drop_last() == request.query
            &&& q.query.last().name == name && q.query.last().value == value
            &&& q.method == request.method && q.url == request.url
            &&& q.headers == request.headers && q.body == request.body
        }),
        ({
            let b = request.with_body(body);
            &&& b.body == Some(body)
            &&& b.method == request.method && b.url == request.url && b.query == request.query
            &&& b.headers == request.headers
        }),
{
    let entry = HeaderV { name, value };
    assert(request.headers.push(entry).drop_last() =~= request.headers);
    assert(request.query.push(entry).drop_last() =~= request.query);
}

/// A captcha is asked for where the refusal has a key for one, whatever that holds, with all that the
/// refusal says of it.
pub proof fn law_a_captcha_is_read_whole(body: JsonV)
    ensures
        ({
            let r = captcha_in(body);
            &&& r is Some <==> body.get("captcha_key"@) is Some
            &&& r is Some ==> {
                &&& r->0.sitekey == body.at("captcha_sitekey"@).text_or_empty()
                &&& body.at("captcha_service"@) is Str ==> body.at("captcha_service"@) == JsonV::Str(
                    r->0.service,
                )
                &&& !(body.at("captcha_service"@) is Str) ==> r->0.service == "hcaptcha"@
                &&& r->0.rqdata == body.at("captcha_rqdata"@).text()
                &&& r->0.rqtoken == body.at("captcha_rqtoken"@).text()
            }
        }),
{
}

/// The question put to a client holds what the captcha was asked for with.
pub proof fn law_a_captcha_is_put_whole(asked: CaptchaAskedV)
    ensures
        ({
            let q = captcha_question(asked).at("captcha"@);
            &&& q.at("sitekey"@) == JsonV::Str(asked.sitekey)
            &&& q.at("service"@) == JsonV::Str(asked.service)
            &&& q.at("rqdata"@).text() == asked.rqdata
            &&& q.at("rqtoken"@).text() == asked.rqtoken
            &&& asked.rqdata is None ==> q.at("rqdata"@) is Null
            &&& asked.rqtoken is None ==> q.at("rqtoken"@) is Null
        }),
{
    broadcast use law_put_then_read;

    reveal_strlit("captcha");
    reveal_strlit("sitekey");
    reveal_strlit("service");
    reveal_strlit("rqdata");
    reveal_strlit("rqtoken");
    assert("captcha"@.len() == 7);
    assert("sitekey"@.len() == 7);
    assert("service"@.len() == 7);
    assert("rqdata"@.len() == 6);
    assert("rqtoken"@.len() == 7);
    assert("captcha"@[0] == 'c');
    assert("rqtoken"@[0] == 'r');
    assert("service"@[0] == 's');
    assert("service"@[1] == 'e');
    assert("sitekey"@[0] == 's');
    assert("sitekey"@[1] == 'i');
}

/// A call carries an answer where its key is a text that is not empty, with the token that came along.
pub proof fn law_an_answer_needs_a_key(params: JsonV)
    ensures
        ({
            let r = captcha_answer_in(params);
            let key = params.at("captchaKey"@).text_or_empty();
            &&& r is Some <==> key.len() > 0
            &&& r is Some ==> r->0.key == key && r->0.rqtoken == params.at("captchaRqtoken"@).text()
        }),
{
}

/// An answer goes on a request as headers behind those that are there, and changes nothing else; where
/// there is none the request stays as it is.
pub proof fn law_an_answer_goes_on_the_request(request: RequestV, answer: Option<CaptchaAnswerV>)
    ensures
        ({
            let r = captcha_added(request, answer);
            let n = request.headers.len() as int;
            &&& answer is None ==> r == request
            &&& answer is Some ==> {
                &&& r.method == request.method && r.url == request.url && r.query == request.query
                &&& r.body == request.body
                &&& r.headers.take(n) == request.headers
                &&& r.headers[n].name == "X-Captcha-Key"@
                &&& r.headers[n].value == answer->0.key
                &&& answer->0.rqtoken is None ==> r.headers.len() == n + 1
                &&& answer->0.rqtoken is Some ==> {
                    &&& r.headers.len() == n + 2
                    &&& r.headers[n + 1].name == "X-Captcha-Rqtoken"@
                    &&& r.headers[n + 1].value == answer->0.rqtoken->0
                }
            }
        }),
{
    if answer is Some {
        assert(captcha_added(request, answer).headers.take(request.headers.len() as int)
            =~= request.headers);
    }
}

/// A field is complained of by its name, and by all that is said of it where anything is.
pub proof fn law_a_field_is_complained_of_by_name(entry: EntryV)
    ensures
        ({
            let said = collect(
                entry.value.at("_errors"@).items(),
                |e: JsonV| e.at("message"@).text(),
            );
            &&& said.len() == 0 ==> field_complaint(entry) == entry.key
            &&& said.len() == 1 ==> field_complaint(entry) == entry.key + ": "@ + said[0]
            &&& said.len() > 0 ==> field_complaint(entry) == entry.key + ": "@ + joined(said, "; "@)
        }),
{
}

/// Every field that is wrong is complained of, in their order; there are no complaints exactly where no
/// field is named.
pub proof fn law_every_wrong_field_is_named(resp: JsonV)
    ensures
        ({
            let fields = resp.at("errors"@).entries();
            &&& complaints(resp) is None <==> fields.len() == 0
            &&& fields.len() == 1 ==> complaints(resp) == Some(field_complaint(fields[0]))
            &&& forall|i: int|
                0 <= i < fields.len() ==> crate::text::has_part(
                    complaints(resp)->0,
                    field_complaint(#[trigger] fields[i]),
                )
        }),
{
    let fields = resp.at("errors"@).entries();
    let all = Seq::new(fields.len(), |i: int| field_complaint(fields[i]));
    assert forall|i: int| 0 <= i < fields.len() implies crate::text::has_part(
        complaints(resp)->0,
        field_complaint(#[trigger] fields[i]),
    ) by {
        crate::text::law_joining_keeps_every_part(all, ", "@, i);
        assert(all[i] == field_complaint(fields[i]));
    }
}

/// A failure is told by what the service says: a captcha first, then its own message, then its
/// complaints, and by status and the start of the reply where it says none of these.
pub proof fn law_a_failure_is_told_in_the_services_words(
    status: u16,
    reply: JsonV,
    body: Seq<char>,
    captcha: Seq<char>,
)
    ensures
        ({
            let told = error_sentence(status, reply, body, captcha);
            let message = reply.at("message"@).text_or_empty();
            let fields = reply.at("errors"@).entries();
            let asked = reply.get("captcha_key"@) is Some;
            &&& asked ==> told == captcha
            &&& !asked && message.len() > 0 ==> told == message
            &&& !asked && message.len() == 0 && fields.len() > 0 ==> Some(told) == complaints(reply)
            &&& !asked && message.len() == 0 && fields.len() == 0 && body.len() <= 200 ==> told
                == "Discord API error "@ + status_line(status) + ": "@ + body
            &&& !asked && message.len() == 0 && fields.len() == 0 && body.len() > 200 ==> told
                == "Discord API error "@ + status_line(status) + ": "@ + body.subrange(0, 200)
        }),
{
    if body.len() > 200 {
        assert(body.take(200) =~= body.subrange(0, 200));
    }
}

/// A write that may want a captcha is done where its status is one of success, a question where it was
/// refused for want of a captcha, and a failure in every other case.
pub proof fn law_a_write_is_done_asked_or_failed(
    status: u16,
    reply: JsonV,
    text: Seq<char>,
    doing: Seq<char>,
)
    ensures
        ({
            let r = answer_outcome(status, reply, text, doing);
            let done = 200 <= status < 300;
            let asked = reply.get("captcha_key"@) is Some;
            &&& done ==> r is Ok && r->Ok_0.at("ok"@) == JsonV::Bool(true)
            &&& !done && asked ==> r is Ok && r->Ok_0.get("ok"@) is None && r->Ok_0.at("captcha"@)
                is Object
            &&& !done && !asked ==> r is Err && r->Err_0 == error_sentence(
                status,
                reply,
                text,
                captcha_sentence(doing),
            )
        }),
        ({
            let r = settled(status, reply, text, doing);
            &&& r is Ok <==> 200 <= status < 300
            &&& r is Err ==> r->Err_0 == error_sentence(status, reply, text, doing)
        }),
{
    broadcast use law_put_then_read;

    reveal_strlit("ok");
    reveal_strlit("captcha");
    assert("ok"@.len() == 2);
    assert("captcha"@.len() == 7);
}

/// A rate limit is waited out for as long as was asked, but for no less than a fifth of a second and
/// for no more than half a minute, and for a second where nothing was asked.
pub proof fn law_a_wait_is_as_long_as_asked(asked: u64)
    ensures
        200 <= asked <= 30_000 ==> wait_for(Some(asked)) == asked,
        asked < 200 ==> wait_for(Some(asked)) == 200,
        asked > 30_000 ==> wait_for(Some(asked)) == 30_000,
        wait_for(None) == 1000,
{
}

/// Only a rate limit is waited out, only where the request can be sent again, and only three times.
pub proof fn law_only_a_rate_limit_is_waited_out(
    attempt: usize,
    status: u16,
    can_repeat: bool,
    asked: Option<u64>,
)
    ensures
        ({
            let r = next_send(attempt, status, can_repeat, asked);
            &&& r is Retry <==> status == 429 && attempt < 3 && can_repeat
            &&& r is Retry ==> r == AfterSend::Retry(wait_for(asked))
        }),
{
}

/// A write goes out when it is ready, unless the last one went out less than the gap before: then it
/// goes out exactly that gap later.
pub proof fn law_a_write_waits_no_longer_than_it_must(last: int, now: int)
    ensures
        turn_after(None, now) == now,
        now - last >= 400_000_000 ==> turn_after(Some(last), now) == now,
        now - last < 400_000_000 ==> turn_after(Some(last), now) - last == 400_000_000,
{
}

/// A reply that is not JSON reads as null, and one that is as what it is; the words for a failure that
/// is told bare are its status and the whole reply.
pub proof fn law_what_is_not_json_is_null(text: Seq<char>, status: u16)
    ensures
        parsed_json(text) is Some ==> reply_of(text) == parsed_json(text)->0,
        parsed_json(text) is None ==> reply_of(text) is Null,
        bare_failure(status, text) == "Discord API error "@ + status_line(status) + ": "@ + text,
        is_success(status) <==> 200 <= status < 300,
{
}

/// What is missing is named: the connection, the channel or the server.
pub proof fn law_what_is_missing_is_named()
    ensures
        not_connected() == "account not connected"@,
        no_channel() == "no known Discord channel for this conversation"@,
        no_server() == "that conversation is not in a server"@,
{
}

/// Where a captcha stops something, what it stopped stands in the sentence, between what happened and
/// what can be done.
pub proof fn law_a_captcha_sentence_names_what_it_stopped(doing: Seq<char>)
    ensures
        captcha_sentence(doing) == "Discord asked for a captcha before "@ + doing
            + ", and this action has no way to show one."@,
        captcha_elsewhere_sentence(doing) == "Discord asked for a captcha before "@ + doing
            + ". That cannot be answered from here - do it in Discord's own app or on discord.com, and it will work here afterwards."@,
{
}

} // verus!
