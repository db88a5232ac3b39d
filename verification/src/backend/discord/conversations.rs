//! Conversations: starting and closing them, what is sent in them, and who somebody is.
use vstd::prelude::*;
use crate::json::{Json, JsonV, collect, jopt, jstr, law_put_then_read, lemma_collect_step, nothing, text_or, text_or_v};
use crate::text::{all_digits, blank, chars_of, copy_texts, decimal, decimal_text, is_blank, is_digit, last_place, maybe, maybe_str, own, slice_text, split, split_on, stands_at, starts_with, texts, trim, trimmed, views};
use crate::text_map::{TextMap, lemma_map_views_insert, map_views};
use super::channels::{Known, KnownV};
use super::guild_actions::{Deed, DeedV, deed_view};
use super::http::{Method, Request, RequestV, API_BASE, asking, need_channel, need_token, no_channel, not_connected, request_view};
use super::members::{dm_roster, set_dm_presence, text_values};
use super::mentions::{Candidate, all_replaced, guild_in_group, guild_of_group, longest_first, resolve_outgoing_mentions};
use super::messages::{moment_of, parse_iso8601_seconds, pin_row, pinned_row};
use super::people::{dm_avatar_url, dm_channel_name, dm_name, dm_picture, filled, only_filled};

verus! {

/// How many other people a group conversation holds: ten, counting this account.
pub const GROUP_DM_MAX_OTHERS: usize = 9;

/// For how long somebody is shown typing, in milliseconds.
pub const TYPING_TTL_MS: u64 = 10_000;

/// The request for a conversation. One recipient is named by itself, which finds the conversation
/// that is there; several are a list, which makes a new group.
pub open spec fn conversation_with(token: Option<Seq<char>>, user_ids: Seq<Seq<char>>) -> Result<
    RequestV,
    Seq<char>,
> {
    match token {
        None => Err(not_connected()),
        Some(t) => if user_ids.len() == 0 {
            Err("a conversation needs at least one other person"@)
        } else if user_ids.len() > GROUP_DM_MAX_OTHERS {
            Err(
                "a Discord group message holds ten people including you - that is "@
                    + decimal_text((user_ids.len() - GROUP_DM_MAX_OTHERS) as nat) + " too many"@,
            )
        } else {
            Ok(
                asking(Method::Post, "/users/@me/channels"@, t).with_body(
                    if user_ids.len() == 1 {
                        nothing().put("recipient_id"@, jstr(user_ids[0]))
                    } else {
                        nothing().put(
                            "recipients"@,
                            JsonV::List(Seq::new(user_ids.len(), |i: int| jstr(user_ids[i]))),
                        )
                    },
                ),
            )
        },
    }
}

/// A list of texts as JSON.
pub fn json_texts(list: &Vec<String>) -> (r: Json)
    ensures
        r@ == JsonV::List(Seq::new(texts(list@).len(), |i: int| jstr(texts(list@)[i]))),
{
    let mut out: Vec<Json> = Vec::new();
    let mut i: usize = 0;
    while i < list.len()
        invariant
            i <= list.len(),
            out.len() == i,
            forall|j: int| 0 <= j < i ==> (#[trigger] out@[j])@ == jstr(list@[j]@),
        decreases list.len() - i,
    {
        out.push(Json::string(list[i].as_str()));
        i += 1;
    }
    assert(views(out@) =~= Seq::new(texts(list@).len(), |i: int| jstr(texts(list@)[i])));
    Json::list(out)
}

/// Starts a conversation with one person or with several.
pub fn open_dm_with(token: Option<&str>, user_ids: &Vec<String>) -> (r: Result<Request, String>)
    ensures
        request_view(r) == conversation_with(maybe_str(token), texts(user_ids@)),
{
    let token = match need_token(token) {
        Ok(t) => t,
        Err(e) => {
            return Err(e);
        },
    };
    assert(texts(user_ids@).len() == user_ids@.len());
    if user_ids.len() == 0 {
        return Err("a conversation needs at least one other person".to_owned());
    }
    if user_ids.len() > GROUP_DM_MAX_OTHERS {
        let over = decimal((user_ids.len() - GROUP_DM_MAX_OTHERS) as u64);
        let mut words = "a Discord group message holds ten people including you - that is ".to_owned();
        words.append(over.as_str());
        words.append(" too many");
        return Err(words);
    }
    let body = if user_ids.len() == 1 {
        assert(texts(user_ids@)[0] == user_ids@[0]@);
        Json::object().put("recipient_id", Json::string(user_ids[0].as_str()))
    } else {
        Json::object().put("recipients", json_texts(user_ids))
    };
    Ok(Request::new(Method::Post, "/users/@me/channels", token).with_body(body))
}

/// Starts a conversation with one person.
pub fn open_dm(token: Option<&str>, target_user_id: &str) -> (r: Result<Request, String>)
    ensures
        request_view(r) == conversation_with(maybe_str(token), seq![target_user_id@]),
{
    let mut ids: Vec<String> = Vec::new();
    ids.push(target_user_id.to_owned());
    assert(texts(ids@) =~= seq![target_user_id@]);
    open_dm_with(token, &ids)
}

/// A direct conversation to open: its channel, its name, its picture and who is in it.
#[derive(Debug, PartialEq, Eq)]
pub struct DmPlan {
    pub channel_id: String,
    pub name: String,
    pub avatar: Option<String>,
    pub members: Vec<Json>,
}

pub struct DmPlanV {
    pub channel_id: Seq<char>,
    pub name: Seq<char>,
    pub avatar: Option<Seq<char>>,
    pub members: Seq<JsonV>,
}

impl View for DmPlan {
    type V = DmPlanV;

    open spec fn view(&self) -> DmPlanV {
        DmPlanV {
            channel_id: self.channel_id@,
            name: self.name@,
            avatar: maybe(self.avatar),
            members: views(self.members@),
        }
    }
}

/// What a channel object comes to as a direct conversation.
pub open spec fn dm_plan(ch: JsonV, known: Map<Seq<char>, Seq<char>>) -> Option<DmPlanV> {
    match ch.at("id"@).text() {
        Some(channel_id) => Some(
            DmPlanV {
                channel_id,
                name: dm_name(ch),
                avatar: dm_picture(ch),
                members: dm_roster(ch, known),
            },
        ),
        None => None,
    }
}

pub fn plan_dm(ch: &Json, presences: &TextMap<String>) -> (r: Option<DmPlan>)
    ensures
        match r {
            Some(p) => dm_plan(ch@, text_values(presences@)) == Some(p@),
            None => dm_plan(ch@, text_values(presences@)) is None,
        },
{
    match ch.at("id").text() {
        Some(channel_id) => Some(
            DmPlan {
                channel_id: channel_id.to_owned(),
                name: dm_channel_name(ch),
                avatar: dm_avatar_url(ch),
                members: set_dm_presence(ch, presences),
            },
        ),
        None => None,
    }
}

/// The conversation that was opened, from the reply to the request for it.
pub fn dm_opened(reply: &Json) -> (r: Result<DmPlan, String>)
    ensures
        match r {
            Ok(p) => dm_plan(reply@, Map::empty()) == Some(p@),
            Err(e) => dm_plan(reply@, Map::empty()) is None && e@ == "no channel id in response"@,
        },
{
    let nobody: TextMap<String> = TextMap::new();
    assert(text_values(nobody@) =~= Map::empty());
    match plan_dm(reply, &nobody) {
        Some(p) => Ok(p),
        None => Err("no channel id in response".to_owned()),
    }
}

/// A direct conversation among the registered ones.
pub open spec fn dm_known(known: Map<Seq<char>, KnownV>, plan: DmPlanV) -> Map<Seq<char>, KnownV> {
    known.insert(plan.channel_id, KnownV { name: plan.name, kind: "dm"@ })
}

/// The conversation to open for a channel object: nothing for one that is registered already.
pub open spec fn dm_to_open(
    ch: JsonV,
    statuses: Map<Seq<char>, Seq<char>>,
    known: Map<Seq<char>, KnownV>,
) -> Option<DmPlanV> {
    match dm_plan(ch, statuses) {
        Some(p) => if known.contains_key(p.channel_id) {
            None
        } else {
            Some(p)
        },
        None => None,
    }
}

/// Registers a direct conversation.
pub fn register_dm_channel(
    ch: &Json,
    channel_map: &mut TextMap<Known>,
    presences: &TextMap<String>,
) -> (r: Option<DmPlan>)
    ensures
        match r {
            Some(p) => {
                &&& dm_to_open(
                    ch@,
                    text_values(presences@),
                    map_views(old(channel_map)@),
                ) == Some(p@)
                &&& map_views(final(channel_map)@) == dm_known(map_views(old(channel_map)@), p@)
            },
            None => {
                &&& dm_to_open(
                    ch@,
                    text_values(presences@),
                    map_views(old(channel_map)@),
                ) is None
                &&& final(channel_map)@ == old(channel_map)@
            },
        },
{
    match ch.at("id").text() {
        Some(id) => if channel_map.contains(id) {
            return None;
        },
        None => {
            return None;
        },
    }
    match plan_dm(ch, presences) {
        Some(p) => {
            let entry = Known { name: p.name.clone(), kind: "dm".to_owned() };
            let ghost before = channel_map@;
            channel_map.insert(p.channel_id.as_str(), entry);
            proof {
                lemma_map_views_insert(before, p.channel_id@, entry);
            }
            Some(p)
        },
        None => None,
    }
}

/// The rail entry that holds an account's direct conversations.
pub open spec fn dm_group(account_id: Seq<char>) -> Seq<char> {
    account_id + "|dms"@
}

pub fn dm_group_id(account_id: &str) -> (r: String)
    ensures
        r@ == dm_group(account_id@),
{
    account_id.to_owned().concat("|dms")
}

/// An entry of the rail: a server, or the direct conversations.
#[derive(Debug, PartialEq, Eq)]
pub struct BufferGroup {
    pub id: String,
    pub account_id: String,
    pub service: String,
    pub kind: String,
    pub name: String,
    pub icon_url: Option<String>,
    pub position: i64,
    pub pending: bool,
}

/// The rail entry of an account's direct conversations, which stands above the servers.
pub fn ensure_dm_group(account_id: &str) -> (r: BufferGroup)
    ensures
        r.id@ == dm_group(account_id@),
        r.account_id@ == account_id@,
        r.service@ == "discord"@,
        r.kind@ == "dms"@,
        r.name@ == "Direct Messages"@,
        r.icon_url is None,
        r.position == -1,
        !r.pending,
{
    BufferGroup {
        id: dm_group_id(account_id),
        account_id: account_id.to_owned(),
        service: "discord".to_owned(),
        kind: "dms".to_owned(),
        name: "Direct Messages".to_owned(),
        icon_url: None,
        position: -1,
        pending: false,
    }
}

/// A request about a channel of an account.
pub open spec fn channel_request(
    token: Option<Seq<char>>,
    channel_id: Option<Seq<char>>,
    method: Method,
    rest: Seq<char>,
) -> Result<RequestV, Seq<char>> {
    match (token, channel_id) {
        (None, _) => Err(not_connected()),
        (_, None) => Err(no_channel()),
        (Some(t), Some(c)) => Ok(asking(method, "/channels/"@ + c + rest, t)),
    }
}

fn about_channel(token: Option<&str>, channel_id: Option<&str>, method: Method, rest: &str) -> (r:
    Result<Request, String>)
    ensures
        request_view(r) == channel_request(maybe_str(token), maybe_str(channel_id), method, rest@),
{
    let token = match need_token(token) {
        Ok(t) => t,
        Err(e) => {
            return Err(e);
        },
    };
    match need_channel(channel_id) {
        Ok(c) => {
            let mut path = "/channels/".to_owned();
            path.append(c);
            path.append(rest);
            Ok(Request::new(method, path.as_str(), token))
        },
        Err(e) => Err(e),
    }
}

/// Asks for the messages that a channel has pinned.
pub fn list_pinned(token: Option<&str>, channel_id: Option<&str>) -> (r: Result<Request, String>)
    ensures
        request_view(r) == channel_request(
            maybe_str(token),
            maybe_str(channel_id),
            Method::Get,
            "/pins"@,
        ),
{
    about_channel(token, channel_id, Method::Get, "/pins")
}

pub open spec fn pin_reader(
    buffer_id: Seq<char>,
    user_id: Seq<char>,
    own_display_name: Option<Seq<char>>,
) -> spec_fn(JsonV) -> Option<JsonV> {
    |m: JsonV| pinned_row(m, buffer_id, user_id, own_display_name)
}

/// The pinned messages of a reply, in its order: the one pinned last comes first.
pub fn pins_listed(
    messages: &Vec<Json>,
    buffer_id: &str,
    user_id: &str,
    own_display_name: Option<&str>,
) -> (r: Vec<Json>)
    ensures
        views(r@) == collect(
            views(messages@),
            pin_reader(buffer_id@, user_id@, maybe_str(own_display_name)),
        ),
{
    let ghost all = views(messages@);
    let ghost reader = pin_reader(buffer_id@, user_id@, maybe_str(own_display_name));
    let mut out: Vec<Json> = Vec::new();
    let mut i: usize = 0;
    assert(views(out@) =~= collect(all.take(0), reader));
    while i < messages.len()
        invariant
            i <= messages.len(),
            all == views(messages@),
            reader == pin_reader(buffer_id@, user_id@, maybe_str(own_display_name)),
            views(out@) == collect(all.take(i as int), reader),
        decreases messages.len() - i,
    {
        let ghost before = out@;
        proof {
            lemma_collect_step(all, reader, i as int);
        }
        match pin_row(&messages[i], buffer_id, user_id, own_display_name) {
            Some(row) => {
                out.push(row);
                assert(views(out@) =~= views(before).push(row@));
            },
            None => {},
        }
        i += 1;
    }
    assert(all.take(i as int) =~= all);
    out
}

/// What is told of the pins: the ids of the rows.
pub fn pins_notice(buffer_id: &str, rows: &Vec<Json>) -> (r: Json)
    ensures
        r@ == nothing().put("bufferId"@, jstr(buffer_id@)).put(
            "pinned"@,
            JsonV::List(collect(views(rows@), id_reader())),
        ),
{
    let ghost all = views(rows@);
    let mut ids: Vec<Json> = Vec::new();
    let mut i: usize = 0;
    assert(views(ids@) =~= collect(all.take(0), id_reader()));
    while i < rows.len()
        invariant
            i <= rows.len(),
            all == views(rows@),
            views(ids@) == collect(all.take(i as int), id_reader()),
        decreases rows.len() - i,
    {
        let ghost before = ids@;
        proof {
            lemma_collect_step(all, id_reader(), i as int);
        }
        match rows[i].at("id").text() {
            Some(id) => {
                let j = Json::string(id);
                ids.push(j);
                assert(views(ids@) =~= views(before).push(j@));
            },
            None => {},
        }
        i += 1;
    }
    assert(all.take(i as int) =~= all);
    Json::object().put("bufferId", Json::string(buffer_id)).put("pinned", Json::list(ids))
}

pub open spec fn id_reader() -> spec_fn(JsonV) -> Option<JsonV> {
    |row: JsonV|
        match row.at("id"@).text() {
            Some(id) => Some(jstr(id)),
            None => None,
        }
}

/// Pins a message, or takes the pin off.
pub open spec fn pin_deed(
    token: Option<Seq<char>>,
    channel_id: Option<Seq<char>>,
    message_id: Seq<char>,
    pinned: bool,
) -> Result<DeedV, Seq<char>> {
    match channel_request(
        token,
        channel_id,
        if pinned {
            Method::Put
        } else {
            Method::Delete
        },
        "/pins/"@ + message_id,
    ) {
        Ok(request) => Ok(
            DeedV {
                request,
                doing: if pinned {
                    "pinning the message"@
                } else {
                    "unpinning the message"@
                },
            },
        ),
        Err(e) => Err(e),
    }
}

pub fn set_pinned(token: Option<&str>, channel_id: Option<&str>, message_id: &str, pinned: bool) -> (r:
    Result<Deed, String>)
    ensures
        deed_view(r) == pin_deed(maybe_str(token), maybe_str(channel_id), message_id@, pinned),
{
    let method = if pinned {
        Method::Put
    } else {
        Method::Delete
    };
    let rest = "/pins/".to_owned().concat(message_id);
    match about_channel(token, channel_id, method, rest.as_str()) {
        Ok(request) => {
            let doing = if pinned {
                "pinning the message"
            } else {
                "unpinning the message"
            };
            Ok(Deed { request, doing: doing.to_owned() })
        },
        Err(e) => Err(e),
    }
}

/// Adds somebody to a group conversation.
pub fn add_to_group_dm(token: Option<&str>, channel_id: &str, user_id: &str) -> (r: Result<
    Request,
    String,
>)
    ensures
        request_view(r) == (match channel_request(
            maybe_str(token),
            Some(channel_id@),
            Method::Put,
            "/recipients/"@ + user_id@,
        ) {
            Ok(request) => Ok(request.with_body(nothing())),
            Err(e) => Err(e),
        }),
{
    let rest = "/recipients/".to_owned().concat(user_id);
    match about_channel(token, Some(channel_id), Method::Put, rest.as_str()) {
        Ok(request) => Ok(request.with_body(Json::object())),
        Err(e) => Err(e),
    }
}

/// Removes somebody from a group conversation.
pub fn remove_from_group_dm(token: Option<&str>, channel_id: &str, user_id: &str) -> (r: Result<
    Request,
    String,
>)
    ensures
        request_view(r) == channel_request(
            maybe_str(token),
            Some(channel_id@),
            Method::Delete,
            "/recipients/"@ + user_id@,
        ),
{
    let rest = "/recipients/".to_owned().concat(user_id);
    about_channel(token, Some(channel_id), Method::Delete, rest.as_str())
}

/// Closes a direct conversation.
pub fn close_dm(token: Option<&str>, channel_id: &str) -> (r: Result<Request, String>)
    ensures
        request_view(r) == channel_request(
            maybe_str(token),
            Some(channel_id@),
            Method::Delete,
            ""@,
        ),
{
    about_channel(token, Some(channel_id), Method::Delete, "")
}

/// A user name, and the digits behind its last number sign where that is how it was written.
pub open spec fn name_and_digits(username: Seq<char>) -> (Seq<char>, Option<Seq<char>>) {
    let whole = trimmed(username);
    match last_place(whole, "#"@, whole.len() as int) {
        Some(i) => {
            let digits = whole.skip(i + 1);
            if digits.len() > 0 && all_digits(digits) {
                (whole.take(i), Some(digits))
            } else {
                (whole, None)
            }
        },
        None => (whole, None),
    }
}

fn split_username(username: &str) -> (r: (String, Option<String>))
    ensures
        (r.0@, maybe(r.1)) == name_and_digits(username@),
{
    let whole = trim(username);
    let chars = chars_of(whole.as_str());
    proof {
        reveal_strlit("#");
        assert("#"@ =~= seq!['#']);
    }
    let mut i: usize = chars.len();
    assert(!stands_at(whole@, "#"@, i as int));
    assert(last_place(whole@, "#"@, whole@.len() as int) == last_place(whole@, "#"@, i - 1));
    while i > 0
        invariant
            chars@ == whole@,
            whole@ == trimmed(username@),
            i <= chars.len(),
            "#"@ == seq!['#'],
            last_place(whole@, "#"@, whole@.len() as int) == last_place(whole@, "#"@, i - 1),
        decreases i,
    {
        let at: usize = i - 1;
        assert(stands_at(whole@, "#"@, at as int) == (whole@[at as int] == '#')) by {
            if whole@[at as int] == '#' {
                assert(whole@.subrange(at as int, at + 1) =~= seq!['#']);
            } else {
                assert(whole@.subrange(at as int, at + 1)[0] != seq!['#'][0]);
            }
        }
        if chars[at] == '#' {
            let ghost digits = whole@.skip(at + 1);
            let mut all = at + 1 < chars.len();
            let mut k: usize = at + 1;
            while k < chars.len()
                invariant
                    chars@ == whole@,
                    at < chars.len(),
                    at + 1 <= k <= chars.len(),
                    digits == whole@.skip(at + 1),
                    all == (digits.len() > 0 && forall|j: int|
                        0 <= j < k - at - 1 ==> is_digit(#[trigger] digits[j])),
                decreases chars.len() - k,
            {
                assert(digits[k - at - 1] == chars@[k as int]);
                if chars[k] < '0' || chars[k] > '9' {
                    all = false;
                }
                k += 1;
            }
            if all {
                let name = slice_text(&chars, 0, at);
                let tail = slice_text(&chars, at + 1, chars.len());
                assert(name@ =~= whole@.take(at as int));
                assert(tail@ =~= digits);
                return (name, Some(tail));
            }
            return (whole, None);
        }
        i = at;
    }
    (whole, None)
}

/// Asks somebody to be friends.
pub open spec fn friend_request(token: Option<Seq<char>>, username: Seq<char>) -> Result<
    RequestV,
    Seq<char>,
> {
    match token {
        Some(t) => Ok(
            asking(Method::Post, "/users/@me/relationships"@, t).with_body(
                nothing().put("username"@, jstr(name_and_digits(username).0)).put(
                    "discriminator"@,
                    jopt(name_and_digits(username).1),
                ),
            ),
        ),
        None => Err(not_connected()),
    }
}

pub fn add_friend(token: Option<&str>, username: &str) -> (r: Result<Request, String>)
    ensures
        request_view(r) == friend_request(maybe_str(token), username@),
{
    match need_token(token) {
        Ok(token) => {
            let (name, digits) = split_username(username);
            Ok(
                Request::new(Method::Post, "/users/@me/relationships", token).with_body(
                    Json::object().put("username", Json::string(name.as_str())).put(
                        "discriminator",
                        Json::opt(crate::text::lend(&digits)),
                    ),
                ),
            )
        },
        Err(e) => Err(e),
    }
}

/// The address of a message.
pub open spec fn link_to(channel_id: Seq<char>, guild_id: Option<Seq<char>>, message_id: Seq<char>) -> Seq<
    char,
> {
    "https://discord.com/channels/"@ + (match guild_id {
        Some(g) => g,
        None => "@me"@,
    }) + "/"@ + channel_id + "/"@ + message_id
}

pub fn message_link(channel_id: &str, guild_id: Option<&str>, message_id: &str) -> (r: String)
    ensures
        r@ == link_to(channel_id@, maybe_str(guild_id), message_id@),
{
    let place = match guild_id {
        Some(g) => g,
        None => "@me",
    };
    let mut out = "https://discord.com/channels/".to_owned();
    out.append(place);
    out.append("/");
    out.append(channel_id);
    out.append("/");
    out.append(message_id);
    out
}

/// What a reply refers to.
pub fn reply_reference(reply_to_id: Option<&str>) -> (r: Option<Json>)
    ensures
        match (reply_to_id, r) {
            (Some(id), Some(j)) => j@ == nothing().put("message_id"@, jstr(id@)),
            (None, None) => true,
            _ => false,
        },
{
    match reply_to_id {
        Some(id) => Some(Json::object().put("message_id", Json::string(id))),
        None => None,
    }
}

/// What a message is sent as: its text, with what it replies to.
pub open spec fn message_payload(content: Seq<char>, reply_to_id: Option<Seq<char>>) -> JsonV {
    let bare = nothing().put("content"@, jstr(content));
    match reply_to_id {
        Some(id) => bare.put("message_reference"@, nothing().put("message_id"@, jstr(id))),
        None => bare,
    }
}

pub fn write_payload(content: &str, reply_to_id: Option<&str>) -> (r: Json)
    ensures
        r@ == message_payload(content@, maybe_str(reply_to_id)),
{
    let bare = Json::object().put("content", Json::string(content));
    match reply_reference(reply_to_id) {
        Some(reference) => bare.put("message_reference", reference),
        None => bare,
    }
}

pub open spec fn no_buffer_channel() -> Seq<char> {
    "no known Discord channel for this buffer"@
}

/// A request about a conversation's channel.
pub open spec fn buffer_request(
    token: Seq<char>,
    channel_id: Option<Seq<char>>,
    method: Method,
    rest: Seq<char>,
) -> Result<RequestV, Seq<char>> {
    match channel_id {
        Some(c) => Ok(asking(method, "/channels/"@ + c + rest, token)),
        None => Err(no_buffer_channel()),
    }
}

fn about_buffer(token: &str, channel_id: Option<&str>, method: Method, rest: &str) -> (r: Result<
    Request,
    String,
>)
    ensures
        request_view(r) == buffer_request(token@, maybe_str(channel_id), method, rest@),
{
    match channel_id {
        Some(c) => {
            let mut path = "/channels/".to_owned();
            path.append(c);
            path.append(rest);
            Ok(Request::new(method, path.as_str(), token))
        },
        None => Err("no known Discord channel for this buffer".to_owned()),
    }
}

/// With a body, where there is a request.
pub open spec fn bodied(r: Result<RequestV, Seq<char>>, body: JsonV) -> Result<RequestV, Seq<char>> {
    match r {
        Ok(request) => Ok(request.with_body(body)),
        Err(e) => Err(e),
    }
}

/// Sends a message whose names have been turned into mentions already.
pub fn send_content(token: &str, channel_id: Option<&str>, content: &str, reply_to_id: Option<&str>) -> (r:
    Result<Request, String>)
    ensures
        request_view(r) == bodied(
            buffer_request(token@, maybe_str(channel_id), Method::Post, "/messages"@),
            message_payload(content@, maybe_str(reply_to_id)),
        ),
{
    match about_buffer(token, channel_id, Method::Post, "/messages") {
        Ok(request) => Ok(request.with_body(write_payload(content, reply_to_id))),
        Err(e) => Err(e),
    }
}

/// Sends a message: the names in it are turned into mentions first.
pub fn send_message(
    token: &str,
    channel_id: Option<&str>,
    body: &str,
    candidates: Vec<Candidate>,
    reply_to_id: Option<&str>,
) -> (r: Result<Request, String>)
    ensures
        request_view(r) == bodied(
            buffer_request(token@, maybe_str(channel_id), Method::Post, "/messages"@),
            message_payload(
                all_replaced(body@, longest_first(views(candidates@))),
                maybe_str(reply_to_id),
            ),
        ),
{
    let content = resolve_outgoing_mentions(body, candidates);
    send_content(token, channel_id, content.as_str(), reply_to_id)
}

/// Sends a file: where to, and the message that goes with it.
pub fn send_attachment(
    token: &str,
    channel_id: Option<&str>,
    body: &str,
    candidates: Vec<Candidate>,
    reply_to_id: Option<&str>,
) -> (r: Result<(Request, Json), String>)
    ensures
        match r {
            Ok(sent) => {
                &&& Ok::<RequestV, Seq<char>>(sent.0@) == buffer_request(
                    token@,
                    maybe_str(channel_id),
                    Method::Post,
                    "/messages"@,
                )
                &&& sent.1@ == message_payload(
                    all_replaced(body@, longest_first(views(candidates@))),
                    maybe_str(reply_to_id),
                )
            },
            Err(e) => channel_id is None && e@ == no_buffer_channel(),
        },
{
    let content = resolve_outgoing_mentions(body, candidates);
    match about_buffer(token, channel_id, Method::Post, "/messages") {
        Ok(request) => Ok((request, write_payload(content.as_str(), reply_to_id))),
        Err(e) => Err(e),
    }
}

/// Changes what a message says.
pub fn edit_message(token: &str, channel_id: Option<&str>, msg_id: &str, body: &str) -> (r: Result<
    Request,
    String,
>)
    ensures
        request_view(r) == bodied(
            buffer_request(
                token@,
                maybe_str(channel_id),
                Method::Patch,
                "/messages/"@ + msg_id@,
            ),
            nothing().put("content"@, jstr(body@)),
        ),
{
    let rest = "/messages/".to_owned().concat(msg_id);
    match about_buffer(token, channel_id, Method::Patch, rest.as_str()) {
        Ok(request) => Ok(request.with_body(Json::object().put("content", Json::string(body)))),
        Err(e) => Err(e),
    }
}

/// Deletes a message.
pub fn delete_message(token: &str, channel_id: Option<&str>, msg_id: &str) -> (r: Result<
    Request,
    String,
>)
    ensures
        request_view(r) == buffer_request(
            token@,
            maybe_str(channel_id),
            Method::Delete,
            "/messages/"@ + msg_id@,
        ),
{
    let rest = "/messages/".to_owned().concat(msg_id);
    about_buffer(token, channel_id, Method::Delete, rest.as_str())
}

/// Says that this account is writing something.
pub fn send_typing(token: &str, channel_id: Option<&str>) -> (r: Result<Request, String>)
    ensures
        request_view(r) == (match buffer_request(
            token@,
            maybe_str(channel_id),
            Method::Post,
            "/typing"@,
        ) {
            Ok(request) => Ok(request.with_header("Content-Length"@, "0"@)),
            Err(e) => Err(e),
        }),
{
    match about_buffer(token, channel_id, Method::Post, "/typing") {
        Ok(request) => Ok(request.with_header("Content-Length", "0")),
        Err(e) => Err(e),
    }
}

/// Tells the service that a conversation has been read up to the newest message held; there is
/// nothing to tell where none is.
pub fn ack_read(token: &str, channel_id: Option<&str>, newest: Option<&str>) -> (r: Result<
    Option<Request>,
    String,
>)
    ensures
        match (channel_id, newest, r) {
            (None, _, Err(e)) => e@ == no_buffer_channel(),
            (Some(_), None, Ok(None)) => true,
            (Some(c), Some(m), Ok(Some(request))) => request@ == asking(
                Method::Post,
                "/channels/"@ + c@ + ("/messages/"@ + m@ + "/ack"@),
                token@,
            ).with_body(nothing().put("token"@, JsonV::Null)),
            _ => false,
        },
{
    let channel_id = match channel_id {
        Some(c) => c,
        None => {
            return Err("no known Discord channel for this buffer".to_owned());
        },
    };
    match newest {
        Some(msg_id) => {
            let rest = "/messages/".to_owned().concat(msg_id).concat("/ack");
            match about_buffer(token, Some(channel_id), Method::Post, rest.as_str()) {
                Ok(request) => Ok(
                    Some(request.with_body(Json::object().put("token", Json::Null))),
                ),
                Err(e) => Err(e),
            }
        },
        None => Ok(None),
    }
}

/// How an emoji is named in an address: one of a server's own without its brackets and without the
/// mark of a moving one, any other as itself.
pub open spec fn reaction_segment(emoji: Seq<char>) -> Seq<char> {
    let inner = if "<:"@.is_prefix_of(emoji) {
        emoji.skip(2)
    } else {
        emoji.skip(3)
    };
    if ("<:"@.is_prefix_of(emoji) || "<a:"@.is_prefix_of(emoji)) && inner.len() > 0 && inner.last()
        == '>' {
        inner.drop_last()
    } else {
        emoji
    }
}

pub fn reaction_path_segment(emoji: &str) -> (r: String)
    ensures
        r@ == reaction_segment(emoji@),
{
    proof {
        reveal_strlit("<:");
        reveal_strlit("<a:");
    }
    let start: usize = if starts_with(emoji, "<:") {
        2
    } else if starts_with(emoji, "<a:") {
        3
    } else {
        return emoji.to_owned();
    };
    let chars = chars_of(emoji);
    assert(chars@.len() >= start);
    let ghost inner = emoji@.skip(start as int);
    if start < chars.len() && chars[chars.len() - 1] == '>' {
        assert(inner.last() == '>');
        let r = slice_text(&chars, start, chars.len() - 1);
        assert(r@ =~= inner.drop_last());
        r
    } else {
        assert(inner.len() > 0 ==> inner.last() == chars@[chars@.len() - 1]);
        emoji.to_owned()
    }
}

/// Why an address could not be built.
#[derive(Clone, Copy, Debug, PartialEq, Eq, Structural)]
pub enum UrlFault {
    /// It is no address.
    Unparsable,
    /// It is an address that has no path.
    NoPath,
}

/// An address with one more segment.
pub uninterp spec fn address_with(base: Seq<char>, segment: Seq<char>) -> Result<
    Seq<char>,
    UrlFault,
>;

/// `url::PathSegmentsMut::push` on an address: the address with one more segment, encoded as a path
/// needs. How it is encoded is left to `url`.
#[verifier::external_body]
fn push_segment(base: &str, segment: &str) -> (r: Result<String, UrlFault>)
    ensures
        address_view(r) == address_with(base@, segment@),
{
    let mut url = url::Url::parse(base).map_err(|_| UrlFault::Unparsable)?;
    url.path_segments_mut().map_err(|_| UrlFault::NoPath)?.push(segment);
    Ok(url.to_string())
}

/// An address with two more segments.
pub open spec fn address_with_both(base: Seq<char>, first: Seq<char>, second: Seq<char>) -> Result<
    Seq<char>,
    UrlFault,
> {
    match address_with(base, first) {
        Ok(longer) => address_with(longer, second),
        Err(e) => Err(e),
    }
}

fn push_segments(base: &str, first: &str, second: &str) -> (r: Result<String, UrlFault>)
    ensures
        address_view(r) == address_with_both(base@, first@, second@),
{
    match push_segment(base, first) {
        Ok(longer) => push_segment(longer.as_str(), second),
        Err(e) => Err(e),
    }
}

/// The address of a message's reactions.
pub open spec fn reactions_base(channel_id: Seq<char>, msg_id: Seq<char>) -> Seq<char> {
    API_BASE@ + ("/channels/"@ + channel_id + "/messages/"@ + msg_id + "/reactions"@)
}

/// The request that puts this account's reaction on a message or takes it off, given the address
/// it goes to.
pub open spec fn reaction_to(
    token: Seq<char>,
    address: Result<Seq<char>, UrlFault>,
    add: bool,
) -> Result<RequestV, Seq<char>> {
    match address {
        Ok(url) => Ok(
            RequestV {
                url,
                ..asking(
                    if add {
                        Method::Put
                    } else {
                        Method::Delete
                    },
                    ""@,
                    token,
                )
            },
        ),
        Err(UrlFault::Unparsable) => Err("building reaction URL"@),
        Err(UrlFault::NoPath) => Err("reaction URL cannot be a base"@),
    }
}

/// What an address is.
pub open spec fn address_view(address: Result<String, UrlFault>) -> Result<Seq<char>, UrlFault> {
    match address {
        Ok(url) => Ok(url@),
        Err(e) => Err(e),
    }
}

/// The request for a reaction, given the address it goes to.
pub fn reaction_at(token: &str, address: Result<String, UrlFault>, add: bool) -> (r: Result<
    Request,
    String,
>)
    ensures
        request_view(r) == reaction_to(token@, address_view(address), add),
{
    match address {
        Ok(url) => {
            let method = if add {
                Method::Put
            } else {
                Method::Delete
            };
            let mut request = Request::new(method, "", token);
            request.url = url;
            Ok(request)
        },
        Err(UrlFault::Unparsable) => Err("building reaction URL".to_owned()),
        Err(UrlFault::NoPath) => Err("reaction URL cannot be a base".to_owned()),
    }
}

/// Puts this account's reaction on a message, or takes it off.
pub fn toggle_reaction(
    token: &str,
    channel_id: Option<&str>,
    msg_id: &str,
    emoji: &str,
    add: bool,
) -> (r: Result<Request, String>)
    ensures
        match channel_id {
            Some(c) => request_view(r) == reaction_to(
                token@,
                address_with_both(
                    reactions_base(c@, msg_id@),
                    reaction_segment(emoji@),
                    "@me"@,
                ),
                add,
            ),
            None => request_view(r) == Err::<RequestV, Seq<char>>(no_buffer_channel()),
        },
{
    let channel_id = match channel_id {
        Some(c) => c,
        None => {
            return Err("no known Discord channel for this buffer".to_owned());
        },
    };
    let mut rest = "/channels/".to_owned();
    rest.append(channel_id);
    rest.append("/messages/");
    rest.append(msg_id);
    rest.append("/reactions");
    let base = API_BASE.to_owned().concat(rest.as_str());
    let segment = reaction_path_segment(emoji);
    let address = push_segments(base.as_str(), segment.as_str(), "@me");
    reaction_at(token, address, add)
}

/// A remark on a profile.
#[derive(Debug, PartialEq, Eq)]
pub struct Note {
    pub label: String,
    pub text: String,
}

pub struct NoteV {
    pub label: Seq<char>,
    pub text: Seq<char>,
}

impl View for Note {
    type V = NoteV;

    open spec fn view(&self) -> NoteV {
        NoteV { label: self.label@, text: self.text@ }
    }
}

/// Who somebody is, as far as it is known.
#[derive(Debug, PartialEq, Eq)]
pub struct Profile {
    pub id: String,
    pub name: String,
    pub handle: Option<String>,
    /// When the account was made, in seconds since the epoch.
    pub created_ts: Option<i64>,
    /// When they joined the server.
    pub joined_ts: Option<i64>,
    pub roles: Vec<String>,
    pub is_moderator: Option<bool>,
    pub status: Option<String>,
    pub avatar_url: Option<String>,
    pub notes: Vec<Note>,
}

pub struct ProfileV {
    pub id: Seq<char>,
    pub name: Seq<char>,
    pub handle: Option<Seq<char>>,
    pub created_ts: Option<i64>,
    pub joined_ts: Option<i64>,
    pub roles: Seq<Seq<char>>,
    pub is_moderator: Option<bool>,
    pub status: Option<Seq<char>>,
    pub avatar_url: Option<Seq<char>>,
    pub notes: Seq<NoteV>,
}

impl View for Profile {
    type V = ProfileV;

    open spec fn view(&self) -> ProfileV {
        ProfileV {
            id: self.id@,
            name: self.name@,
            handle: maybe(self.handle),
            created_ts: self.created_ts,
            joined_ts: self.joined_ts,
            roles: texts(self.roles@),
            is_moderator: self.is_moderator,
            status: maybe(self.status),
            avatar_url: maybe(self.avatar_url),
            notes: views(self.notes@),
        }
    }
}

/// What is known of somebody before anything is asked.
pub open spec fn profile_start(user_id: Seq<char>, name: Seq<char>, created_ts: Option<i64>) -> ProfileV {
    ProfileV {
        id: user_id,
        name,
        handle: None,
        created_ts,
        joined_ts: None,
        roles: Seq::empty(),
        is_moderator: None,
        status: None,
        avatar_url: None,
        notes: Seq::empty(),
    }
}

/// The moment that a value names.
pub open spec fn moment_at(value: JsonV) -> Option<i64> {
    match value.text() {
        Some(t) => moment_of(t),
        None => None,
    }
}

fn read_moment_at(value: &Json) -> (r: Option<i64>)
    ensures
        r == moment_at(value@),
{
    match value.text() {
        Some(t) => parse_iso8601_seconds(t),
        None => None,
    }
}

/// A profile with what the server's own member list said of them.
pub open spec fn profile_with_member(
    before: ProfileV,
    member: JsonV,
    role_names: Seq<Seq<char>>,
    moderates: bool,
) -> ProfileV {
    ProfileV {
        joined_ts: match moment_at(member.at("joined_at"@)) {
            Some(s) => Some(s),
            None => before.joined_ts,
        },
        notes: match filled(member.at("nick"@).text()) {
            Some(nick) => before.notes.push(NoteV { label: "Nickname here"@, text: nick }),
            None => before.notes,
        },
        roles: if role_names.len() > 0 {
            role_names
        } else {
            before.roles
        },
        is_moderator: Some(moderates),
        status: match member.at("presence"@).at("status"@).text() {
            Some(s) => Some(s),
            None => before.status,
        },
        ..before
    }
}

/// The notes that a reply adds.
pub open spec fn reply_notes(body: JsonV) -> Seq<NoteV> {
    let about = match body.at("user"@).at("bio"@).text() {
        Some(bio) => if is_blank(bio) {
            Seq::empty()
        } else {
            seq![NoteV { label: "About"@, text: trimmed(bio) }]
        },
        None => Seq::empty(),
    };
    let since = match body.at("premium_since"@).text() {
        Some(t) => seq![NoteV { label: "Nitro since"@, text: split_on(t, 'T')[0] }],
        None => Seq::empty(),
    };
    about + since
}

/// A profile with what the service answered about them.
pub open spec fn profile_with_reply(before: ProfileV, body: JsonV, asked_name: Seq<char>) -> ProfileV {
    let user = body.at("user"@);
    let display = filled(user.at("global_name"@).text());
    ProfileV {
        name: match display {
            Some(d) => d,
            None => match user.at("username"@).text() {
                Some(u) => u,
                None => before.name,
            },
        },
        handle: match display {
            Some(_) => Some(text_or_v(user.at("username"@), asked_name)),
            None => before.handle,
        },
        avatar_url: match (user.at("avatar"@).text(), user.at("id"@).text()) {
            (Some(avatar), Some(id)) => Some(
                "https://cdn.discordapp.com/avatars/"@ + id + "/"@ + avatar + ".png?size=128"@,
            ),
            _ => before.avatar_url,
        },
        notes: before.notes + reply_notes(body),
        joined_ts: match before.joined_ts {
            Some(s) => Some(s),
            None => moment_at(body.at("guild_member"@).at("joined_at"@)),
        },
        ..before
    }
}

/// What the member list of a server said of somebody.
#[derive(Debug, PartialEq, Eq)]
pub struct KnownMember {
    pub member: Json,
    pub role_names: Vec<String>,
    pub moderates: bool,
}

/// All that is known of somebody: what needs no asking, what a member list said, and what the
/// service answered.
pub open spec fn profile_of(
    user_id: Seq<char>,
    name: Seq<char>,
    created_ts: Option<i64>,
    known: Option<KnownMember>,
    reply: Option<JsonV>,
) -> ProfileV {
    let start = profile_start(user_id, name, created_ts);
    let middle = match known {
        Some(k) => profile_with_member(start, k.member@, texts(k.role_names@), k.moderates),
        None => start,
    };
    match reply {
        Some(body) => profile_with_reply(middle, body, name),
        None => middle,
    }
}

/// Who somebody is. What is known already still shows where the service does not answer.
pub fn profile(
    user_id: &str,
    name: &str,
    created_ts: Option<i64>,
    known: Option<KnownMember>,
    reply: Option<&Json>,
) -> (r: Profile)
    ensures
        r@ == profile_of(
            user_id@,
            name@,
            created_ts,
            known,
            super::guilds::maybe_json(reply),
        ),
{
    let mut p = Profile {
        id: user_id.to_owned(),
        name: name.to_owned(),
        handle: None,
        created_ts,
        joined_ts: None,
        roles: Vec::new(),
        is_moderator: None,
        status: None,
        avatar_url: None,
        notes: Vec::new(),
    };
    proof {
        assert(texts(p.roles@) =~= Seq::empty());
        assert(views(p.notes@) =~= Seq::empty());
    }
    match &known {
        Some(k) => {
            p.joined_ts = read_moment_at(k.member.at("joined_at"));
            match only_filled(k.member.at("nick").text()) {
                Some(nick) => {
                    let ghost before = p.notes@;
                    let note = Note { label: "Nickname here".to_owned(), text: nick.to_owned() };
                    p.notes.push(note);
                    assert(views(p.notes@) =~= views(before).push(note@));
                },
                None => {},
            }
            assert(texts(k.role_names@).len() == k.role_names@.len());
            if k.role_names.len() > 0 {
                p.roles = copy_texts(&k.role_names);
            }
            p.is_moderator = Some(k.moderates);
            p.status = own(k.member.at("presence").at("status").text());
        },
        None => {},
    }
    let body = match reply {
        Some(body) => body,
        None => {
            return p;
        },
    };
    let ghost middle = p@;
    let user = body.at("user");
    match only_filled(user.at("global_name").text()) {
        Some(display) => {
            p.name = display.to_owned();
            p.handle = Some(text_or(user.at("username"), name).to_owned());
        },
        None => {
            match user.at("username").text() {
                Some(username) => {
                    p.name = username.to_owned();
                },
                None => {},
            }
        },
    }
    match (user.at("avatar").text(), user.at("id").text()) {
        (Some(avatar), Some(id)) => {
            let mut url = "https://cdn.discordapp.com/avatars/".to_owned();
            url.append(id);
            url.append("/");
            url.append(avatar);
            url.append(".png?size=128");
            p.avatar_url = Some(url);
        },
        _ => {},
    }
    let ghost noted = views(p.notes@);
    match user.at("bio").text() {
        Some(bio) => {
            if !blank(bio) {
                let ghost before = p.notes@;
                let note = Note { label: "About".to_owned(), text: trim(bio) };
                p.notes.push(note);
                assert(views(p.notes@) =~= views(before).push(note@));
            }
        },
        None => {},
    }
    match body.at("premium_since").text() {
        Some(since) => {
            let parts = split(since, 'T');
            assert(texts(parts@)[0] == parts@[0]@);
            let ghost before = p.notes@;
            let note = Note { label: "Nitro since".to_owned(), text: parts[0].clone() };
            p.notes.push(note);
            assert(views(p.notes@) =~= views(before).push(note@));
        },
        None => {},
    }
    assert(views(p.notes@) =~= noted + reply_notes(body@));
    if p.joined_ts.is_none() {
        p.joined_ts = read_moment_at(body.at("guild_member").at("joined_at"));
    }
    p
}

/// Asks the service who somebody is, in the server that the conversation belongs to.
pub fn profile_request(token: &str, user_id: &str, group_id: Option<&str>) -> (r: Request)
    ensures
        r@ == asking(
            Method::Get,
            "/users/"@ + user_id@ + "/profile?with_mutual_guilds=false"@ + (
            match guild_of_group(maybe_str(group_id)) {
                Some(g) => "&guild_id="@ + g,
                None => Seq::empty(),
            }),
            token@,
        ),
{
    let mut path = "/users/".to_owned();
    path.append(user_id);
    path.append("/profile?with_mutual_guilds=false");
    let ghost start = path@;
    match guild_in_group(group_id) {
        Some(g) => {
            let rest = "&guild_id=".to_owned().concat(g.as_str());
            path.append(rest.as_str());
        },
        None => {
            assert(start + Seq::<char>::empty() =~= start);
        },
    }
    Request::new(Method::Get, path.as_str(), token)
}

/// When they joined comes from the member list where it says so, whatever the service answers.
pub proof fn law_the_member_list_comes_first(
    user_id: Seq<char>,
    name: Seq<char>,
    created_ts: Option<i64>,
    known: KnownMember,
    reply: JsonV,
)
    requires
        moment_at(known.member@.at("joined_at"@)) is Some,
    ensures
        profile_of(user_id, name, created_ts, Some(known), Some(reply)).joined_ts == moment_at(
            known.member@.at("joined_at"@),
        ),
{
}

/// A conversation is asked for by an account with a token, with one to nine others: one of them by
/// name, which finds the conversation that is there, and several as a list, which makes a group.
pub proof fn law_a_conversation_is_asked_for_with_its_people(
    token: Option<Seq<char>>,
    user_ids: Seq<Seq<char>>,
)
    ensures
        ({
            let r = conversation_with(token, user_ids);
            &&& r is Ok <==> token is Some && 1 <= user_ids.len() <= 9
            &&& token is None ==> r == Err::<RequestV, Seq<char>>(not_connected())
            &&& token is Some && user_ids.len() > 9 ==> r == Err::<RequestV, Seq<char>>(
                "a Discord group message holds ten people including you - that is "@
                    + decimal_text((user_ids.len() - 9) as nat) + " too many"@,
            )
            &&& r is Ok ==> {
                let q = r->Ok_0;
                &&& q.method == Method::Post
                &&& q.url == "https://discord.com/api/v10"@ + "/users/@me/channels"@
                &&& q.headers.len() == 1 && q.headers[0].value == token->0
                &&& user_ids.len() == 1 ==> q.body->0.at("recipient_id"@) == JsonV::Str(user_ids[0])
                    && q.body->0.get("recipients"@) is None
                &&& user_ids.len() > 1 ==> {
                    let list = q.body->0.at("recipients"@).items();
                    &&& q.body->0.get("recipient_id"@) is None
                    &&& list.len() == user_ids.len()
                    &&& forall|i: int|
                        0 <= i < list.len() ==> #[trigger] list[i] == JsonV::Str(user_ids[i])
                }
            }
        }),
{
    broadcast use law_put_then_read;

    reveal_strlit("recipient_id");
    reveal_strlit("recipients");
    assert("recipient_id"@.len() == 12);
    assert("recipients"@.len() == 10);
}

/// A channel with an id is a conversation of that id, under its people's names, with their picture and
/// their list.
pub proof fn law_a_conversation_is_planned_from_its_channel(
    ch: JsonV,
    known: Map<Seq<char>, Seq<char>>,
)
    ensures
        ({
            let r = dm_plan(ch, known);
            &&& r is Some <==> ch.at("id"@) is Str
            &&& r is Some ==> {
                &&& ch.at("id"@) == JsonV::Str(r->0.channel_id)
                &&& r->0.name == dm_name(ch)
                &&& r->0.avatar == dm_picture(ch)
                &&& r->0.members == dm_roster(ch, known)
            }
        }),
{
}

/// A conversation is opened once: a channel that is registered opens nothing, and one that is not is
/// registered as a direct conversation under its name, beside all that was registered before.
pub proof fn law_a_conversation_is_opened_once(
    ch: JsonV,
    statuses: Map<Seq<char>, Seq<char>>,
    known: Map<Seq<char>, KnownV>,
    other: Seq<char>,
)
    ensures
        ({
            let r = dm_to_open(ch, statuses, known);
            &&& r is Some <==> ch.at("id"@) is Str && !known.contains_key(ch.at("id"@)->Str_0)
            &&& r is Some ==> {
                let after = dm_known(known, r->0);
                &&& r == dm_plan(ch, statuses)
                &&& dm_to_open(ch, statuses, after) is None
                &&& after[r->0.channel_id].name == r->0.name
                &&& after[r->0.channel_id].kind == "dm"@
                &&& other != r->0.channel_id ==> after.contains_key(other) == known.contains_key(
                    other,
                ) && (known.contains_key(other) ==> after[other] == known[other])
            }
        }),
{
}

/// Every account has an entry of its own for its direct conversations.
pub proof fn law_every_account_has_its_own_conversations(account: Seq<char>, other: Seq<char>)
    ensures
        dm_group(account) == account + "|dms"@,
        dm_group(account) == dm_group(other) ==> account == other,
{
    if dm_group(account) == dm_group(other) {
        assert((account + "|dms"@).len() == (other + "|dms"@).len());
        assert((account + "|dms"@).take(account.len() as int) =~= account);
        assert((other + "|dms"@).take(other.len() as int) =~= other);
    }
}

/// A request about a channel needs a token and a channel, in this order, and goes to that channel.
pub proof fn law_a_channel_is_asked_about_by_its_id(
    token: Option<Seq<char>>,
    channel_id: Option<Seq<char>>,
    method: Method,
    rest: Seq<char>,
)
    ensures
        ({
            let r = channel_request(token, channel_id, method, rest);
            &&& r is Ok <==> token is Some && channel_id is Some
            &&& token is None ==> r == Err::<RequestV, Seq<char>>(not_connected())
            &&& token is Some && channel_id is None ==> r == Err::<RequestV, Seq<char>>(no_channel())
            &&& r is Ok ==> {
                let q = r->Ok_0;
                &&& q.method == method
                &&& q.url == "https://discord.com/api/v10"@ + ("/channels/"@ + channel_id->0 + rest)
                &&& q.headers.len() == 1 && q.headers[0].value == token->0
                &&& q.body is None && q.query.len() == 0
            }
        }),
{
}

/// Pinning puts and unpinning deletes, at the same address: that of the message among the channel's
/// pins.
pub proof fn law_unpinning_takes_back_pinning(
    token: Option<Seq<char>>,
    channel_id: Option<Seq<char>>,
    message_id: Seq<char>,
)
    ensures
        ({
            let on = pin_deed(token, channel_id, message_id, true);
            let off = pin_deed(token, channel_id, message_id, false);
            &&& on is Ok <==> token is Some && channel_id is Some
            &&& off is Ok <==> on is Ok
            &&& on is Ok ==> {
                &&& on->Ok_0.request.method == Method::Put
                &&& off->Ok_0.request.method == Method::Delete
                &&& on->Ok_0.request.url == off->Ok_0.request.url
                &&& on->Ok_0.request.url == "https://discord.com/api/v10"@ + ("/channels/"@
                    + channel_id->0 + ("/pins/"@ + message_id))
                &&& on->Ok_0.doing == "pinning the message"@
                &&& off->Ok_0.doing == "unpinning the message"@
            }
        }),
{
}

/// A user name is taken apart at its last number sign where nothing but digits, and some of them,
/// follow it; any other is left whole. White space around it does not count.
pub proof fn law_digits_behind_a_number_sign_are_taken_apart(
    username: Seq<char>,
    front: Seq<char>,
    rest: Seq<char>,
)
    requires
        !rest.contains('#'),
    ensures
        trimmed(username) == front.push('#') + rest && rest.len() > 0 && all_digits(rest)
            ==> name_and_digits(username) == (front, Some(rest)),
        trimmed(username) == front.push('#') + rest && !(rest.len() > 0 && all_digits(rest))
            ==> name_and_digits(username) == (trimmed(username), None::<Seq<char>>),
        trimmed(username) == rest ==> name_and_digits(username) == (rest, None::<Seq<char>>),
{
    reveal_strlit("#");
    assert("#"@ =~= seq!['#']);
    let whole = trimmed(username);
    crate::text::law_the_last_place_is_the_last(whole, "#"@);
    if whole == front.push('#') + rest {
        let n = front.len() as int;
        assert(whole.subrange(n, n + 1) =~= "#"@);
        assert(stands_at(whole, "#"@, n));
        let at = last_place(whole, "#"@, whole.len() as int)->0;
        assert(crate::text::has_part(whole, "#"@));
        if at > n {
            assert(whole.subrange(at, at + 1)[0] == whole[at]);
            assert(whole[at] == rest[at - n - 1]);
            assert(rest.contains(rest[at - n - 1]));
        }
        assert(at == n);
        assert(whole.skip(n + 1) =~= rest);
        assert(whole.take(n) =~= front);
    }
    if whole == rest {
        if crate::text::has_part(whole, "#"@) {
            let at = last_place(whole, "#"@, whole.len() as int)->0;
            assert(whole.subrange(at, at + 1)[0] == whole[at]);
            assert(rest.contains(rest[at]));
        }
    }
}

/// Somebody is asked to be friends by their name and, where it was written with them, their digits.
pub proof fn law_a_friend_is_asked_by_name(token: Option<Seq<char>>, username: Seq<char>)
    ensures
        ({
            let r = friend_request(token, username);
            &&& r is Ok <==> token is Some
            &&& r is Err ==> r == Err::<RequestV, Seq<char>>(not_connected())
            &&& r is Ok ==> {
                let q = r->Ok_0;
                &&& q.method == Method::Post
                &&& q.url == "https://discord.com/api/v10"@ + "/users/@me/relationships"@
                &&& q.headers.len() == 1 && q.headers[0].value == token->0
                &&& q.body->0.at("username"@) == JsonV::Str(name_and_digits(username).0)
                &&& q.body->0.at("discriminator"@).text() == name_and_digits(username).1
                &&& q.body->0.get("discriminator"@) is Some
            }
        }),
{
    broadcast use law_put_then_read;

    reveal_strlit("username");
    reveal_strlit("discriminator");
    assert("username"@.len() == 8);
    assert("discriminator"@.len() == 13);
}

/// The address of a message names its server, or this account where there is none, then its channel,
/// then the message.
pub proof fn law_a_message_has_an_address(
    channel_id: Seq<char>,
    guild_id: Seq<char>,
    message_id: Seq<char>,
)
    ensures
        link_to(channel_id, Some(guild_id), message_id) == "https://discord.com/channels/"@ + guild_id
            + "/"@ + channel_id + "/"@ + message_id,
        link_to(channel_id, None, message_id) == "https://discord.com/channels/"@ + "@me"@ + "/"@
            + channel_id + "/"@ + message_id,
{
}

/// A message is sent with its text, and with the message that it replies to exactly where it replies to
/// one.
pub proof fn law_a_message_is_sent_with_its_text(content: Seq<char>, reply_to_id: Option<Seq<char>>)
    ensures
        ({
            let j = message_payload(content, reply_to_id);
            &&& j.at("content"@) == JsonV::Str(content)
            &&& j.get("message_reference"@) is Some <==> reply_to_id is Some
            &&& j.at("message_reference"@).at("message_id"@).text() == reply_to_id
        }),
{
    broadcast use law_put_then_read;

    reveal_strlit("content");
    reveal_strlit("message_reference");
    reveal_strlit("message_id");
    assert("content"@.len() == 7);
    assert("message_reference"@.len() == 17);
    assert("message_id"@.len() == 10);
}

/// A request about a conversation goes to its channel with the token, and there is none for a
/// conversation whose channel is not known; a body goes on it and on no refusal.
pub proof fn law_a_conversation_is_written_to_by_its_channel(
    token: Seq<char>,
    channel_id: Option<Seq<char>>,
    method: Method,
    rest: Seq<char>,
    body: JsonV,
)
    ensures
        ({
            let r = buffer_request(token, channel_id, method, rest);
            &&& r is Ok <==> channel_id is Some
            &&& r is Err ==> r == Err::<RequestV, Seq<char>>(
                "no known Discord channel for this buffer"@,
            )
            &&& r is Ok ==> {
                &&& r->Ok_0.method == method
                &&& r->Ok_0.url == "https://discord.com/api/v10"@ + ("/channels/"@ + channel_id->0
                    + rest)
                &&& r->Ok_0.headers.len() == 1 && r->Ok_0.headers[0].value == token
                &&& r->Ok_0.body is None
                &&& bodied(r, body) is Ok
                &&& bodied(r, body)->Ok_0.body == Some(body)
                &&& bodied(r, body)->Ok_0.url == r->Ok_0.url
                &&& bodied(r, body)->Ok_0.method == method
                &&& bodied(r, body)->Ok_0.headers == r->Ok_0.headers
            }
            &&& r is Err ==> bodied(r, body) == r
        }),
{
}

/// One of a server's own emoji is named without its brackets and without the mark of a moving one; any
/// other text is named as it is.
pub proof fn law_an_emoji_is_named_without_its_brackets(inner: Seq<char>, other: Seq<char>)
    ensures
        reaction_segment("<:"@ + inner + ">"@) == inner,
        reaction_segment("<a:"@ + inner + ">"@) == inner,
        !"<:"@.is_prefix_of(other) && !"<a:"@.is_prefix_of(other) ==> reaction_segment(other)
            == other,
        other.len() > 0 && other.last() != '>' ==> reaction_segment(other) == other,
{
    reveal_strlit("<:");
    reveal_strlit("<a:");
    reveal_strlit(">");
    assert("<:"@ =~= seq!['<', ':']);
    assert("<a:"@ =~= seq!['<', 'a', ':']);
    assert(">"@ =~= seq!['>']);
    let still = "<:"@ + inner + ">"@;
    let moving = "<a:"@ + inner + ">"@;
    assert(still.subrange(0, 2) =~= "<:"@);
    assert(still.skip(2).drop_last() =~= inner);
    assert(moving.subrange(0, 3) =~= "<a:"@);
    assert(moving.skip(3).drop_last() =~= inner);
    if "<:"@.is_prefix_of(moving) {
        assert(moving.subrange(0, 2)[1] == moving[1]);
    }
    if other.len() > 2 && "<:"@.is_prefix_of(other) {
        assert(other.skip(2).last() == other.last());
    }
    if other.len() > 3 && "<a:"@.is_prefix_of(other) {
        assert(other.skip(3).last() == other.last());
    }
}

/// A reaction is put on and deleted at one and the same address, with the token; there is a word for
/// each way in which there can be no address.
pub proof fn law_a_reaction_is_taken_off_where_it_was_put_on(
    token: Seq<char>,
    address: Result<Seq<char>, UrlFault>,
)
    ensures
        ({
            let on = reaction_to(token, address, true);
            let off = reaction_to(token, address, false);
            &&& on is Ok <==> address is Ok
            &&& off is Ok <==> address is Ok
            &&& address is Ok ==> {
                &&& on->Ok_0.method == Method::Put
                &&& off->Ok_0.method == Method::Delete
                &&& on->Ok_0.url == address->Ok_0 && off->Ok_0.url == address->Ok_0
                &&& on->Ok_0.headers.len() == 1 && on->Ok_0.headers[0].value == token
                &&& off->Ok_0.headers == on->Ok_0.headers
                &&& on->Ok_0.body is None && off->Ok_0.body is None
            }
            &&& address == Err::<Seq<char>, UrlFault>(UrlFault::Unparsable) ==> on->Err_0
                == "building reaction URL"@ && off == on
            &&& address == Err::<Seq<char>, UrlFault>(UrlFault::NoPath) ==> on->Err_0
                == "reaction URL cannot be a base"@ && off == on
        }),
{
}

/// The reactions of a message are found under its channel and its id.
pub proof fn law_reactions_are_found_under_their_message(
    channel_id: Seq<char>,
    msg_id: Seq<char>,
    first: Seq<char>,
    second: Seq<char>,
)
    ensures
        reactions_base(channel_id, msg_id) == "https://discord.com/api/v10"@ + ("/channels/"@
            + channel_id + "/messages/"@ + msg_id + "/reactions"@),
        ({
            let base = reactions_base(channel_id, msg_id);
            &&& address_with(base, first) is Ok ==> address_with_both(base, first, second)
                == address_with(address_with(base, first)->Ok_0, second)
            &&& address_with(base, first) is Err ==> address_with_both(base, first, second) is Err
        }),
{
}

/// Whoever is asked about keeps their id and when they signed up, whatever is found out about them.
pub proof fn law_a_profile_is_of_whom_was_asked_about(
    user_id: Seq<char>,
    name: Seq<char>,
    created_ts: Option<i64>,
    known: Option<KnownMember>,
    reply: Option<JsonV>,
)
    ensures
        ({
            let p = profile_of(user_id, name, created_ts, known, reply);
            &&& p.id == user_id
            &&& p.created_ts == created_ts
            &&& p.is_moderator == (match known {
                Some(k) => Some(k.moderates),
                None => None,
            })
            &&& p.roles == (match known {
                Some(k) => texts(k.role_names@),
                None => Seq::empty(),
            })
            &&& p.status == (match known {
                Some(k) => k.member@.at("presence"@).at("status"@).text(),
                None => None,
            })
            &&& reply is None ==> p.name == name && p.handle is None && p.avatar_url is None
        }),
{
    match known {
        Some(k) => {
            if texts(k.role_names@).len() == 0 {
                assert(texts(k.role_names@) =~= Seq::empty());
            }
        },
        None => {},
    }
}

/// What the service answers gives somebody the name they chose, with the one they signed up with beside
/// it, and that alone where they chose none; and the picture that they set.
pub proof fn law_the_service_names_whom_was_asked_about(
    before: ProfileV,
    body: JsonV,
    asked_name: Seq<char>,
)
    ensures
        ({
            let p = profile_with_reply(before, body, asked_name);
            let user = body.at("user"@);
            let chosen = user.at("global_name"@).text_or_empty();
            let signed = user.at("username"@);
            &&& chosen.len() > 0 ==> p.name == chosen
            &&& chosen.len() > 0 && signed is Str ==> p.handle == signed.text()
            &&& chosen.len() > 0 && !(signed is Str) ==> p.handle == Some(asked_name)
            &&& chosen.len() == 0 && signed is Str ==> signed == JsonV::Str(p.name)
            &&& chosen.len() == 0 && !(signed is Str) ==> p.name == before.name
            &&& chosen.len() == 0 ==> p.handle == before.handle
            &&& user.at("avatar"@) is Str && user.at("id"@) is Str ==> p.avatar_url == Some(
                "https://cdn.discordapp.com/avatars/"@ + user.at("id"@)->Str_0 + "/"@ + user.at(
                    "avatar"@,
                )->Str_0 + ".png?size=128"@,
            )
            &&& !(user.at("avatar"@) is Str && user.at("id"@) is Str) ==> p.avatar_url
                == before.avatar_url
            &&& before.joined_ts is Some ==> p.joined_ts == before.joined_ts
            &&& before.joined_ts is None && body.at("guild_member"@).at("joined_at"@) is Str
                ==> p.joined_ts == moment_of(body.at("guild_member"@).at("joined_at"@)->Str_0)
            &&& p.roles == before.roles && p.status == before.status && p.is_moderator
                == before.is_moderator
        }),
{
}

/// What somebody wrote about themselves is noted without the white space around it, and not where it is
/// blank; a subscription is noted by the day it began. What was noted before stays in front.
pub proof fn law_notes_are_added_behind(before: ProfileV, body: JsonV, asked_name: Seq<char>)
    ensures
        ({
            let notes = profile_with_reply(before, body, asked_name).notes;
            let bio = body.at("user"@).at("bio"@);
            let since = body.at("premium_since"@);
            let about = bio is Str && !is_blank(bio->Str_0);
            let n = before.notes.len() as int;
            &&& notes.take(n) == before.notes
            &&& notes.len() == n + (if about {
                1int
            } else {
                0
            }) + (if since is Str {
                1int
            } else {
                0
            })
            &&& about ==> notes[n].label == "About"@ && notes[n].text == trimmed(bio->Str_0)
            &&& since is Str ==> notes.last().label == "Nitro since"@ && notes.last().text
                == split_on(since->Str_0, 'T')[0]
        }),
{
    let notes = profile_with_reply(before, body, asked_name).notes;
    assert(notes.take(before.notes.len() as int) =~= before.notes);
}

/// A nickname in a server is noted where it is not empty, and the moment that the member list gives for
/// joining is the one that counts.
pub proof fn law_a_nickname_is_noted(
    before: ProfileV,
    member: JsonV,
    role_names: Seq<Seq<char>>,
    moderates: bool,
)
    ensures
        ({
            let p = profile_with_member(before, member, role_names, moderates);
            let nick = member.at("nick"@).text_or_empty();
            let joined_at = member.at("joined_at"@);
            &&& nick.len() > 0 ==> p.notes.len() == before.notes.len() + 1 && p.notes.last().label
                == "Nickname here"@ && p.notes.last().text == nick
            &&& nick.len() == 0 ==> p.notes == before.notes
            &&& joined_at is Str && moment_of(joined_at->Str_0) is Some ==> p.joined_ts == moment_of(
                joined_at->Str_0,
            )
            &&& p.id == before.id && p.name == before.name && p.handle == before.handle
        }),
{
}

/// Pinned messages are listed one by one, each as its row and in the order of the reply; the ids told of
/// are those of the rows.
pub proof fn law_pins_are_listed_one_by_one(
    messages: Seq<JsonV>,
    last: JsonV,
    buffer_id: Seq<char>,
    user_id: Seq<char>,
    own_display_name: Option<Seq<char>>,
)
    ensures
        ({
            let read = pin_reader(buffer_id, user_id, own_display_name);
            let row = pinned_row(last, buffer_id, user_id, own_display_name);
            &&& row is Some ==> collect(messages.push(last), read) == collect(messages, read).push(
                row->0,
            )
            &&& row is None ==> collect(messages.push(last), read) == collect(messages, read)
        }),
        last.at("id"@) is Str ==> collect(messages.push(last), id_reader()) == collect(
            messages,
            id_reader(),
        ).push(last.at("id"@)),
        !(last.at("id"@) is Str) ==> collect(messages.push(last), id_reader()) == collect(
            messages,
            id_reader(),
        ),
{
    assert(messages.push(last).drop_last() =~= messages);
}

} // verus!
