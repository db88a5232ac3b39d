//! Voice channels and calls, as far as the gateway is concerned: joining, leaving, ringing and
//! being rung.
use vstd::prelude::*;
use crate::json::{Json, JsonV, jopt, jstr, law_put_then_read, nothing};
use crate::text::{decimal, decimal_text, lend, maybe, maybe_str, same_opt, views};
use super::http::{Method, Request, RequestV, asking, need_token, not_connected, request_view, result_view};

verus! {

/// How a voice channel is joined.
#[derive(Clone, Copy, Debug, PartialEq, Eq, Structural)]
pub struct VoiceOptions {
    /// Only while nobody else is in it.
    pub solo: bool,
    /// With a microphone that can be heard.
    pub transmit: bool,
}

/// Where this account is to be in voice, and how.
pub open spec fn voice_state(
    guild_id: Option<Seq<char>>,
    channel_id: Seq<char>,
    muted: bool,
    deafened: bool,
) -> JsonV {
    nothing().put("op"@, JsonV::Int(4)).put(
        "d"@,
        nothing().put("guild_id"@, jopt(guild_id)).put("channel_id"@, jstr(channel_id)).put(
            "self_mute"@,
            JsonV::Bool(muted),
        ).put("self_deaf"@, JsonV::Bool(deafened)).put("self_video"@, JsonV::Bool(false)),
    )
}

fn state_update(guild_id: Option<&str>, channel_id: &str, muted: bool, deafened: bool) -> (r: Json)
    ensures
        r@ == voice_state(maybe_str(guild_id), channel_id@, muted, deafened),
{
    Json::object().put("op", Json::Int(4)).put(
        "d",
        Json::object().put("guild_id", Json::opt(guild_id)).put(
            "channel_id",
            Json::string(channel_id),
        ).put("self_mute", Json::Bool(muted)).put("self_deaf", Json::Bool(deafened)).put(
            "self_video",
            Json::Bool(false),
        ),
    )
}

/// What joining a voice channel comes to. Alone means alone: an occupied channel is refused.
pub open spec fn joining(
    account_known: bool,
    connected: bool,
    occupants: nat,
    guild_id: Option<Seq<char>>,
    channel_id: Seq<char>,
    options: VoiceOptions,
) -> Result<JsonV, Seq<char>> {
    if !account_known {
        Err("no such Discord account"@)
    } else if !connected {
        Err("account is not connected"@)
    } else if options.solo && occupants > 0 {
        Err("channel is not empty - "@ + decimal_text(occupants) + " already in it"@)
    } else {
        Ok(voice_state(guild_id, channel_id, !options.transmit, !options.transmit))
    }
}

/// Joins a voice channel. A session that carries no audio joins muted and deafened.
pub fn join_voice(
    account_known: bool,
    connected: bool,
    occupants: usize,
    guild_id: Option<&str>,
    channel_id: &str,
    options: VoiceOptions,
) -> (r: Result<Json, String>)
    ensures
        result_view(r) == joining(
            account_known,
            connected,
            occupants as nat,
            maybe_str(guild_id),
            channel_id@,
            options,
        ),
{
    if !account_known {
        return Err("no such Discord account".to_owned());
    }
    if !connected {
        return Err("account is not connected".to_owned());
    }
    if options.solo && occupants > 0 {
        let number = decimal(occupants as u64);
        return Err(
            "channel is not empty - ".to_owned().concat(number.as_str()).concat(" already in it"),
        );
    }
    Ok(state_update(guild_id, channel_id, !options.transmit, !options.transmit))
}

/// How a call is joined: never alone, and with a microphone.
pub open spec fn call_options() -> VoiceOptions {
    VoiceOptions { solo: false, transmit: true }
}

/// Joins a call that is ringing already.
pub fn accept_call(account_known: bool, connected: bool, channel_id: &str) -> (r: Result<
    Json,
    String,
>)
    ensures
        result_view(r) == joining(
            account_known,
            connected,
            0,
            None,
            channel_id@,
            call_options(),
        ),
        r is Ok <==> account_known && connected,
        r matches Ok(j) ==> {
            let d = j@.at("d"@);
            &&& d.at("channel_id"@) == JsonV::Str(channel_id@)
            &&& d.at("self_mute"@) == JsonV::Bool(false)
            &&& d.at("self_deaf"@) == JsonV::Bool(false)
        },
{
    proof {
        law_calls_come_in_heard(account_known, connected, 0, channel_id@);
    }
    join_voice(
        account_known,
        connected,
        0,
        None,
        channel_id,
        VoiceOptions { solo: false, transmit: true },
    )
}

/// Joins the channel of a direct conversation, before whoever else is in it is rung.
pub fn start_call(account_known: bool, connected: bool, channel_id: &str) -> (r: Result<
    Json,
    String,
>)
    ensures
        result_view(r) == joining(
            account_known,
            connected,
            0,
            None,
            channel_id@,
            call_options(),
        ),
        r is Ok <==> account_known && connected,
        r matches Ok(j) ==> {
            let d = j@.at("d"@);
            &&& d.at("channel_id"@) == JsonV::Str(channel_id@)
            &&& d.at("self_mute"@) == JsonV::Bool(false)
            &&& d.at("self_deaf"@) == JsonV::Bool(false)
        },
{
    accept_call(account_known, connected, channel_id)
}

/// Calls somebody: joins the channel of the conversation with them.
pub fn call_user(account_known: bool, connected: bool, channel_id: Option<&str>) -> (r: Result<
    Json,
    String,
>)
    ensures
        result_view(r) == (match channel_id {
            Some(c) => joining(account_known, connected, 0, None, c@, call_options()),
            None => Err("the DM has no channel"@),
        }),
        r is Ok <==> channel_id is Some && account_known && connected,
        r matches Ok(j) ==> {
            let d = j@.at("d"@);
            &&& d.at("channel_id"@) == JsonV::Str(channel_id->0@)
            &&& d.at("self_mute"@) == JsonV::Bool(false)
            &&& d.at("self_deaf"@) == JsonV::Bool(false)
        },
{
    match channel_id {
        Some(c) => start_call(account_known, connected, c),
        None => Err("the DM has no channel".to_owned()),
    }
}

/// What is told of a conversation that has started or stopped ringing.
pub open spec fn call_notice(
    account_id: Seq<char>,
    buffer_id: Seq<char>,
    channel_id: Seq<char>,
    ringing: bool,
) -> JsonV {
    nothing().put("accountId"@, jstr(account_id)).put("bufferId"@, jstr(buffer_id)).put(
        "channelId"@,
        jstr(channel_id),
    ).put("ringing"@, JsonV::Bool(ringing))
}

/// What to tell of a call: nothing for a channel without a conversation, and nothing where the
/// ringing did not change.
pub fn announce_call(
    account_id: &str,
    buffer_id: Option<&str>,
    changed: bool,
    channel_id: &str,
    ringing: bool,
) -> (r: Option<Json>)
    ensures
        match (buffer_id, r) {
            (Some(b), Some(j)) => changed && j@ == call_notice(
                account_id@,
                b@,
                channel_id@,
                ringing,
            ),
            (Some(_), None) => !changed,
            (None, x) => x is None,
        },
{
    match buffer_id {
        Some(buffer_id) => if changed {
            Some(
                Json::object().put("accountId", Json::string(account_id)).put(
                    "bufferId",
                    Json::string(buffer_id),
                ).put("channelId", Json::string(channel_id)).put("ringing", Json::Bool(ringing)),
            )
        } else {
            None
        },
        None => None,
    }
}

/// The request that makes a call ring or stop ringing, for whom.
pub open spec fn ring_request(
    token: Option<Seq<char>>,
    channel_id: Seq<char>,
    what: Seq<char>,
    recipients: JsonV,
) -> Result<RequestV, Seq<char>> {
    match token {
        Some(t) => Ok(
            asking(Method::Post, "/channels/"@ + channel_id + "/call/"@ + what, t).with_body(
                nothing().put("recipients"@, recipients),
            ),
        ),
        None => Err(not_connected()),
    }
}

fn call_request(token: Option<&str>, channel_id: &str, what: &str, recipients: Json) -> (r: Result<
    Request,
    String,
>)
    ensures
        request_view(r) == ring_request(maybe_str(token), channel_id@, what@, recipients@),
{
    match need_token(token) {
        Ok(token) => {
            let mut path = "/channels/".to_owned();
            path.append(channel_id);
            path.append("/call/");
            path.append(what);
            Ok(
                Request::new(Method::Post, path.as_str(), token).with_body(
                    Json::object().put("recipients", recipients),
                ),
            )
        },
        Err(e) => Err(e),
    }
}

/// Turns a call down for this account alone.
pub fn decline_call(token: Option<&str>, user_id: &str, channel_id: &str) -> (r: Result<
    Request,
    String,
>)
    ensures
        request_view(r) == ring_request(
            maybe_str(token),
            channel_id@,
            "stop-ringing"@,
            JsonV::List(seq![jstr(user_id@)]),
        ),
{
    let mut who: Vec<Json> = Vec::new();
    who.push(Json::string(user_id));
    assert(views(who@) =~= seq![jstr(user_id@)]);
    call_request(token, channel_id, "stop-ringing", Json::list(who))
}

/// Makes the other end ring: everybody in the conversation.
pub fn ring(token: Option<&str>, channel_id: &str) -> (r: Result<Request, String>)
    ensures
        request_view(r) == ring_request(maybe_str(token), channel_id@, "ring"@, JsonV::Null),
{
    call_request(token, channel_id, "ring", Json::Null)
}

/// Stops a call ringing, for hanging up before it is answered.
pub fn stop_ringing(token: Option<&str>, channel_id: &str) -> (r: Result<Request, String>)
    ensures
        request_view(r) == ring_request(
            maybe_str(token),
            channel_id@,
            "stop-ringing"@,
            JsonV::Null,
        ),
{
    call_request(token, channel_id, "stop-ringing", Json::Null)
}

/// The voice channel that this account is in: its server, where it has one, and its id.
#[derive(Debug, PartialEq, Eq)]
pub struct InChannel {
    pub guild_id: Option<String>,
    pub channel_id: String,
}

pub struct InChannelV {
    pub guild_id: Option<Seq<char>>,
    pub channel_id: Seq<char>,
}

impl View for InChannel {
    type V = InChannelV;

    open spec fn view(&self) -> InChannelV {
        InChannelV { guild_id: maybe(self.guild_id), channel_id: self.channel_id@ }
    }
}

/// Tells the service that the microphone or the output has been silenced, where this account is in
/// voice.
pub fn announce_voice_flags(current: Option<&InChannel>, muted: bool, deafened: bool) -> (r: Option<
    Json,
>)
    ensures
        match (current, r) {
            (Some(c), Some(j)) => j@ == voice_state(
                c@.guild_id,
                c@.channel_id,
                muted,
                deafened,
            ),
            (Some(_), None) => false,
            (None, x) => x is None,
        },
{
    match current {
        Some(c) => Some(
            state_update(lend(&c.guild_id), c.channel_id.as_str(), muted, deafened),
        ),
        None => None,
    }
}

/// Being in no voice channel.
pub open spec fn voice_left() -> JsonV {
    nothing().put("op"@, JsonV::Int(4)).put(
        "d"@,
        nothing().put("guild_id"@, JsonV::Null).put("channel_id"@, JsonV::Null).put(
            "self_mute"@,
            JsonV::Bool(true),
        ).put("self_deaf"@, JsonV::Bool(true)),
    )
}

/// Leaves whatever voice channel this account is in: what to send, and the direct call whose
/// ringing is to be stopped, where it was one.
pub fn leave_voice(current: Option<&InChannel>) -> (r: (Json, Option<String>))
    ensures
        r.0@ == voice_left(),
        maybe(r.1) == (match current {
            Some(c) => if c@.guild_id is None {
                Some(c@.channel_id)
            } else {
                None
            },
            None => None,
        }),
{
    let payload = Json::object().put("op", Json::Int(4)).put(
        "d",
        Json::object().put("guild_id", Json::Null).put("channel_id", Json::Null).put(
            "self_mute",
            Json::Bool(true),
        ).put("self_deaf", Json::Bool(true)),
    );
    let quiet = match current {
        Some(c) => if c.guild_id.is_none() {
            Some(c.channel_id.clone())
        } else {
            None
        },
        None => None,
    };
    (payload, quiet)
}

/// What is told of a voice channel whose members changed: its server, which a leave does not name
/// and which is then that of the channel.
pub open spec fn membership_notice(
    account_id: Seq<char>,
    guild_id: Option<Seq<char>>,
    guild_of_channel: Option<Seq<char>>,
) -> Option<JsonV> {
    match super::people::or_else(guild_id, guild_of_channel) {
        Some(g) => Some(nothing().put("accountId"@, jstr(account_id)).put("guildId"@, jstr(g))),
        None => None,
    }
}

pub fn announce_voice_membership(
    account_id: &str,
    guild_id: Option<&str>,
    guild_of_channel: Option<&str>,
) -> (r: Option<Json>)
    ensures
        match r {
            Some(j) => membership_notice(
                account_id@,
                maybe_str(guild_id),
                maybe_str(guild_of_channel),
            ) == Some(j@),
            None => membership_notice(
                account_id@,
                maybe_str(guild_id),
                maybe_str(guild_of_channel),
            ) is None,
        },
{
    match super::people::first_of(guild_id, guild_of_channel) {
        Some(g) => Some(
            Json::object().put("accountId", Json::string(account_id)).put(
                "guildId",
                Json::string(g),
            ),
        ),
        None => None,
    }
}

/// Whether this account has to leave voice because somebody else came to where it is alone.
pub fn must_leave(ours: Option<&str>, theirs: Option<&str>, solo: bool) -> (r: bool)
    ensures
        r == (solo && ours is Some && maybe_str(ours) == maybe_str(theirs)),
{
    solo && ours.is_some() && same_opt(ours, theirs)
}

/// A channel is joined by an account that is known and connected, unless it is to be alone there and
/// somebody is in it; and what is sent names that channel and its server, without a camera, silenced
/// both ways exactly where nothing is transmitted.
pub proof fn law_joining_says_where_and_how(
    account_known: bool,
    connected: bool,
    occupants: nat,
    guild_id: Option<Seq<char>>,
    channel_id: Seq<char>,
    options: VoiceOptions,
)
    ensures
        ({
            let r = joining(account_known, connected, occupants, guild_id, channel_id, options);
            &&& r is Ok <==> account_known && connected && !(options.solo && occupants > 0)
            &&& r is Ok ==> {
                let d = r->Ok_0.at("d"@);
                &&& r->Ok_0.at("op"@) == JsonV::Int(4)
                &&& d.at("channel_id"@) == JsonV::Str(channel_id)
                &&& d.at("guild_id"@) == (match guild_id {
                    Some(g) => JsonV::Str(g),
                    None => JsonV::Null,
                })
                &&& options.transmit ==> d.at("self_mute"@) == JsonV::Bool(false) && d.at(
                    "self_deaf"@,
                ) == JsonV::Bool(false)
                &&& !options.transmit ==> d.at("self_mute"@) == JsonV::Bool(true) && d.at(
                    "self_deaf"@,
                ) == JsonV::Bool(true)
                &&& d.at("self_video"@) == JsonV::Bool(false)
            }
        }),
{
    lemma_voice_state_read(guild_id, channel_id, !options.transmit, !options.transmit);
}

proof fn lemma_voice_state_read(
    guild_id: Option<Seq<char>>,
    channel_id: Seq<char>,
    muted: bool,
    deafened: bool,
)
    ensures
        ({
            let v = voice_state(guild_id, channel_id, muted, deafened);
            let d = v.at("d"@);
            &&& v.at("op"@) == JsonV::Int(4)
            &&& d.at("channel_id"@) == JsonV::Str(channel_id)
            &&& d.at("guild_id"@) == (match guild_id {
                Some(g) => JsonV::Str(g),
                None => JsonV::Null,
            })
            &&& d.at("self_mute"@) == JsonV::Bool(muted)
            &&& d.at("self_deaf"@) == JsonV::Bool(deafened)
            &&& d.at("self_video"@) == JsonV::Bool(false)
        }),
{
    broadcast use law_put_then_read;

    reveal_strlit("op");
    reveal_strlit("d");
    reveal_strlit("guild_id");
    reveal_strlit("channel_id");
    reveal_strlit("self_mute");
    reveal_strlit("self_deaf");
    reveal_strlit("self_video");
    assert("op"@.len() == 2);
    assert("d"@.len() == 1);
    assert("guild_id"@.len() == 8);
    assert("channel_id"@.len() == 10);
    assert("self_mute"@.len() == 9);
    assert("self_deaf"@.len() == 9);
    assert("self_video"@.len() == 10);
    assert("channel_id"@[0] == 'c');
    assert("self_video"@[0] == 's');
    assert("self_deaf"@[5] == 'd');
    assert("self_mute"@[5] == 'm');
}

/// Alone means alone: a channel that somebody is in is not joined.
pub proof fn law_solo_refuses_company(
    occupants: nat,
    guild_id: Option<Seq<char>>,
    channel_id: Seq<char>,
    transmit: bool,
)
    requires
        occupants > 0,
    ensures
        joining(
            true,
            true,
            occupants,
            guild_id,
            channel_id,
            (VoiceOptions { solo: true, transmit }),
        ) is Err,
{
}

/// A call is answered by whoever is known and connected, whoever is in it, in the channel that it is
/// in, and comes in with a microphone that can be heard and an output that can be heard.
pub proof fn law_calls_come_in_heard(
    account_known: bool,
    connected: bool,
    occupants: nat,
    channel_id: Seq<char>,
)
    ensures
        ({
            let r = joining(account_known, connected, occupants, None, channel_id, call_options());
            &&& r is Ok <==> account_known && connected
            &&& r is Ok ==> {
                let d = r->Ok_0.at("d"@);
                &&& d.at("channel_id"@) == JsonV::Str(channel_id)
                &&& d.at("guild_id"@) == JsonV::Null
                &&& d.at("self_mute"@) == JsonV::Bool(false)
                &&& d.at("self_deaf"@) == JsonV::Bool(false)
            }
        }),
{
    law_joining_says_where_and_how(
        account_known,
        connected,
        occupants,
        None,
        channel_id,
        call_options(),
    );
}

/// The two flags of a voice state are told apart: the first silences the microphone, the second the
/// output, in the channel that is named.
pub proof fn law_voice_flags_are_told_apart(
    guild_id: Option<Seq<char>>,
    channel_id: Seq<char>,
    muted: bool,
    deafened: bool,
)
    ensures
        ({
            let d = voice_state(guild_id, channel_id, muted, deafened).at("d"@);
            &&& d.at("self_mute"@) == JsonV::Bool(muted)
            &&& d.at("self_deaf"@) == JsonV::Bool(deafened)
            &&& d.at("channel_id"@) == JsonV::Str(channel_id)
            &&& d.at("guild_id"@).text() == guild_id
            &&& voice_state(guild_id, channel_id, muted, deafened).at("op"@) == JsonV::Int(4)
        }),
{
    lemma_voice_state_read(guild_id, channel_id, muted, deafened);
}

/// Leaving says the same thing as joining does, of no channel at all.
pub proof fn law_leaving_names_no_channel()
    ensures
        voice_left().at("op"@) == JsonV::Int(4),
        voice_left().at("d"@).get("channel_id"@) == Some(JsonV::Null),
        voice_left().at("d"@).get("guild_id"@) == Some(JsonV::Null),
        voice_left().at("d"@).at("self_mute"@) == JsonV::Bool(true),
        voice_left().at("d"@).at("self_deaf"@) == JsonV::Bool(true),
{
    broadcast use law_put_then_read;

    reveal_strlit("op");
    reveal_strlit("d");
    reveal_strlit("guild_id");
    reveal_strlit("channel_id");
    reveal_strlit("self_mute");
    reveal_strlit("self_deaf");
    assert("op"@.len() == 2);
    assert("d"@.len() == 1);
    assert("guild_id"@.len() == 8);
    assert("channel_id"@.len() == 10);
    assert("self_mute"@.len() == 9);
    assert("self_deaf"@.len() == 9);
    assert("self_deaf"@[5] == 'd');
    assert("self_mute"@[5] == 'm');
}

/// What is told of a call names the account, the conversation and the channel, and says whether it
/// rings.
pub proof fn law_a_call_is_told_of_its_channel(
    account_id: Seq<char>,
    buffer_id: Seq<char>,
    channel_id: Seq<char>,
    ringing: bool,
)
    ensures
        ({
            let j = call_notice(account_id, buffer_id, channel_id, ringing);
            &&& j.at("accountId"@) == JsonV::Str(account_id)
            &&& j.at("bufferId"@) == JsonV::Str(buffer_id)
            &&& j.at("channelId"@) == JsonV::Str(channel_id)
            &&& j.at("ringing"@) == JsonV::Bool(ringing)
        }),
{
    broadcast use law_put_then_read;

    reveal_strlit("accountId");
    reveal_strlit("bufferId");
    reveal_strlit("channelId");
    reveal_strlit("ringing");
    assert("accountId"@.len() == 9);
    assert("bufferId"@.len() == 8);
    assert("channelId"@.len() == 9);
    assert("ringing"@.len() == 7);
    assert("accountId"@[0] == 'a');
    assert("channelId"@[0] == 'c');
}

/// A call is made to ring, and to stop, by a post to the channel's own address, on behalf of the
/// account whose token there is, for those named and for nobody where there is no token.
pub proof fn law_ringing_is_for_those_named(
    token: Option<Seq<char>>,
    channel_id: Seq<char>,
    what: Seq<char>,
    recipients: JsonV,
)
    ensures
        ({
            let r = ring_request(token, channel_id, what, recipients);
            &&& r is Ok <==> token is Some
            &&& r is Ok ==> {
                let q = r->Ok_0;
                &&& q.method == Method::Post
                &&& q.url == "https://discord.com/api/v10"@ + ("/channels/"@ + channel_id
                    + "/call/"@ + what)
                &&& q.headers.len() == 1
                &&& q.headers[0].value == token->0
                &&& q.query.len() == 0
                &&& q.body is Some
                &&& q.body->0.get("recipients"@) == Some(recipients)
            }
        }),
{
    broadcast use law_put_then_read;

}

/// What is told of a voice channel names the server that the event named, and that of the channel
/// only where the event named none.
pub proof fn law_the_named_server_comes_first(
    account_id: Seq<char>,
    guild_id: Option<Seq<char>>,
    guild_of_channel: Option<Seq<char>>,
)
    ensures
        ({
            let r = membership_notice(account_id, guild_id, guild_of_channel);
            &&& r is None <==> guild_id is None && guild_of_channel is None
            &&& r is Some ==> r->0.at("accountId"@) == JsonV::Str(account_id)
            &&& guild_id is Some ==> r->0.at("guildId"@) == JsonV::Str(guild_id->0)
            &&& guild_id is None && guild_of_channel is Some ==> r->0.at("guildId"@) == JsonV::Str(
                guild_of_channel->0,
            )
        }),
{
    broadcast use law_put_then_read;

    reveal_strlit("accountId");
    reveal_strlit("guildId");
    assert("accountId"@.len() == 9);
    assert("guildId"@.len() == 7);
}

/// Joining is refused in words that say why: an account that there is none of, one that is not connected,
/// or, to whoever wants to be alone, how many are there already.
pub proof fn law_a_refusal_to_join_says_why(
    account_known: bool,
    connected: bool,
    occupants: nat,
    guild_id: Option<Seq<char>>,
    channel_id: Seq<char>,
    options: VoiceOptions,
)
    ensures
        ({
            let r = joining(account_known, connected, occupants, guild_id, channel_id, options);
            &&& r is Ok <==> account_known && connected && (options.solo ==> occupants == 0)
            &&& !account_known ==> r == Err::<JsonV, Seq<char>>("no such Discord account"@)
            &&& account_known && !connected ==> r == Err::<JsonV, Seq<char>>(
                "account is not connected"@,
            )
            &&& account_known && connected && options.solo && occupants > 0 ==> r == Err::<
                JsonV,
                Seq<char>,
            >("channel is not empty - "@ + decimal_text(occupants) + " already in it"@)
        }),
{
}

} // verus!
