//! The connection that everything else hangs off: what it keeps across reconnects, how it is
//! opened and kept alive, and what each message on it leads to.
use vstd::prelude::*;
use crate::json::{Json, JsonV, elements, jstr, law_put_then_read, law_set_then_read, nothing, parsed_json, text_or, text_or_v};
use crate::text::{decimal, decimal_text, lend, maybe, maybe_str, own, texts, views};
use crate::text_map::{TextMap, lemma_map_views_insert, map_views};
use super::actions::{Action, ActionV, Dispatch, also, dispatch_named, none, one, read_dispatch};
use super::channels::{Held, HeldV, Known, KnownV, drop_gone, gone, known_without_gone, place_texts, placed, unplaced};
use super::conversations::{DmPlan, DmPlanV, dm_known, dm_to_open, register_dm_channel};
use super::dispatches::{Me, MeV, and_maybe, friend_reader, list_friends, message_created, message_updated, messages_deleted, on_message_create, on_message_update, on_messages_deleted, on_plain, on_reaction, on_reactions_cleared, on_read, on_typing, own_picture, plain_actions, reacted, reactions_cleared, read_elsewhere, typing_started, write_own_picture};
use super::guilds::{GuildPlan, copy_list, guild_place, is_registrable, maybe_json, register_guild_channels};
use super::http::{Method, Request, asking};
use super::members::{presence_of, presence_payload, read_presences, statuses, text_values};
use super::people::{filled, first_of, only_filled, or_else};

verus! {

pub const GATEWAY_URL: &'static str = "wss://gateway.discord.gg/?v=10&encoding=json";

/// The code with which the gateway closes on a token that is dead.
pub const CLOSE_CODE_AUTH_FAILED: u16 = 4004;

/// How long the first wait before a reconnect is, in seconds.
pub const RECONNECT_INITIAL_DELAY: u64 = 3;

/// How long a wait before a reconnect is at most, in seconds.
pub const RECONNECT_MAX_DELAY: u64 = 60;

/// A frame from the gateway.
#[derive(Debug, PartialEq, Eq)]
pub enum Frame {
    Text(String),
    /// The connection was closed: with which code, and how that is described.
    Close(Option<u16>, String),
    /// One that carries nothing to read.
    Other,
    /// The connection broke.
    Failed(String),
    /// The connection is over.
    End,
}

/// What a frame comes to.
#[derive(Debug, PartialEq, Eq)]
pub enum Heard {
    Message(Json),
    Nothing,
    /// The token is dead.
    AuthFailed,
    /// The words for why the connection is over.
    Lost(String),
}

pub enum HeardV {
    Message(JsonV),
    Nothing,
    AuthFailed,
    Lost(Seq<char>),
}

impl View for Heard {
    type V = HeardV;

    open spec fn view(&self) -> HeardV {
        match self {
            Heard::Message(j) => HeardV::Message(j@),
            Heard::Nothing => HeardV::Nothing,
            Heard::AuthFailed => HeardV::AuthFailed,
            Heard::Lost(t) => HeardV::Lost(t@),
        }
    }
}

/// What a frame comes to, given what its text is as JSON.
pub open spec fn heard(frame: Frame, json: Option<JsonV>) -> HeardV {
    match frame {
        Frame::Text(_) => match json {
            Some(j) => HeardV::Message(j),
            None => HeardV::Lost("parsing gateway JSON"@),
        },
        Frame::Close(code, described) => if code == Some(CLOSE_CODE_AUTH_FAILED) {
            HeardV::AuthFailed
        } else {
            HeardV::Lost("connection closed: "@ + described@)
        },
        Frame::Other => HeardV::Nothing,
        Frame::Failed(e) => HeardV::Lost("websocket error: "@ + e@),
        Frame::End => HeardV::Lost("connection ended unexpectedly"@),
    }
}

/// What is read of the text of a frame.
pub open spec fn json_of(frame: Frame) -> Option<JsonV> {
    match frame {
        Frame::Text(t) => parsed_json(t@),
        _ => None,
    }
}

/// What a frame comes to, given what its text is as JSON.
pub fn hear(frame: &Frame, json: Option<Json>) -> (r: Heard)
    ensures
        r@ == heard(
            *frame,
            match json {
                Some(j) => Some(j@),
                None => None,
            },
        ),
{
    match frame {
        Frame::Text(_) => match json {
            Some(j) => Heard::Message(j),
            None => Heard::Lost("parsing gateway JSON".to_owned()),
        },
        Frame::Close(code, described) => {
            let dead = match code {
                Some(c) => *c == CLOSE_CODE_AUTH_FAILED,
                None => false,
            };
            if dead {
                Heard::AuthFailed
            } else {
                Heard::Lost("connection closed: ".to_owned().concat(described.as_str()))
            }
        },
        Frame::Other => Heard::Nothing,
        Frame::Failed(e) => Heard::Lost("websocket error: ".to_owned().concat(e.as_str())),
        Frame::End => Heard::Lost("connection ended unexpectedly".to_owned()),
    }
}

/// Reads a frame.
pub fn next_json(frame: &Frame) -> (r: Heard)
    ensures
        r@ == heard(*frame, json_of(*frame)),
{
    match frame {
        Frame::Text(text) => hear(frame, crate::json::parse(text.as_str())),
        _ => hear(frame, None),
    }
}

/// What a session is picked up again with: its name, where to reconnect, and how far it got.
#[derive(Debug, PartialEq, Eq)]
pub struct Resume {
    pub session_id: String,
    pub url: String,
    pub seq: u64,
}

pub struct ResumeV {
    pub session_id: Seq<char>,
    pub url: Seq<char>,
    pub seq: int,
}

impl View for Resume {
    type V = ResumeV;

    open spec fn view(&self) -> ResumeV {
        ResumeV { session_id: self.session_id@, url: self.url@, seq: self.seq as int }
    }
}

/// What survives a dropped connection. A session that is picked up again is told neither of its
/// conversations nor of its servers a second time.
pub struct GatewaySession {
    resume: Option<Resume>,
    channel_map: TextMap<Known>,
    guild_context: TextMap<Json>,
}

pub struct SessionV {
    pub resume: Option<ResumeV>,
    pub channels: Map<Seq<char>, KnownV>,
    pub guilds: Map<Seq<char>, JsonV>,
}

/// What a session is picked up with.
pub open spec fn resume_view(r: Option<Resume>) -> Option<ResumeV> {
    match r {
        Some(x) => Some(x@),
        None => None,
    }
}

impl View for GatewaySession {
    type V = SessionV;

    closed spec fn view(&self) -> SessionV {
        SessionV {
            resume: resume_view(self.resume),
            channels: map_views(self.channel_map@),
            guilds: map_views(self.guild_context@),
        }
    }
}

/// A session that knows of nothing.
pub open spec fn blank_session() -> SessionV {
    SessionV { resume: None, channels: Map::empty(), guilds: Map::empty() }
}

/// What a message leads to: what is kept afterwards, and what is to be done.
pub struct StepV {
    pub session: SessionV,
    pub actions: Seq<ActionV>,
}

/// Something to be done, and nothing else kept.
pub open spec fn only(session: SessionV, actions: Seq<ActionV>) -> StepV {
    StepV { session, actions }
}

/// A value with one field replaced.
fn with_field(value: &Json, key: &str, new: Json) -> (r: Json)
    ensures
        r@ == value@.set(key@, new@),
{
    match value.fields() {
        Some(_) => value.copy().set(key, new),
        None => {
            assert(value@.entries() =~= nothing().entries());
            Json::object().set(key, new)
        },
    }
}

/// What a channel is called in its server.
pub open spec fn channel_title(guild: JsonV, name: Seq<char>) -> Seq<char> {
    text_or_v(guild.at("name"@), "guild"@) + "/#"@ + name
}

/// What a channel that a dispatch names is called now.
pub open spec fn title_now(guild: JsonV, d: JsonV) -> Option<Seq<char>> {
    match d.at("name"@).text() {
        Some(n) => Some(channel_title(guild, n)),
        None => None,
    }
}

fn write_title(guild: &Json, d: &Json) -> (r: Option<String>)
    ensures
        maybe(r) == title_now(guild@, d@),
{
    match d.at("name").text() {
        Some(n) => Some(
            text_or(guild.at("name"), "guild").to_owned().concat("/#").concat(n),
        ),
        None => None,
    }
}

/// The conversations to open for a list of channels, and what is registered afterwards.
pub open spec fn dms_opened(
    list: Seq<JsonV>,
    known_statuses: Map<Seq<char>, Seq<char>>,
    known: Map<Seq<char>, KnownV>,
) -> (Seq<DmPlanV>, Map<Seq<char>, KnownV>)
    decreases list.len(),
{
    if list.len() == 0 {
        (Seq::empty(), known)
    } else {
        let before = dms_opened(list.drop_last(), known_statuses, known);
        match dm_to_open(list.last(), known_statuses, before.1) {
            Some(p) => (before.0.push(p), dm_known(before.1, p)),
            None => before,
        }
    }
}

fn open_dms(list: &Vec<Json>, presences: &TextMap<String>, channel_map: &mut TextMap<Known>) -> (r: Vec<
    DmPlan,
>)
    ensures
        (views(r@), map_views(final(channel_map)@)) == dms_opened(
            views(list@),
            text_values(presences@),
            map_views(old(channel_map)@),
        ),
{
    let ghost all = views(list@);
    let ghost start = map_views(channel_map@);
    let mut out: Vec<DmPlan> = Vec::new();
    let mut i: usize = 0;
    assert(views(out@) =~= Seq::<DmPlanV>::empty());
    assert(all.take(0) =~= Seq::<JsonV>::empty());
    while i < list.len()
        invariant
            i <= list.len(),
            all == views(list@),
            (views(out@), map_views(channel_map@)) == dms_opened(
                all.take(i as int),
                text_values(presences@),
                start,
            ),
        decreases list.len() - i,
    {
        let ghost before = out@;
        proof {
            assert(all.take(i + 1).drop_last() =~= all.take(i as int));
            assert(all.take(i + 1).last() == list@[i as int]@);
        }
        match register_dm_channel(&list[i], channel_map, presences) {
            Some(plan) => {
                out.push(plan);
                assert(views(out@) =~= views(before).push(plan@));
            },
            None => {},
        }
        i += 1;
    }
    assert(all.take(i as int) =~= all);
    out
}

/// What this account is called.
pub open spec fn ready_name(d: JsonV) -> Seq<char> {
    match or_else(
        filled(d.at("user"@).at("global_name"@).text()),
        d.at("user"@).at("username"@).text(),
    ) {
        Some(n) => n,
        None => "me"@,
    }
}

/// What the session that just started can be picked up with.
pub open spec fn ready_resume(d: JsonV, seq: Option<int>) -> Option<ResumeV> {
    match d.at("session_id"@).text() {
        Some(session_id) => Some(
            ResumeV {
                session_id,
                url: match d.at("resume_gateway_url"@).text() {
                    Some(u) => u + "/?v=10&encoding=json"@,
                    None => GATEWAY_URL@,
                },
                seq: match seq {
                    Some(n) => n,
                    None => 0,
                },
            },
        ),
        None => None,
    }
}

/// What to do once the session has started, up to the conversations.
pub open spec fn ready_start(me: MeV, d: JsonV) -> Seq<ActionV> {
    let known_statuses = statuses(d.at("presences"@).items());
    let start = seq![
        ActionV::Identity { name: ready_name(d) },
        ActionV::Nitro {
            unrestricted: match d.at("user"@).at("premium_type"@).as_u64() {
                Some(n) => n > 0,
                None => false,
            },
        },
    ];
    let session = match d.at("session_id"@).text() {
        Some(session_id) => Some(ActionV::Session { session_id }),
        None => None,
    };
    let avatar = match d.at("user"@).at("avatar"@).text() {
        Some(hash) => Some(ActionV::Avatar { url: own_picture(me.user_id, hash, ".png"@) }),
        None => None,
    };
    let settings = if d.at("user_guild_settings"@) is Null {
        None
    } else {
        Some(ActionV::GuildSettings { settings: d.at("user_guild_settings"@) })
    };
    let friends = match d.at("relationships"@) {
        JsonV::List(list) => Some(
            ActionV::Friends {
                rows: crate::json::collect(list, friend_reader(known_statuses)),
            },
        ),
        _ => None,
    };
    and_maybe(and_maybe(and_maybe(and_maybe(start, session), avatar), settings), friends)
}

/// What the start of a session leads to.
pub open spec fn ready_step(s: SessionV, me: MeV, d: JsonV, seq: Option<int>) -> StepV {
    let known_statuses = statuses(d.at("presences"@).items());
    let opened = dms_opened(d.at("private_channels"@).items(), known_statuses, s.channels);
    let guilds = match d.at("guilds"@) {
        JsonV::List(list) => Some(ActionV::RegisterGuilds { guilds: list }),
        _ => None,
    };
    StepV {
        session: SessionV {
            resume: match ready_resume(d, seq) {
                Some(r) => Some(r),
                None => s.resume,
            },
            channels: opened.1,
            ..s
        },
        actions: and_maybe(
            ready_start(me, d).push(ActionV::OpenDms { plans: opened.0 }).push(
                ActionV::CatchUpDms,
            ).push(ActionV::Connected),
            guilds,
        ).push(ActionV::FetchDms { presences: d.at("presences"@) }).push(ActionV::ApplyMutes),
    }
}

/// What a server that arrived leads to: it is kept, so that a channel of it can be placed later.
pub open spec fn guild_step(s: SessionV, d: JsonV) -> StepV {
    let start = seq![ActionV::RegisterGuilds { guilds: seq![d] }, ActionV::ApplyMutes];
    match d.at("id"@).text() {
        Some(guild_id) => StepV {
            session: SessionV { guilds: s.guilds.insert(guild_id, d), ..s },
            actions: start.push(
                ActionV::GuildRoles { guild_id, roles: d.at("roles"@).items() },
            ),
        },
        None => only(s, start),
    }
}

/// Without the conversation of a channel: it is removed, by its name.
pub open spec fn without_channel(s: SessionV, channel_id: Seq<char>) -> StepV {
    if s.channels.contains_key(channel_id) {
        StepV {
            session: SessionV { channels: s.channels.remove(channel_id), ..s },
            actions: seq![ActionV::RemoveBuffer { name: s.channels[channel_id].name }],
        }
    } else {
        only(s, Seq::empty())
    }
}

/// What a channel or thread that is gone leads to.
pub open spec fn gone_step(s: SessionV, d: JsonV) -> StepV {
    match d.at("id"@).text() {
        Some(id) => without_channel(s, id),
        None => only(s, Seq::empty()),
    }
}

/// What threads lead to: their server is registered again with them on it. A thread that was
/// renamed loses its conversation first, since that is known by its name.
pub open spec fn threads_step(s: SessionV, kind: Dispatch, d: JsonV) -> StepV {
    match d.at("guild_id"@).text() {
        Some(guild_id) => if s.guilds.contains_key(guild_id) {
            let guild = s.guilds[guild_id];
            let threads = if kind == Dispatch::ThreadListSync {
                d.at("threads"@).items()
            } else {
                seq![d]
            };
            let cleared = match d.at("id"@).text() {
                Some(id) => if kind == Dispatch::ThreadUpdate && s.channels.contains_key(id)
                    && title_now(guild, d) != Some(s.channels[id].name) {
                    without_channel(s, id)
                } else {
                    only(s, Seq::empty())
                },
                None => only(s, Seq::empty()),
            };
            StepV {
                session: cleared.session,
                actions: cleared.actions.push(
                    ActionV::RegisterGuilds {
                        guilds: seq![guild.set("threads"@, JsonV::List(threads))],
                    },
                ),
            }
        } else {
            only(s, Seq::empty())
        },
        None => only(s, Seq::empty()),
    }
}

/// What a channel of a server leads to: the server is registered again with that channel alone. One
/// that kept its name needs nothing; one that was renamed loses its conversation first. An update
/// may have taken access away, so the whole server is read again.
pub open spec fn guild_channel_step(
    s: SessionV,
    kind: Dispatch,
    d: JsonV,
    channel_id: Seq<char>,
    guild_id: Seq<char>,
) -> StepV {
    if !s.guilds.contains_key(guild_id) {
        only(s, Seq::empty())
    } else {
        let guild = s.guilds[guild_id];
        if s.channels.contains_key(channel_id) && title_now(guild, d) == Some(
            s.channels[channel_id].name,
        ) {
            only(s, Seq::empty())
        } else {
            let cleared = without_channel(s, channel_id);
            let placed_again = cleared.actions.push(
                ActionV::RegisterGuilds {
                    guilds: seq![guild.set("channels"@, JsonV::List(seq![d]))],
                },
            ).push(ActionV::ApplyMutes);
            StepV {
                session: cleared.session,
                actions: if kind == Dispatch::ChannelUpdate {
                    placed_again.push(ActionV::Resync { guild_id })
                } else {
                    placed_again
                },
            }
        }
    }
}

/// What a channel leads to; one of no server is a direct conversation.
pub open spec fn channel_step(s: SessionV, kind: Dispatch, d: JsonV) -> StepV {
    match or_else(d.at("channel_id"@).text(), d.at("id"@).text()) {
        Some(channel_id) => match d.at("guild_id"@).text() {
            Some(guild_id) => guild_channel_step(s, kind, d, channel_id, guild_id),
            None => {
                let opened = dms_opened(seq![d], Map::empty(), s.channels);
                StepV {
                    session: SessionV { channels: opened.1, ..s },
                    actions: seq![ActionV::OpenDms { plans: opened.0 }, ActionV::ApplyMutes],
                }
            },
        },
        None => only(s, Seq::empty()),
    }
}

/// Whether a server that is known is to be read again.
pub open spec fn resync_actions(s: SessionV, guild_id: Option<Seq<char>>) -> Seq<ActionV> {
    match guild_id {
        Some(g) => if s.guilds.contains_key(g) {
            seq![ActionV::Resync { guild_id: g }]
        } else {
            Seq::empty()
        },
        None => Seq::empty(),
    }
}

/// What a server that is gone leads to. One that is merely out of reach is not gone.
pub open spec fn guild_gone_step(s: SessionV, d: JsonV) -> StepV {
    match d.at("id"@).text() {
        Some(guild_id) => if d.at("unavailable"@).is_true() {
            only(s, Seq::empty())
        } else {
            StepV {
                session: SessionV { guilds: s.guilds.remove(guild_id), ..s },
                actions: seq![ActionV::GuildGone { guild_id }],
            }
        },
        None => only(s, Seq::empty()),
    }
}

/// What a dispatch leads to.
pub open spec fn dispatched(
    s: SessionV,
    me: MeV,
    kind: Dispatch,
    d: JsonV,
    seq: Option<int>,
) -> StepV {
    match kind {
        Dispatch::Ready => ready_step(s, me, d, seq),
        Dispatch::GuildCreate => guild_step(s, d),
        Dispatch::ThreadCreate => threads_step(s, kind, d),
        Dispatch::ThreadUpdate => threads_step(s, kind, d),
        Dispatch::ThreadListSync => threads_step(s, kind, d),
        Dispatch::ChannelGone => gone_step(s, d),
        Dispatch::ChannelCreate => channel_step(s, kind, d),
        Dispatch::ChannelUpdate => channel_step(s, kind, d),
        Dispatch::GuildDelete => guild_gone_step(s, d),
        Dispatch::GuildRole => only(s, resync_actions(s, d.at("guild_id"@).text())),
        Dispatch::GuildUpdate => only(
            s,
            resync_actions(s, or_else(d.at("guild_id"@).text(), d.at("id"@).text())),
        ),
        Dispatch::TypingStart => only(s, typing_started(s.channels, me, d)),
        Dispatch::MessageAck => only(s, read_elsewhere(s.channels, d)),
        Dispatch::MessageCreate => only(s, message_created(s.channels, me, d)),
        Dispatch::MessageUpdate => only(s, message_updated(s.channels, me, d)),
        Dispatch::MessageDelete => only(s, messages_deleted(s.channels, d, false)),
        Dispatch::MessageDeleteBulk => only(s, messages_deleted(s.channels, d, true)),
        Dispatch::ReactionAdd => only(s, reacted(s.channels, me, d, true)),
        Dispatch::ReactionRemove => only(s, reacted(s.channels, me, d, false)),
        Dispatch::ReactionRemoveAll => only(s, reactions_cleared(s.channels, d, false)),
        Dispatch::ReactionRemoveEmoji => only(s, reactions_cleared(s.channels, d, true)),
        _ => only(s, plain_actions(kind, me, d)),
    }
}

/// A session once a message has been counted, whatever it is: the gateway counts them all.
pub open spec fn counted(s: SessionV, msg: JsonV) -> SessionV {
    match (s.resume, msg.at("s"@).as_u64()) {
        (Some(r), Some(seq)) => SessionV { resume: Some(ResumeV { seq, ..r }), ..s },
        _ => s,
    }
}

/// What kind of message this is, as a number.
pub open spec fn op_of(msg: JsonV) -> int {
    match msg.at("op"@).as_i64() {
        Some(op) => op,
        None => -1,
    }
}

/// What a message leads to: something to do, or the words for why the connection is over.
pub open spec fn taken(s: SessionV, me: MeV, msg: JsonV) -> (SessionV, Result<Seq<ActionV>, Seq<char>>) {
    let now = counted(s, msg);
    let op = op_of(msg);
    if op == 0 {
        let step = dispatched(
            now,
            me,
            dispatch_named(msg.at("t"@).text_or_empty()),
            msg.at("d"@),
            msg.at("s"@).as_u64(),
        );
        (step.session, Ok(step.actions))
    } else if op == 7 {
        (now, Err("gateway requested a reconnect"@))
    } else if op == 9 {
        (blank_session(), Err("session invalidated by gateway"@))
    } else if op == 11 {
        (now, Ok(seq![ActionV::Acked]))
    } else {
        (now, Ok(Seq::empty()))
    }
}

/// What there is to do, or the words for why not.
pub open spec fn actions_view(r: Result<Vec<Action>, String>) -> Result<Seq<ActionV>, Seq<char>> {
    match r {
        Ok(list) => Ok(views(list@)),
        Err(e) => Err(e@),
    }
}

/// A number from a message.
pub open spec fn number(n: Option<u64>) -> Option<int> {
    match n {
        Some(x) => Some(x as int),
        None => None,
    }
}

impl GatewaySession {
    pub fn new() -> (r: GatewaySession)
        ensures
            r@ == blank_session(),
    {
        let r = GatewaySession {
            resume: None,
            channel_map: TextMap::new(),
            guild_context: TextMap::new(),
        };
        assert(r@.channels =~= Map::empty());
        assert(r@.guilds =~= Map::empty());
        r
    }

    /// Where to connect: to where the session can be picked up, else to the front door.
    pub fn connect_url(&self) -> (r: String)
        ensures
            r@ == (match self@.resume {
                Some(r) => r.url,
                None => GATEWAY_URL@,
            }),
    {
        match &self.resume {
            Some(r) => r.url.clone(),
            None => GATEWAY_URL.to_owned(),
        }
    }

    /// The first message to send: to pick the session up, or to start one.
    pub fn greet(&self, token: &str, status: &str) -> (r: Json)
        ensures
            r@ == greeting(self@.resume, token@, status@),
    {
        match &self.resume {
            Some(r) => Json::object().put("op", Json::Int(6)).put(
                "d",
                Json::object().put("token", Json::string(token)).put(
                    "session_id",
                    Json::string(r.session_id.as_str()),
                ).put("seq", Json::Int(r.seq as i128)),
            ),
            None => Json::object().put("op", Json::Int(2)).put(
                "d",
                Json::object().put("token", Json::string(token)).put(
                    "properties",
                    Json::object().put("os", Json::string("linux")).put(
                        "browser",
                        Json::string("nobilis"),
                    ).put("device", Json::string("nobilis")),
                ).put("compress", Json::Bool(false)).put("large_threshold", Json::Int(50)).put(
                    "presence",
                    presence_payload(status),
                ),
            ),
        }
    }

    /// The direct conversations that are registered.
    pub fn dm_channels(&self) -> (r: Vec<String>)
        ensures
            texts(r@).no_duplicates(),
            forall|id: Seq<char>| #[trigger]
                texts(r@).contains(id) <==> self@.channels.contains_key(id)
                    && self@.channels[id].kind == "dm"@,
    {
        let r = super::history::direct_channels(&self.channel_map);
        proof {
            assert forall|id: Seq<char>| #[trigger]
                texts(r@).contains(id) <==> self@.channels.contains_key(id)
                    && self@.channels[id].kind == "dm"@ by {
                assert(self@.channels.contains_key(id) == self.channel_map@.contains_key(id));
            }
        }
        r
    }

    fn on_ready(&mut self, me: &Me, d: &Json, seq: Option<u64>) -> (r: Vec<Action>)
        ensures
            (StepV { session: final(self)@, actions: views(r@) }) == ready_step(
                old(self)@,
                me@,
                d@,
                number(seq),
            ),
    {
        let presences = read_presences(d.at("presences"));
        let user = d.at("user");
        let name = match first_of(
            only_filled(user.at("global_name").text()),
            user.at("username").text(),
        ) {
            Some(n) => n,
            None => "me",
        };
        let mut out = one(Action::Identity { name: name.to_owned() });
        let unrestricted = match user.at("premium_type").as_u64() {
            Some(n) => n > 0,
            None => false,
        };
        also(&mut out, Action::Nitro { unrestricted });
        assert(views(out@) =~= seq![
            ActionV::Identity { name: ready_name(d@) },
            ActionV::Nitro { unrestricted },
        ]);
        match d.at("session_id").text() {
            Some(session_id) => {
                also(&mut out, Action::Session { session_id: session_id.to_owned() });
                let url = match d.at("resume_gateway_url").text() {
                    Some(u) => u.to_owned().concat("/?v=10&encoding=json"),
                    None => GATEWAY_URL.to_owned(),
                };
                let seq: u64 = match seq {
                    Some(n) => n,
                    None => 0,
                };
                self.resume = Some(Resume { session_id: session_id.to_owned(), url, seq });
            },
            None => {},
        }
        match user.at("avatar").text() {
            Some(hash) => {
                also(
                    &mut out,
                    Action::Avatar { url: write_own_picture(me.user_id.as_str(), hash, ".png") },
                );
            },
            None => {},
        }
        if !d.at("user_guild_settings").is_null() {
            also(
                &mut out,
                Action::GuildSettings { settings: d.at("user_guild_settings").copy() },
            );
        }
        match d.at("relationships").list_items() {
            Some(list) => {
                also(&mut out, Action::Friends { rows: list_friends(list, &presences) });
            },
            None => {},
        }
        assert(views(out@) == ready_start(me@, d@));
        let empty: Vec<Json> = Vec::new();
        let dms = elements(d.at("private_channels"), &empty);
        let plans = open_dms(dms, &presences, &mut self.channel_map);
        also(&mut out, Action::OpenDms { plans });
        also(&mut out, Action::CatchUpDms);
        also(&mut out, Action::Connected);
        match d.at("guilds").list_items() {
            Some(list) => {
                also(&mut out, Action::RegisterGuilds { guilds: copy_list(list) });
            },
            None => {},
        }
        also(&mut out, Action::FetchDms { presences: d.at("presences").copy() });
        also(&mut out, Action::ApplyMutes);
        out
    }

    fn on_guild_create(&mut self, d: &Json) -> (r: Vec<Action>)
        ensures
            (StepV { session: final(self)@, actions: views(r@) }) == guild_step(old(self)@, d@),
    {
        let mut guilds: Vec<Json> = Vec::new();
        guilds.push(d.copy());
        assert(views(guilds@) =~= seq![d@]);
        let mut out = one(Action::RegisterGuilds { guilds });
        also(&mut out, Action::ApplyMutes);
        assert(views(out@) =~= seq![
            ActionV::RegisterGuilds { guilds: seq![d@] },
            ActionV::ApplyMutes,
        ]);
        match d.at("id").text() {
            Some(guild_id) => {
                let empty: Vec<Json> = Vec::new();
                let roles = copy_list(elements(d.at("roles"), &empty));
                also(&mut out, Action::GuildRoles { guild_id: guild_id.to_owned(), roles });
                let kept = d.copy();
                proof {
                    lemma_map_views_insert(self.guild_context@, guild_id@, kept);
                }
                self.guild_context.insert(guild_id, kept);
            },
            None => {},
        }
        out
    }

    fn drop_channel(&mut self, channel_id: &str) -> (r: Vec<Action>)
        ensures
            (StepV { session: final(self)@, actions: views(r@) }) == without_channel(
                old(self)@,
                channel_id@,
            ),
    {
        let ghost before = self.channel_map@;
        match self.channel_map.remove(channel_id) {
            Some(place) => {
                assert(map_views(self.channel_map@) =~= map_views(before).remove(channel_id@));
                one(Action::RemoveBuffer { name: place.name })
            },
            None => {
                assert(map_views(self.channel_map@) =~= map_views(before));
                none()
            },
        }
    }

    fn on_threads(&mut self, kind: Dispatch, d: &Json) -> (r: Vec<Action>)
        ensures
            (StepV { session: final(self)@, actions: views(r@) }) == threads_step(
                old(self)@,
                kind,
                d@,
            ),
    {
        let guild_id = match d.at("guild_id").text() {
            Some(id) => id,
            None => {
                return none();
            },
        };
        let guild = match self.guild_context.get(guild_id) {
            Some(g) => g.copy(),
            None => {
                return none();
            },
        };
        let threads = if kind == Dispatch::ThreadListSync {
            let empty: Vec<Json> = Vec::new();
            copy_list(elements(d.at("threads"), &empty))
        } else {
            let mut alone: Vec<Json> = Vec::new();
            alone.push(d.copy());
            assert(views(alone@) =~= seq![d@]);
            alone
        };
        let mut out = none();
        if kind == Dispatch::ThreadUpdate {
            match d.at("id").text() {
                Some(id) => {
                    let renamed = match self.channel_map.get(id) {
                        Some(place) => {
                            let title = write_title(&guild, d);
                            !crate::text::is_text(lend(&title), place.name.as_str())
                        },
                        None => false,
                    };
                    if renamed {
                        out = self.drop_channel(id);
                    }
                },
                None => {},
            }
        }
        let mut guilds: Vec<Json> = Vec::new();
        let again = with_field(&guild, "threads", Json::list(threads));
        let ghost shown = again@;
        guilds.push(again);
        assert(views(guilds@) =~= seq![shown]);
        also(&mut out, Action::RegisterGuilds { guilds });
        out
    }

    fn on_guild_channel(&mut self, kind: Dispatch, d: &Json, channel_id: &str, guild_id: &str) -> (r:
        Vec<Action>)
        ensures
            (StepV { session: final(self)@, actions: views(r@) }) == guild_channel_step(
                old(self)@,
                kind,
                d@,
                channel_id@,
                guild_id@,
            ),
    {
        let guild = match self.guild_context.get(guild_id) {
            Some(g) => g.copy(),
            None => {
                return none();
            },
        };
        match self.channel_map.get(channel_id) {
            Some(place) => {
                let title = write_title(&guild, d);
                if crate::text::is_text(lend(&title), place.name.as_str()) {
                    return none();
                }
            },
            None => {},
        }
        let mut out = self.drop_channel(channel_id);
        let mut alone: Vec<Json> = Vec::new();
        alone.push(d.copy());
        assert(views(alone@) =~= seq![d@]);
        let mut guilds: Vec<Json> = Vec::new();
        let again = with_field(&guild, "channels", Json::list(alone));
        let ghost shown = again@;
        guilds.push(again);
        assert(views(guilds@) =~= seq![shown]);
        also(&mut out, Action::RegisterGuilds { guilds });
        also(&mut out, Action::ApplyMutes);
        if kind == Dispatch::ChannelUpdate {
            also(&mut out, Action::Resync { guild_id: guild_id.to_owned() });
        }
        out
    }

    fn on_channel(&mut self, kind: Dispatch, d: &Json) -> (r: Vec<Action>)
        ensures
            (StepV { session: final(self)@, actions: views(r@) }) == channel_step(
                old(self)@,
                kind,
                d@,
            ),
    {
        let channel_id = match first_of(d.at("channel_id").text(), d.at("id").text()) {
            Some(id) => id,
            None => {
                return none();
            },
        };
        match d.at("guild_id").text() {
            Some(guild_id) => self.on_guild_channel(kind, d, channel_id, guild_id),
            None => {
                let nobody: TextMap<String> = TextMap::new();
                assert(text_values(nobody@) =~= Map::empty());
                let mut alone: Vec<Json> = Vec::new();
                alone.push(d.copy());
                assert(views(alone@) =~= seq![d@]);
                let plans = open_dms(&alone, &nobody, &mut self.channel_map);
                let ghost opened = views(plans@);
                let mut out = one(Action::OpenDms { plans });
                also(&mut out, Action::ApplyMutes);
                assert(views(out@) =~= seq![
                    ActionV::OpenDms { plans: opened },
                    ActionV::ApplyMutes,
                ]);
                out
            },
        }
    }

    fn on_guild_delete(&mut self, d: &Json) -> (r: Vec<Action>)
        ensures
            (StepV { session: final(self)@, actions: views(r@) }) == guild_gone_step(
                old(self)@,
                d@,
            ),
    {
        match d.at("id").text() {
            Some(guild_id) => {
                if d.at("unavailable").is_true() {
                    return none();
                }
                let ghost before = self.guild_context@;
                let _ = self.guild_context.remove(guild_id);
                assert(map_views(self.guild_context@) =~= map_views(before).remove(guild_id@));
                one(Action::GuildGone { guild_id: guild_id.to_owned() })
            },
            None => none(),
        }
    }

    fn resync_if_known(&self, guild_id: Option<&str>) -> (r: Vec<Action>)
        ensures
            views(r@) == resync_actions(self@, maybe_str(guild_id)),
    {
        match guild_id {
            Some(g) => if self.guild_context.contains(g) {
                one(Action::Resync { guild_id: g.to_owned() })
            } else {
                none()
            },
            None => none(),
        }
    }

    fn on_dispatch(&mut self, me: &Me, kind: Dispatch, d: &Json, seq: Option<u64>) -> (r: Vec<
        Action,
    >)
        ensures
            (StepV { session: final(self)@, actions: views(r@) }) == dispatched(
                old(self)@,
                me@,
                kind,
                d@,
                number(seq),
            ),
    {
        match kind {
            Dispatch::Ready => self.on_ready(me, d, seq),
            Dispatch::GuildCreate => self.on_guild_create(d),
            Dispatch::ThreadCreate => self.on_threads(kind, d),
            Dispatch::ThreadUpdate => self.on_threads(kind, d),
            Dispatch::ThreadListSync => self.on_threads(kind, d),
            Dispatch::ChannelGone => match d.at("id").text() {
                Some(id) => self.drop_channel(id),
                None => none(),
            },
            Dispatch::ChannelCreate => self.on_channel(kind, d),
            Dispatch::ChannelUpdate => self.on_channel(kind, d),
            Dispatch::GuildDelete => self.on_guild_delete(d),
            Dispatch::GuildRole => self.resync_if_known(d.at("guild_id").text()),
            Dispatch::GuildUpdate => self.resync_if_known(
                first_of(d.at("guild_id").text(), d.at("id").text()),
            ),
            Dispatch::TypingStart => on_typing(&self.channel_map, me, d),
            Dispatch::MessageAck => on_read(&self.channel_map, d),
            Dispatch::MessageCreate => on_message_create(&self.channel_map, me, d),
            Dispatch::MessageUpdate => on_message_update(&self.channel_map, me, d),
            Dispatch::MessageDelete => on_messages_deleted(&self.channel_map, d, false),
            Dispatch::MessageDeleteBulk => on_messages_deleted(&self.channel_map, d, true),
            Dispatch::ReactionAdd => on_reaction(&self.channel_map, me, d, true),
            Dispatch::ReactionRemove => on_reaction(&self.channel_map, me, d, false),
            Dispatch::ReactionRemoveAll => on_reactions_cleared(&self.channel_map, d, false),
            Dispatch::ReactionRemoveEmoji => on_reactions_cleared(&self.channel_map, d, true),
            _ => on_plain(kind, me, d),
        }
    }

    /// Takes in a message of the gateway and says what to do about it.
    pub fn run_gateway(&mut self, me: &Me, msg: &Json) -> (r: Result<Vec<Action>, String>)
        ensures
            (final(self)@, actions_view(r)) == taken(old(self)@, me@, msg@),
    {
        let op: i64 = match msg.at("op").as_i64() {
            Some(op) => op,
            None => -1,
        };
        let seq = msg.at("s").as_u64();
        match (&self.resume, seq) {
            (Some(r), Some(n)) => {
                let further = Resume {
                    session_id: r.session_id.clone(),
                    url: r.url.clone(),
                    seq: n,
                };
                self.resume = Some(further);
            },
            _ => {},
        }
        assert(self@ == counted(old(self)@, msg@));
        if op == 0 {
            let kind = read_dispatch(msg.at("t").text_or_empty());
            Ok(self.on_dispatch(me, kind, msg.at("d"), seq))
        } else if op == 7 {
            Err("gateway requested a reconnect".to_owned())
        } else if op == 9 {
            self.resume = None;
            self.channel_map = TextMap::new();
            self.guild_context = TextMap::new();
            assert(self@.channels =~= Map::empty());
            assert(self@.guilds =~= Map::empty());
            Err("session invalidated by gateway".to_owned())
        } else if op == 11 {
            Ok(one(Action::Acked))
        } else {
            Ok(none())
        }
    }

    /// Opens the direct conversations of the whole list, which the start of a session does not
    /// reliably hold.
    pub fn dms_fetched(&mut self, list: &Vec<Json>, presences: &TextMap<String>) -> (r: Vec<DmPlan>)
        ensures
            ({
                let opened = dms_opened(
                    views(list@),
                    text_values(presences@),
                    old(self)@.channels,
                );
                &&& views(r@) == opened.0
                &&& final(self)@ == (SessionV { channels: opened.1, ..old(self)@ })
            }),
    {
        open_dms(list, presences, &mut self.channel_map)
    }

    /// Registers the channels of a server, seen by the member `own` of it.
    pub fn register_guild(&mut self, me: &Me, guild: &Json, own: Option<&Json>) -> (r: Option<GuildPlan>)
        ensures
            r is Some <==> is_registrable(guild@),
            r is None ==> final(self)@ == old(self)@,
            r matches Some(plan) ==> {
                let place = guild_place(guild@, me@.user_id, maybe_json(own));
                let outcome = placed(place, guild@.at("threads"@).items(), old(self)@.channels);
                &&& plan.is_for(me@.account_id, me@.user_id, guild@, maybe_json(own))
                &&& texts(plan.visible@).no_duplicates()
                &&& texts(plan.visible@).to_set() == outcome.visible
                &&& views(plan.channels@) + views(plan.threads@) == outcome.fresh
                &&& views(plan.channels@) == place_texts(
                    place,
                    place.channels,
                    unplaced(old(self)@.channels),
                ).fresh
                &&& final(self)@ == (SessionV { channels: outcome.known, ..old(self)@ })
            },
    {
        register_guild_channels(
            me.account_id.as_str(),
            me.user_id.as_str(),
            guild,
            own,
            &mut self.channel_map,
        )
    }

    /// Registers a server that was read again, and takes away what it no longer offers of what is
    /// held of it.
    pub fn resync_guild_once(
        &mut self,
        me: &Me,
        guild: &Json,
        own: Option<&Json>,
        held: &Vec<Held>,
    ) -> (r: Option<(GuildPlan, Vec<String>)>)
        ensures
            r is Some <==> is_registrable(guild@),
            r is None ==> final(self)@ == old(self)@,
            r matches Some(found) ==> {
                let place = guild_place(guild@, me@.user_id, maybe_json(own));
                let outcome = placed(place, guild@.at("threads"@).items(), old(self)@.channels);
                &&& found.0.is_for(me@.account_id, me@.user_id, guild@, maybe_json(own))
                &&& texts(found.0.visible@).no_duplicates()
                &&& texts(found.0.visible@).to_set() == outcome.visible
                &&& views(found.0.channels@) + views(found.0.threads@) == outcome.fresh
                &&& views(found.0.channels@) == place_texts(
                    place,
                    place.channels,
                    unplaced(old(self)@.channels),
                ).fresh
                &&& texts(found.1@) == gone(views(held@), outcome.visible)
                &&& final(self)@ == (SessionV {
                    channels: known_without_gone(outcome.known, views(held@), outcome.visible),
                    ..old(self)@
                })
            },
    {
        match self.register_guild(me, guild, own) {
            Some(plan) => {
                let taken_away = drop_gone(held, &plan.visible, &mut self.channel_map);
                Some((plan, taken_away))
            },
            None => None,
        }
    }

    /// Forgets the conversations of a server that is gone; says which to remove.
    pub fn forget_guild(&mut self, held: &Vec<Held>) -> (r: Vec<String>)
        ensures
            texts(r@) == Seq::new(held@.len(), |i: int| views(held@)[i].buffer_id),
            final(self)@ == (SessionV {
                channels: known_without(old(self)@.channels, views(held@)),
                ..old(self)@
            }),
    {
        let ghost all = views(held@);
        let ghost start = map_views(self.channel_map@);
        let ghost guilds = self.guild_context@;
        let ghost resume = self.resume;
        let mut out: Vec<String> = Vec::new();
        let mut i: usize = 0;
        assert(all.take(0) =~= Seq::<HeldV>::empty());
        while i < held.len()
            invariant
                i <= held.len(),
                all == views(held@),
                out.len() == i,
                self.guild_context@ == guilds,
                self.resume == resume,
                map_views(self.channel_map@) == known_without(start, all.take(i as int)),
                forall|j: int| 0 <= j < i ==> (#[trigger] out@[j])@ == all[j].buffer_id,
            decreases held.len() - i,
        {
            proof {
                assert(all.take(i + 1).drop_last() =~= all.take(i as int));
                assert(all.take(i + 1).last() == held@[i as int]@);
            }
            match lend(&held[i].channel_id) {
                Some(channel_id) => {
                    let ghost before = self.channel_map@;
                    let _ = self.channel_map.remove(channel_id);
                    assert(map_views(self.channel_map@) =~= map_views(before).remove(channel_id@));
                },
                None => {},
            }
            out.push(held[i].buffer_id.clone());
            i += 1;
        }
        assert(all.take(i as int) =~= all);
        assert(texts(out@) =~= Seq::new(held@.len(), |i: int| all[i].buffer_id));
        out
    }
}

/// The registered conversations without those of some channels.
pub open spec fn known_without(known: Map<Seq<char>, KnownV>, held: Seq<HeldV>) -> Map<
    Seq<char>,
    KnownV,
>
    decreases held.len(),
{
    if held.len() == 0 {
        known
    } else {
        let before = known_without(known, held.drop_last());
        match held.last().channel_id {
            Some(id) => before.remove(id),
            None => before,
        }
    }
}

/// The first message of a connection.
pub open spec fn greeting(resume: Option<ResumeV>, token: Seq<char>, status: Seq<char>) -> JsonV {
    match resume {
        Some(r) => nothing().put("op"@, JsonV::Int(6)).put(
            "d"@,
            nothing().put("token"@, jstr(token)).put("session_id"@, jstr(r.session_id)).put(
                "seq"@,
                JsonV::Int(r.seq),
            ),
        ),
        None => nothing().put("op"@, JsonV::Int(2)).put(
            "d"@,
            nothing().put("token"@, jstr(token)).put(
                "properties"@,
                nothing().put("os"@, jstr("linux"@)).put("browser"@, jstr("nobilis"@)).put(
                    "device"@,
                    jstr("nobilis"@),
                ),
            ).put("compress"@, JsonV::Bool(false)).put("large_threshold"@, JsonV::Int(50)).put(
                "presence"@,
                presence_of(status),
            ),
        ),
    }
}

/// The requests that read a server again: the server, and its channels.
pub fn resync_requests(token: &str, guild_id: &str) -> (r: (Request, Request))
    ensures
        r.0@ == asking(Method::Get, "/guilds/"@ + guild_id@, token@),
        r.1@ == asking(Method::Get, "/guilds/"@ + guild_id@ + "/channels"@, token@),
{
    let path = "/guilds/".to_owned().concat(guild_id);
    let channels = path.clone().concat("/channels");
    (
        Request::new(Method::Get, path.as_str(), token),
        Request::new(Method::Get, channels.as_str(), token),
    )
}

/// A server that was read again, put together from its two answers: with its channels, and where
/// it stands in the rail, which the service does not know.
pub open spec fn reread_guild(guild: JsonV, channels: JsonV, position: Option<int>) -> Option<JsonV> {
    match channels {
        JsonV::List(_) => {
            let whole = guild.set("channels"@, channels);
            Some(
                match position {
                    Some(p) => whole.set("position"@, JsonV::Int(p)),
                    None => whole,
                },
            )
        },
        _ => None,
    }
}

/// Puts a server that was read again together; without a list of channels there is nothing to put.
pub fn put_guild_together(guild: &Json, channels: &Json, position: Option<i64>) -> (r: Option<Json>)
    requires
        guild@ is Object || guild@ is Null,
    ensures
        match r {
            Some(g) => reread_guild(
                guild@,
                channels@,
                match position {
                    Some(p) => Some(p as int),
                    None => None,
                },
            ) == Some(g@),
            None => !(channels@ is List),
        },
{
    if channels.list_items().is_none() {
        return None;
    }
    let whole = with_field(guild, "channels", channels.copy());
    match position {
        Some(p) => Some(with_field(&whole, "position", Json::Int(p as i128))),
        None => Some(whole),
    }
}

/// Which servers are being read again. A burst of reasons becomes one pass and at most one more.
pub struct Resyncs {
    running: TextMap<bool>,
}

impl View for Resyncs {
    type V = Map<Seq<char>, bool>;

    /// The servers that are being read, and whether another reason has come since.
    closed spec fn view(&self) -> Map<Seq<char>, bool> {
        self.running@
    }
}

impl Resyncs {
    pub fn new() -> (r: Resyncs)
        ensures
            r@ == Map::<Seq<char>, bool>::empty(),
    {
        Resyncs { running: TextMap::new() }
    }

    /// A reason to read a server again: whether to start now, or leave it to the pass that runs.
    pub fn try_start_guild_resync(&mut self, group_id: &str) -> (r: bool)
        ensures
            r == !old(self)@.contains_key(group_id@),
            final(self)@ == old(self)@.insert(group_id@, !r),
    {
        if self.running.contains(group_id) {
            self.running.insert(group_id, true);
            false
        } else {
            self.running.insert(group_id, false);
            true
        }
    }

    /// A pass is over: whether to make another.
    pub fn finish_guild_resync(&mut self, group_id: &str) -> (r: bool)
        ensures
            r == (old(self)@.contains_key(group_id@) && old(self)@[group_id@]),
            final(self)@ == (if r {
                old(self)@.insert(group_id@, false)
            } else {
                old(self)@.remove(group_id@)
            }),
    {
        let again = match self.running.get(group_id) {
            Some(more) => *more,
            None => false,
        };
        if again {
            self.running.insert(group_id, false);
        } else {
            let _ = self.running.remove(group_id);
        }
        again
    }
}

/// However many reasons come while a server is being read, one more pass sees to them all.
pub proof fn law_a_burst_is_one_more_pass(running: Map<Seq<char>, bool>, group_id: Seq<char>)
    requires
        running.contains_key(group_id),
    ensures
        running.insert(group_id, true).insert(group_id, true) == running.insert(group_id, true),
        !running.insert(group_id, true).insert(group_id, false)[group_id],
{
    assert(running.insert(group_id, true).insert(group_id, true) =~= running.insert(
        group_id,
        true,
    ));
}

/// How often to say that this end lives, in milliseconds.
pub open spec fn interval_in(hello: JsonV) -> int {
    match hello.at("d"@).at("heartbeat_interval"@).as_u64() {
        Some(t) => if t < 1 {
            1
        } else {
            t
        },
        None => 41_250,
    }
}

pub fn heartbeat_interval(hello: &Json) -> (r: u64)
    ensures
        r == interval_in(hello@),
        r >= 1,
{
    match hello.at("d").at("heartbeat_interval").as_u64() {
        Some(t) => if t < 1 {
            1
        } else {
            t
        },
        None => 41_250,
    }
}

/// Whether a heartbeat is still to be answered.
pub struct Heartbeat {
    pub ack_pending: bool,
}

impl Heartbeat {
    pub fn new() -> (r: Heartbeat)
        ensures
            !r.ack_pending,
    {
        Heartbeat { ack_pending: false }
    }

    /// It is time for a heartbeat: what to send, or the words for why the connection is over. One
    /// that was not answered by the time of the next will not be.
    pub fn tick(&mut self) -> (r: Result<Json, String>)
        ensures
            final(self).ack_pending,
            match r {
                Ok(j) => !old(self).ack_pending && j@ == nothing().put("op"@, JsonV::Int(1)).put(
                    "d"@,
                    JsonV::Null,
                ),
                Err(e) => old(self).ack_pending && e@
                    == "no heartbeat ack received - connection is zombied"@,
            },
    {
        if self.ack_pending {
            return Err("no heartbeat ack received - connection is zombied".to_owned());
        }
        self.ack_pending = true;
        Ok(Json::object().put("op", Json::Int(1)).put("d", Json::Null))
    }

    /// A heartbeat was answered.
    pub fn acked(&mut self)
        ensures
            !final(self).ack_pending,
    {
        self.ack_pending = false;
    }
}

/// How a connection came to its end.
#[derive(Debug, PartialEq, Eq)]
pub enum Ending {
    Over,
    /// The token is dead.
    AuthFailed,
    Failed(String),
    /// The task that ran it broke.
    Broken,
}

/// What to do once a connection is over.
#[derive(Debug, PartialEq, Eq)]
pub enum Afterwards {
    /// Give up: the token is dead. What to tell.
    GiveUp(String),
    /// Connect again, after so many seconds. What to tell meanwhile.
    Retry(String, u64),
}

pub enum AfterwardsV {
    GiveUp(Seq<char>),
    Retry(Seq<char>, u64),
}

impl View for Afterwards {
    type V = AfterwardsV;

    open spec fn view(&self) -> AfterwardsV {
        match self {
            Afterwards::GiveUp(t) => AfterwardsV::GiveUp(t@),
            Afterwards::Retry(t, s) => AfterwardsV::Retry(t@, *s),
        }
    }
}

/// The words for a dead token.
pub open spec fn dead_token() -> Seq<char> {
    "Discord rejected this login (session revoked) - reconnect from the Accounts pane"@
}

/// What to do once a connection is over: every end but a dead token is worth another try.
pub open spec fn after_ending(ending: Ending, delay: u64) -> AfterwardsV {
    let retry = |detail: Seq<char>|
        AfterwardsV::Retry(
            detail + " - reconnecting in "@ + decimal_text(delay as nat) + "s..."@,
            delay,
        );
    match ending {
        Ending::Over => retry("gateway session ended"@),
        Ending::AuthFailed => AfterwardsV::GiveUp(dead_token()),
        Ending::Failed(e) => retry(e@),
        Ending::Broken => retry("internal error (see nobilis logs)"@),
    }
}

/// The wait after a wait: twice as long, up to the longest.
pub open spec fn longer(delay: u64) -> u64 {
    if delay * 2 < RECONNECT_MAX_DELAY {
        (delay * 2) as u64
    } else {
        RECONNECT_MAX_DELAY
    }
}

/// How long to wait before the next try, in seconds.
pub struct Retries {
    pub delay: u64,
}

impl Retries {
    pub fn new() -> (r: Retries)
        ensures
            r.delay == RECONNECT_INITIAL_DELAY,
    {
        Retries { delay: RECONNECT_INITIAL_DELAY }
    }

    /// Decides what to do once a connection is over. The next wait will be longer.
    pub fn run_gateway_with_retry(&mut self, ending: Ending) -> (r: Afterwards)
        ensures
            r@ == after_ending(ending, old(self).delay),
            final(self).delay == (if r is Retry {
                longer(old(self).delay)
            } else {
                old(self).delay
            }),
    {
        let detail = match ending {
            Ending::Over => "gateway session ended".to_owned(),
            Ending::AuthFailed => {
                return Afterwards::GiveUp(
                    "Discord rejected this login (session revoked) - reconnect from the Accounts pane".to_owned(),
                );
            },
            Ending::Failed(e) => e,
            Ending::Broken => "internal error (see nobilis logs)".to_owned(),
        };
        let delay: u64 = self.delay;
        let mut words = detail;
        words.append(" - reconnecting in ");
        words.append(decimal(delay).as_str());
        words.append("s...");
        self.delay = if delay < RECONNECT_MAX_DELAY && delay * 2 < RECONNECT_MAX_DELAY {
            delay * 2
        } else {
            RECONNECT_MAX_DELAY
        };
        Afterwards::Retry(words, delay)
    }
}

/// A wait never grows beyond the longest, and never shrinks below the first.
pub proof fn law_waits_stay_in_bounds(delay: u64)
    requires
        RECONNECT_INITIAL_DELAY <= delay <= RECONNECT_MAX_DELAY,
    ensures
        delay <= longer(delay) <= RECONNECT_MAX_DELAY,
{
}

/// An invalidated session takes everything that was kept with it.
pub proof fn law_an_invalid_session_is_forgotten(s: SessionV, me: MeV, msg: JsonV)
    requires
        op_of(msg) == 9,
    ensures
        taken(s, me, msg).0 == blank_session(),
        taken(s, me, msg).1 is Err,
{
}

/// A reconnect that was asked for loses nothing: what was registered is there when the session is
/// picked up again.
pub proof fn law_a_reconnect_keeps_what_is_known(s: SessionV, me: MeV, msg: JsonV)
    requires
        op_of(msg) == 7,
    ensures
        taken(s, me, msg).0.channels == s.channels,
        taken(s, me, msg).0.guilds == s.guilds,
        s.resume is Some ==> taken(s, me, msg).0.resume is Some,
{
}

/// Every numbered message is counted, also one that means nothing here.
pub proof fn law_unknown_messages_count(s: SessionV, me: MeV, msg: JsonV, seq: int)
    requires
        s.resume is Some,
        op_of(msg) == 0,
        dispatch_named(msg.at("t"@).text_or_empty()) == Dispatch::Unknown,
        msg.at("s"@).as_u64() == Some(seq),
    ensures
        taken(s, me, msg).0.resume == Some(ResumeV { seq, ..s.resume->0 }),
        taken(s, me, msg).1 == Ok::<Seq<ActionV>, Seq<char>>(Seq::empty()),
{
}

/// A server that is merely out of reach keeps its channels.
pub proof fn law_an_outage_removes_nothing(s: SessionV, d: JsonV)
    requires
        d.at("unavailable"@) == JsonV::Bool(true),
    ensures
        guild_gone_step(s, d) == only(s, Seq::empty()),
{
}

/// Only a dead token ends the tries.
pub proof fn law_only_a_dead_token_gives_up(ending: Ending, delay: u64)
    ensures
        after_ending(ending, delay) is GiveUp <==> ending is AuthFailed,
{
}

/// A frame of text is what it says, where it can be read; a close for a dead login is told apart from
/// every other end, each of which says in words what it was.
pub proof fn law_a_frame_is_what_it_says(
    text: String,
    json: Option<JsonV>,
    code: Option<u16>,
    words: String,
)
    ensures
        json is Some ==> heard(Frame::Text(text), json) == HeardV::Message(json->0),
        json is None ==> heard(Frame::Text(text), json) is Lost,
        heard(Frame::Close(code, words), json) is AuthFailed <==> code == Some(4004u16),
        code != Some(4004u16) ==> heard(Frame::Close(code, words), json) == HeardV::Lost(
            "connection closed: "@ + words@,
        ),
        heard(Frame::Failed(words), json) == HeardV::Lost("websocket error: "@ + words@),
        heard(Frame::Other, json) is Nothing,
        heard(Frame::End, json) is Lost,
{
}

/// A session that can be picked up is picked up by its id, from the last message that was counted, with
/// the token; where there is none, one is started with the token, the status, and what this end is.
pub proof fn law_a_session_is_picked_up_or_started(
    resume: Option<ResumeV>,
    token: Seq<char>,
    status: Seq<char>,
)
    ensures
        ({
            let j = greeting(resume, token, status);
            let d = j.at("d"@);
            &&& d.at("token"@) == JsonV::Str(token)
            &&& resume is Some ==> {
                &&& j.at("op"@) == JsonV::Int(6)
                &&& d.at("session_id"@) == JsonV::Str(resume->0.session_id)
                &&& d.at("seq"@) == JsonV::Int(resume->0.seq)
            }
            &&& resume is None ==> {
                &&& j.at("op"@) == JsonV::Int(2)
                &&& d.get("session_id"@) is None
                &&& d.at("presence"@) == presence_of(status)
                &&& d.at("compress"@) == JsonV::Bool(false)
                &&& d.at("large_threshold"@) == JsonV::Int(50)
                &&& d.at("properties"@).at("os"@) == JsonV::Str("linux"@)
                &&& d.at("properties"@).at("browser"@) == JsonV::Str("nobilis"@)
                &&& d.at("properties"@).at("device"@) == JsonV::Str("nobilis"@)
            }
        }),
{
    broadcast use law_put_then_read;

    reveal_strlit("op");
    reveal_strlit("d");
    reveal_strlit("token");
    reveal_strlit("session_id");
    reveal_strlit("seq");
    reveal_strlit("properties");
    reveal_strlit("os");
    reveal_strlit("browser");
    reveal_strlit("device");
    reveal_strlit("compress");
    reveal_strlit("large_threshold");
    reveal_strlit("presence");
    assert("op"@.len() == 2);
    assert("d"@.len() == 1);
    assert("token"@.len() == 5);
    assert("session_id"@.len() == 10);
    assert("seq"@.len() == 3);
    assert("properties"@.len() == 10);
    assert("os"@.len() == 2);
    assert("browser"@.len() == 7);
    assert("device"@.len() == 6);
    assert("compress"@.len() == 8);
    assert("large_threshold"@.len() == 15);
    assert("presence"@.len() == 8);
    assert("op"@[1] == 'p');
    assert("os"@[1] == 's');
    assert("properties"@[0] == 'p');
    assert("session_id"@[0] == 's');
    assert("compress"@[0] == 'c');
    assert("presence"@[0] == 'p');
}

/// A session that started can be picked up by its id, where the service says or else at the front door,
/// from the message that started it.
pub proof fn law_a_started_session_can_be_picked_up(d: JsonV, seq: Option<int>)
    ensures
        ({
            let r = ready_resume(d, seq);
            let url = d.at("resume_gateway_url"@);
            &&& r is Some <==> d.at("session_id"@) is Str
            &&& r is Some ==> {
                &&& d.at("session_id"@) == JsonV::Str(r->0.session_id)
                &&& url is Str ==> r->0.url == url->Str_0 + "/?v=10&encoding=json"@
                &&& !(url is Str) ==> r->0.url == "wss://gateway.discord.gg/?v=10&encoding=json"@
                &&& seq is Some ==> r->0.seq == seq->0
                &&& seq is None ==> r->0.seq == 0
            }
        }),
{
}

/// This account goes by the name it chose, else by the one it signed up with.
pub proof fn law_this_account_goes_by_its_name(d: JsonV)
    ensures
        ({
            let chosen = d.at("user"@).at("global_name"@).text_or_empty();
            let signed = d.at("user"@).at("username"@);
            &&& chosen.len() > 0 ==> ready_name(d) == chosen
            &&& chosen.len() == 0 && signed is Str ==> signed == JsonV::Str(ready_name(d))
            &&& chosen.len() == 0 && !(signed is Str) ==> ready_name(d) == "me"@
        }),
{
}

/// Conversations are opened one after another: each that has an id and is not registered yet, in the
/// order of the list, and each only once.
pub proof fn law_conversations_are_opened_in_turn(
    list: Seq<JsonV>,
    last: JsonV,
    known_statuses: Map<Seq<char>, Seq<char>>,
    known: Map<Seq<char>, KnownV>,
)
    ensures
        dms_opened(Seq::empty(), known_statuses, known).0.len() == 0,
        dms_opened(Seq::empty(), known_statuses, known).1 == known,
        ({
            let before = dms_opened(list, known_statuses, known);
            let after = dms_opened(list.push(last), known_statuses, known);
            let new = last.at("id"@) is Str && !before.1.contains_key(last.at("id"@)->Str_0);
            &&& !new ==> after == before
            &&& new ==> {
                &&& after.0.len() == before.0.len() + 1
                &&& after.0.drop_last() == before.0
                &&& after.0.last().channel_id == last.at("id"@)->Str_0
                &&& after.1.contains_key(last.at("id"@)->Str_0)
                &&& after.1[last.at("id"@)->Str_0].kind == "dm"@
            }
        }),
{
    assert(list.push(last).drop_last() =~= list);
    let before = dms_opened(list, known_statuses, known);
    if dm_to_open(last, known_statuses, before.1) is Some {
        let p = dm_to_open(last, known_statuses, before.1)->0;
        assert(before.0.push(p).drop_last() =~= before.0);
    }
}

/// The start of a session tells who this account is, whether it may do more, its picture, its settings
/// and its friends, each where it is said; opens the conversations that are new; and has the servers that
/// came registered. What was kept of servers stays.
pub proof fn law_the_start_of_a_session_is_told(s: SessionV, me: MeV, d: JsonV, seq: Option<int>)
    ensures
        ({
            let step = ready_step(s, me, d, seq);
            let known_statuses = statuses(d.at("presences"@).items());
            let opened = dms_opened(d.at("private_channels"@).items(), known_statuses, s.channels);
            let user = d.at("user"@);
            let paid = user.at("premium_type"@).as_u64();
            &&& step.session.guilds == s.guilds
            &&& step.session.channels == opened.1
            &&& step.session.resume == (if d.at("session_id"@) is Str {
                ready_resume(d, seq)
            } else {
                s.resume
            })
            &&& step.actions.contains(ActionV::Identity { name: ready_name(d) })
            &&& step.actions.contains(
                ActionV::Nitro { unrestricted: paid is Some && paid->0 > 0 },
            )
            &&& d.at("session_id"@) is Str ==> step.actions.contains(
                ActionV::Session { session_id: d.at("session_id"@)->Str_0 },
            )
            &&& user.at("avatar"@) is Str ==> step.actions.contains(
                ActionV::Avatar {
                    url: "https://cdn.discordapp.com/avatars/"@ + me.user_id + "/"@ + user.at(
                        "avatar"@,
                    )->Str_0 + ".png"@,
                },
            )
            &&& !(d.at("user_guild_settings"@) is Null) ==> step.actions.contains(
                ActionV::GuildSettings { settings: d.at("user_guild_settings"@) },
            )
            &&& d.at("relationships"@) is List ==> step.actions.contains(
                ActionV::Friends {
                    rows: crate::json::collect(
                        d.at("relationships"@).items(),
                        friend_reader(known_statuses),
                    ),
                },
            )
            &&& step.actions.contains(ActionV::OpenDms { plans: opened.0 })
            &&& step.actions.contains(ActionV::CatchUpDms)
            &&& step.actions.contains(ActionV::Connected)
            &&& d.at("guilds"@) is List ==> step.actions.contains(
                ActionV::RegisterGuilds { guilds: d.at("guilds"@).items() },
            )
            &&& step.actions.contains(ActionV::FetchDms { presences: d.at("presences"@) })
            &&& step.actions.last() == ActionV::ApplyMutes
        }),
{
    let step = ready_step(s, me, d, seq);
    let start = ready_start(me, d);
    let user = d.at("user"@);
    let n = if d.at("session_id"@) is Str {
        1int
    } else {
        0
    };
    let a = if user.at("avatar"@) is Str {
        1int
    } else {
        0
    };
    let g = if d.at("user_guild_settings"@) is Null {
        0int
    } else {
        1
    };
    let f = if d.at("relationships"@) is List {
        1int
    } else {
        0
    };
    assert(start.len() == 2 + n + a + g + f);
    assert forall|i: int| 0 <= i < start.len() implies step.actions[i] == start[i] by {}
    assert(step.actions[0] == start[0] && step.actions[1] == start[1]);
    if n == 1 {
        assert(step.actions[2] == start[2]);
    }
    if a == 1 {
        assert(step.actions[2 + n] == start[2 + n]);
    }
    if g == 1 {
        assert(step.actions[2 + n + a] == start[2 + n + a]);
    }
    if f == 1 {
        assert(step.actions[2 + n + a + g] == start[2 + n + a + g]);
    }
    let at = start.len() as int;
    let opened = dms_opened(
        d.at("private_channels"@).items(),
        statuses(d.at("presences"@).items()),
        s.channels,
    );
    assert(step.actions[at] == (ActionV::OpenDms { plans: opened.0 }));
    assert(step.actions[at + 1] == ActionV::CatchUpDms);
    assert(step.actions[at + 2] == ActionV::Connected);
    let r = if d.at("guilds"@) is List {
        1int
    } else {
        0
    };
    if r == 1 {
        assert(step.actions[at + 3] == (ActionV::RegisterGuilds { guilds: d.at("guilds"@).items() }));
    }
    assert(step.actions[at + 3 + r] == (ActionV::FetchDms { presences: d.at("presences"@) }));
}

/// A server that arrived is registered and, where it has an id, kept under it and its roles told; every
/// other server stays as it was.
pub proof fn law_a_server_that_arrives_is_kept(s: SessionV, d: JsonV, other: Seq<char>)
    ensures
        ({
            let step = guild_step(s, d);
            &&& step.session.channels == s.channels
            &&& step.session.resume == s.resume
            &&& step.actions[0] == (ActionV::RegisterGuilds { guilds: seq![d] })
            &&& step.actions[1] == ActionV::ApplyMutes
            &&& d.at("id"@) is Str ==> {
                let id = d.at("id"@)->Str_0;
                &&& step.session.guilds.contains_key(id) && step.session.guilds[id] == d
                &&& other != id ==> step.session.guilds.contains_key(other) == s.guilds.contains_key(
                    other,
                ) && (s.guilds.contains_key(other) ==> step.session.guilds[other]
                    == s.guilds[other])
                &&& step.actions.len() == 3
                &&& step.actions[2] == (ActionV::GuildRoles {
                    guild_id: id,
                    roles: d.at("roles"@).items(),
                })
            }
            &&& !(d.at("id"@) is Str) ==> step.session == s && step.actions.len() == 2
        }),
{
}

/// A channel that is gone takes its conversation with it, by its name, and nothing else; one that is not
/// registered takes nothing.
pub proof fn law_a_channel_that_is_gone_is_removed(s: SessionV, d: JsonV, other: Seq<char>)
    ensures
        ({
            let step = gone_step(s, d);
            let id = d.at("id"@);
            let here = id is Str && s.channels.contains_key(id->Str_0);
            &&& !here ==> step.session == s && step.actions.len() == 0
            &&& here ==> {
                &&& step.actions == seq![
                    ActionV::RemoveBuffer { name: s.channels[id->Str_0].name },
                ]
                &&& !step.session.channels.contains_key(id->Str_0)
                &&& other != id->Str_0 ==> step.session.channels.contains_key(other)
                    == s.channels.contains_key(other) && (s.channels.contains_key(other)
                    ==> step.session.channels[other] == s.channels[other])
                &&& step.session.guilds == s.guilds && step.session.resume == s.resume
            }
        }),
{
}

/// Threads have their server, where it is kept, registered again with them and nothing else changed: all
/// of a list, or the one that the dispatch is. One that was renamed loses its conversation first.
pub proof fn law_threads_are_registered_with_their_server(
    s: SessionV,
    kind: Dispatch,
    d: JsonV,
    key: Seq<char>,
)
    requires
        d.at("guild_id"@) is Str && s.guilds.contains_key(d.at("guild_id"@)->Str_0) ==> s.guilds[
            d.at("guild_id"@)->Str_0] is Object,
    ensures
        ({
            let step = threads_step(s, kind, d);
            let guild_id = d.at("guild_id"@);
            let here = guild_id is Str && s.guilds.contains_key(guild_id->Str_0);
            &&& step.session.guilds == s.guilds && step.session.resume == s.resume
            &&& !here ==> step.session == s && step.actions.len() == 0
            &&& here ==> {
                let guild = s.guilds[guild_id->Str_0];
                let last = step.actions.last();
                let now = if d.at("name"@) is Str {
                    let server = if guild.at("name"@) is Str {
                        guild.at("name"@)->Str_0
                    } else {
                        "guild"@
                    };
                    Some(server + "/#"@ + d.at("name"@)->Str_0)
                } else {
                    None
                };
                let id = d.at("id"@);
                let renamed = kind == Dispatch::ThreadUpdate && id is Str
                    && s.channels.contains_key(id->Str_0) && now != Some(
                    s.channels[id->Str_0].name,
                );
                &&& last is RegisterGuilds
                &&& last->RegisterGuilds_guilds.len() == 1
                &&& kind == Dispatch::ThreadListSync ==> last->RegisterGuilds_guilds[0].at(
                    "threads"@,
                ) == JsonV::List(d.at("threads"@).items())
                &&& kind != Dispatch::ThreadListSync ==> last->RegisterGuilds_guilds[0].at(
                    "threads"@,
                ) == JsonV::List(seq![d])
                &&& key != "threads"@ ==> last->RegisterGuilds_guilds[0].get(key) == guild.get(key)
                &&& renamed ==> step.actions.len() == 2 && step.actions[0] == (
                ActionV::RemoveBuffer { name: s.channels[id->Str_0].name })
                    && !step.session.channels.contains_key(id->Str_0)
                &&& !renamed ==> step.actions.len() == 1 && step.session == s
            }
        }),
{
    let guild_id = d.at("guild_id"@);
    if guild_id is Str && s.guilds.contains_key(guild_id->Str_0) {
        let guild = s.guilds[guild_id->Str_0];
        let threads = if kind == Dispatch::ThreadListSync {
            d.at("threads"@).items()
        } else {
            seq![d]
        };
        law_set_then_read(guild, "threads"@, JsonV::List(threads), key);
    }
}

/// A channel of a server has it registered again with that channel alone, unless it is registered under
/// the name that it has now; one under another name loses its conversation first, and a channel that was
/// changed has the whole server read again.
pub proof fn law_a_changed_channel_is_placed_again(
    s: SessionV,
    kind: Dispatch,
    d: JsonV,
    channel_id: Seq<char>,
    guild_id: Seq<char>,
    key: Seq<char>,
)
    requires
        s.guilds.contains_key(guild_id) ==> s.guilds[guild_id] is Object,
    ensures
        ({
            let step = guild_channel_step(s, kind, d, channel_id, guild_id);
            let here = s.guilds.contains_key(guild_id);
            let guild = s.guilds[guild_id];
            let server = if guild.at("name"@) is Str {
                guild.at("name"@)->Str_0
            } else {
                "guild"@
            };
            let known = s.channels.contains_key(channel_id);
            let kept = known && d.at("name"@) is Str && s.channels[channel_id].name == server + "/#"@
                + d.at("name"@)->Str_0;
            &&& step.session.guilds == s.guilds && step.session.resume == s.resume
            &&& !here || kept ==> step.session == s && step.actions.len() == 0
            &&& here && !kept ==> {
                let at = if known {
                    1int
                } else {
                    0
                };
                let again = step.actions[at];
                &&& !step.session.channels.contains_key(channel_id)
                &&& known ==> step.actions[0] == (ActionV::RemoveBuffer {
                    name: s.channels[channel_id].name,
                })
                &&& again is RegisterGuilds
                &&& again->RegisterGuilds_guilds.len() == 1
                &&& again->RegisterGuilds_guilds[0].at("channels"@) == JsonV::List(seq![d])
                &&& key != "channels"@ ==> again->RegisterGuilds_guilds[0].get(key) == guild.get(
                    key,
                )
                &&& step.actions[at + 1] == ActionV::ApplyMutes
                &&& kind == Dispatch::ChannelUpdate ==> step.actions.len() == at + 3
                    && step.actions[at + 2] == (ActionV::Resync { guild_id })
                &&& kind != Dispatch::ChannelUpdate ==> step.actions.len() == at + 2
            }
        }),
{
    if s.guilds.contains_key(guild_id) {
        law_set_then_read(
            s.guilds[guild_id],
            "channels"@,
            JsonV::List(seq![d]),
            key,
        );
    }
}

/// A channel of no server is a direct conversation, and is opened as one; a channel of a server goes to
/// that server, by the id that the dispatch gives for the channel and else by its own.
pub proof fn law_a_channel_goes_where_it_belongs(s: SessionV, kind: Dispatch, d: JsonV)
    ensures
        ({
            let step = channel_step(s, kind, d);
            let given = d.at("channel_id"@);
            let own = d.at("id"@);
            let id = if given is Str {
                given
            } else {
                own
            };
            &&& !(id is Str) ==> step.session == s && step.actions.len() == 0
            &&& id is Str && d.at("guild_id"@) is Str ==> step == guild_channel_step(
                s,
                kind,
                d,
                id->Str_0,
                d.at("guild_id"@)->Str_0,
            )
            &&& id is Str && !(d.at("guild_id"@) is Str) ==> {
                let opened = dms_opened(seq![d], Map::empty(), s.channels);
                &&& step.session.channels == opened.1
                &&& step.session.guilds == s.guilds && step.session.resume == s.resume
                &&& step.actions == seq![
                    ActionV::OpenDms { plans: opened.0 },
                    ActionV::ApplyMutes,
                ]
            }
        }),
{
}

/// A server that is gone is forgotten, and told to be; one that is out of reach, or that is not named,
/// is not. Every other server is kept.
pub proof fn law_a_server_that_is_gone_is_forgotten(s: SessionV, d: JsonV, other: Seq<char>)
    ensures
        ({
            let step = guild_gone_step(s, d);
            let gone = d.at("id"@) is Str && d.at("unavailable"@) != JsonV::Bool(true);
            &&& !gone ==> step.session == s && step.actions.len() == 0
            &&& gone ==> {
                let id = d.at("id"@)->Str_0;
                &&& !step.session.guilds.contains_key(id)
                &&& other != id ==> step.session.guilds.contains_key(other)
                    == s.guilds.contains_key(other)
                &&& step.session.channels == s.channels && step.session.resume == s.resume
                &&& step.actions == seq![ActionV::GuildGone { guild_id: id }]
            }
        }),
{
}

/// Only a server that is kept is read again.
pub proof fn law_only_a_known_server_is_read_again(s: SessionV, guild_id: Option<Seq<char>>)
    ensures
        guild_id is Some && s.guilds.contains_key(guild_id->0) ==> resync_actions(s, guild_id)
            == seq![ActionV::Resync { guild_id: guild_id->0 }],
        !(guild_id is Some && s.guilds.contains_key(guild_id->0)) ==> resync_actions(
            s,
            guild_id,
        ).len() == 0,
{
}

/// A message that is numbered moves the count of a session that can be picked up to its number, and
/// changes nothing else of it; one without a number moves nothing.
pub proof fn law_the_count_follows_the_messages(s: SessionV, msg: JsonV)
    ensures
        ({
            let r = counted(s, msg);
            let n = msg.at("s"@).as_u64();
            &&& r.channels == s.channels && r.guilds == s.guilds
            &&& s.resume is None ==> r.resume is None
            &&& s.resume is Some ==> {
                &&& r.resume is Some
                &&& r.resume->0.session_id == s.resume->0.session_id
                &&& r.resume->0.url == s.resume->0.url
                &&& n is Some ==> r.resume->0.seq == n->0
                &&& n is None ==> r.resume->0.seq == s.resume->0.seq
            }
        }),
{
}

/// What a message leads to goes by its kind: a dispatch by what it is, a wish to reconnect and a session
/// that is no longer good by the end of the connection, an answer to a heartbeat by taking note of it, and
/// anything else by nothing.
pub proof fn law_messages_are_taken_by_kind(s: SessionV, me: MeV, msg: JsonV)
    ensures
        ({
            let (after, r) = taken(s, me, msg);
            let op = msg.at("op"@);
            &&& op == JsonV::Int(7) ==> r == Err::<Seq<ActionV>, Seq<char>>(
                "gateway requested a reconnect"@,
            ) && after == counted(s, msg)
            &&& op == JsonV::Int(9) ==> r == Err::<Seq<ActionV>, Seq<char>>(
                "session invalidated by gateway"@,
            ) && after.resume is None && after.channels == Map::<Seq<char>, KnownV>::empty()
                && after.guilds == Map::<Seq<char>, JsonV>::empty()
            &&& op == JsonV::Int(11) ==> r == Ok::<Seq<ActionV>, Seq<char>>(seq![ActionV::Acked])
                && after == counted(s, msg)
            &&& op == JsonV::Int(0) ==> r is Ok
            &&& op != JsonV::Int(0) && op != JsonV::Int(7) && op != JsonV::Int(9) && op
                != JsonV::Int(11) ==> r == Ok::<Seq<ActionV>, Seq<char>>(Seq::empty()) && after
                == counted(s, msg)
        }),
{
}

/// What is said of messages goes by its name, with the conversations that are registered, and leaves the
/// session as it was but for its count.
pub proof fn law_events_about_messages_go_by_name(s: SessionV, me: MeV, msg: JsonV)
    requires
        msg.at("op"@) == JsonV::Int(0),
    ensures
        msg.at("t"@) == JsonV::Str("MESSAGE_CREATE"@) ==> taken(s, me, msg).1 == Ok::<
            Seq<ActionV>,
            Seq<char>,
        >(message_created(s.channels, me, msg.at("d"@))),
        msg.at("t"@) == JsonV::Str("MESSAGE_UPDATE"@) ==> taken(s, me, msg).1 == Ok::<
            Seq<ActionV>,
            Seq<char>,
        >(message_updated(s.channels, me, msg.at("d"@))),
        msg.at("t"@) == JsonV::Str("MESSAGE_DELETE"@) ==> taken(s, me, msg).1 == Ok::<
            Seq<ActionV>,
            Seq<char>,
        >(messages_deleted(s.channels, msg.at("d"@), false)),
        msg.at("t"@) == JsonV::Str("MESSAGE_DELETE_BULK"@) ==> taken(s, me, msg).1 == Ok::<
            Seq<ActionV>,
            Seq<char>,
        >(messages_deleted(s.channels, msg.at("d"@), true)),
        msg.at("t"@) == JsonV::Str("MESSAGE_REACTION_ADD"@) ==> taken(s, me, msg).1 == Ok::<
            Seq<ActionV>,
            Seq<char>,
        >(reacted(s.channels, me, msg.at("d"@), true)),
        msg.at("t"@) == JsonV::Str("MESSAGE_REACTION_REMOVE"@) ==> taken(s, me, msg).1 == Ok::<
            Seq<ActionV>,
            Seq<char>,
        >(reacted(s.channels, me, msg.at("d"@), false)),
        msg.at("t"@) == JsonV::Str("MESSAGE_REACTION_REMOVE_ALL"@) ==> taken(s, me, msg).1 == Ok::<
            Seq<ActionV>,
            Seq<char>,
        >(reactions_cleared(s.channels, msg.at("d"@), false)),
        msg.at("t"@) == JsonV::Str("MESSAGE_REACTION_REMOVE_EMOJI"@) ==> taken(s, me, msg).1 == Ok::<
            Seq<ActionV>,
            Seq<char>,
        >(reactions_cleared(s.channels, msg.at("d"@), true)),
        msg.at("t"@) == JsonV::Str("TYPING_START"@) ==> taken(s, me, msg).1 == Ok::<
            Seq<ActionV>,
            Seq<char>,
        >(typing_started(s.channels, me, msg.at("d"@))),
        msg.at("t"@) == JsonV::Str("MESSAGE_ACK"@) ==> taken(s, me, msg).1 == Ok::<
            Seq<ActionV>,
            Seq<char>,
        >(read_elsewhere(s.channels, msg.at("d"@))),
        (msg.at("t"@) == JsonV::Str("MESSAGE_CREATE"@) || msg.at("t"@) == JsonV::Str("MESSAGE_UPDATE"@) || msg.at("t"@) == JsonV::Str("MESSAGE_DELETE"@) || msg.at("t"@) == JsonV::Str("MESSAGE_DELETE_BULK"@) || msg.at("t"@) == JsonV::Str("MESSAGE_REACTION_ADD"@) || msg.at("t"@) == JsonV::Str("MESSAGE_REACTION_REMOVE"@) || msg.at("t"@) == JsonV::Str("MESSAGE_REACTION_REMOVE_ALL"@) || msg.at("t"@) == JsonV::Str("MESSAGE_REACTION_REMOVE_EMOJI"@) || msg.at("t"@) == JsonV::Str("TYPING_START"@) || msg.at("t"@) == JsonV::Str("MESSAGE_ACK"@))
            ==> taken(s, me, msg).0 == counted(s, msg),
{
    super::actions::law_messages_are_told_apart();
}

/// What is said of servers, channels and threads goes by its name, on the session as it was counted.
pub proof fn law_events_about_channels_go_by_name(s: SessionV, me: MeV, msg: JsonV)
    requires
        msg.at("op"@) == JsonV::Int(0),
    ensures
        ({
            let now = counted(s, msg);
            let d = msg.at("d"@);
            let t = msg.at("t"@);
            let (after, r) = taken(s, me, msg);
            let step = StepV { session: after, actions: r->Ok_0 };
            &&& r is Ok
            &&& t == JsonV::Str("READY"@) ==> step == ready_step(now, me, d, msg.at("s"@).as_u64())
            &&& t == JsonV::Str("GUILD_CREATE"@) ==> step == guild_step(now, d)
            &&& t == JsonV::Str("GUILD_DELETE"@) ==> step == guild_gone_step(now, d)
            &&& t == JsonV::Str("CHANNEL_DELETE"@) || t == JsonV::Str("THREAD_DELETE"@) ==> step
                == gone_step(now, d)
            &&& t == JsonV::Str("CHANNEL_CREATE"@) ==> step == channel_step(
                now,
                Dispatch::ChannelCreate,
                d,
            )
            &&& t == JsonV::Str("CHANNEL_UPDATE"@) ==> step == channel_step(
                now,
                Dispatch::ChannelUpdate,
                d,
            )
            &&& t == JsonV::Str("THREAD_CREATE"@) ==> step == threads_step(
                now,
                Dispatch::ThreadCreate,
                d,
            )
            &&& t == JsonV::Str("THREAD_UPDATE"@) ==> step == threads_step(
                now,
                Dispatch::ThreadUpdate,
                d,
            )
            &&& t == JsonV::Str("THREAD_LIST_SYNC"@) ==> step == threads_step(
                now,
                Dispatch::ThreadListSync,
                d,
            )
            &&& t == JsonV::Str("GUILD_ROLE_CREATE"@) || t == JsonV::Str("GUILD_ROLE_UPDATE"@) || t
                == JsonV::Str("GUILD_ROLE_DELETE"@) ==> after == now && r->Ok_0 == resync_actions(
                now,
                d.at("guild_id"@).text(),
            )
            &&& t == JsonV::Str("GUILD_UPDATE"@) && !(d.at("guild_id"@) is Str) ==> after == now
                && r->Ok_0 == resync_actions(now, d.at("id"@).text())
            &&& t == JsonV::Str("GUILD_EMOJIS_UPDATE"@) && d.at("guild_id"@) is Str ==> after == now
                && r->Ok_0 == resync_actions(now, d.at("guild_id"@).text())
        }),
{
    super::actions::law_channels_and_servers_are_told_apart();
}

/// The conversations of channels that are held are forgotten, and no others.
pub proof fn law_only_held_conversations_are_forgotten(
    known: Map<Seq<char>, KnownV>,
    held: Seq<HeldV>,
    id: Seq<char>,
)
    ensures
        known_without(known, held).contains_key(id) <==> known.contains_key(id) && !exists|i: int|
            0 <= i < held.len() && (#[trigger] held[i]).channel_id == Some(id),
        known_without(known, held).contains_key(id) ==> known_without(known, held)[id] == known[id],
    decreases held.len(),
{
    if held.len() > 0 {
        let rest = held.drop_last();
        law_only_held_conversations_are_forgotten(known, rest, id);
        if exists|i: int| 0 <= i < rest.len() && (#[trigger] rest[i]).channel_id == Some(id) {
            let i = choose|i: int| 0 <= i < rest.len() && (#[trigger] rest[i]).channel_id == Some(id);
            assert(held[i].channel_id == Some(id));
        }
        if exists|i: int| 0 <= i < held.len() && (#[trigger] held[i]).channel_id == Some(id) {
            let i = choose|i: int| 0 <= i < held.len() && (#[trigger] held[i]).channel_id == Some(id);
            if i < rest.len() {
                assert(rest[i].channel_id == Some(id));
            }
        }
        assert(held[held.len() - 1] == held.last());
    }
}

/// A server that was read again has the channels that came, and the place that it had, and is otherwise as
/// it came; without a list of channels there is none.
pub proof fn law_a_reread_server_keeps_its_place(
    guild: JsonV,
    channels: JsonV,
    position: Option<int>,
    key: Seq<char>,
)
    requires
        guild is Object || guild is Null,
    ensures
        ({
            let r = reread_guild(guild, channels, position);
            &&& r is Some <==> channels is List
            &&& r is Some ==> {
                &&& r->0.at("channels"@) == channels
                &&& position is Some ==> r->0.at("position"@) == JsonV::Int(position->0)
                &&& key != "channels"@ && (key != "position"@ || position is None) ==> r->0.get(key)
                    == guild.get(key)
            }
        }),
{
    reveal_strlit("channels");
    reveal_strlit("position");
    assert("channels"@.len() == 8);
    assert("position"@.len() == 8);
    assert("channels"@[0] == 'c');
    assert("position"@[0] == 'p');
    law_set_then_read(guild, "channels"@, channels, key);
    let whole = guild.set("channels"@, channels);
    if position is Some {
        law_set_then_read(whole, "position"@, JsonV::Int(position->0), "channels"@);
        law_set_then_read(whole, "position"@, JsonV::Int(position->0), key);
    }
}

/// A heartbeat is due as often as the service asks, but not more often than every millisecond.
pub proof fn law_heartbeats_come_as_asked(hello: JsonV)
    ensures
        ({
            let asked = hello.at("d"@).at("heartbeat_interval"@).as_u64();
            &&& asked is Some && asked->0 >= 1 ==> interval_in(hello) == asked->0
            &&& asked is Some && asked->0 == 0 ==> interval_in(hello) == 1
            &&& asked is None ==> interval_in(hello) == 41_250
        }),
{
}

/// After every end but a dead login there is another try, after the wait that is named in what is told.
pub proof fn law_the_wait_is_told(ending: Ending, words: String, delay: u64)
    ensures
        ({
            &&& after_ending(Ending::Over, delay) == AfterwardsV::Retry(
                "gateway session ended"@ + " - reconnecting in "@ + decimal_text(delay as nat)
                    + "s..."@,
                delay,
            )
            &&& after_ending(Ending::Failed(words), delay) == AfterwardsV::Retry(
                words@ + " - reconnecting in "@ + decimal_text(delay as nat) + "s..."@,
                delay,
            )
            &&& after_ending(ending, delay) is Retry <==> !(ending is AuthFailed)
            &&& after_ending(ending, delay) matches AfterwardsV::Retry(_, after) ==> after == delay
        }),
{
}

/// Each wait is twice the one before, up to a minute.
pub proof fn law_waits_double(delay: u64)
    ensures
        delay < 30 ==> longer(delay) == 2 * delay,
        delay >= 30 ==> longer(delay) == 60,
{
}

/// Nobody tries again with a dead token: whoever holds it is sent to sign in anew.
pub proof fn law_a_dead_token_is_not_tried_again(delay: u64)
    ensures
        after_ending(Ending::AuthFailed, delay) == AfterwardsV::GiveUp(
            "Discord rejected this login (session revoked) - reconnect from the Accounts pane"@,
        ),
{
}

} // verus!
