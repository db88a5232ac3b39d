//! Sharing a screen into a voice channel or a call. A stream is a connection of its own beside the
//! one for voice, and comes about in two halves that arrive in either order.
use vstd::prelude::*;
use crate::json::{Json, JsonV, jopt, jstr, law_put_then_read, law_set_then_read, nothing};
use crate::text::{joined, law_splitting_is_undone_by_joining, lend, maybe, maybe_str, own, same, split, split_on, starts_with, texts};
use crate::text_map::TextMap;
use super::http::result_view;
use super::people::{filled, only_filled};

verus! {

/// Which stream this is: whose, and in which conversation.
#[derive(Debug, PartialEq, Eq)]
pub struct StreamKey {
    pub guild_id: Option<String>,
    pub channel_id: String,
    pub user_id: String,
}

pub struct StreamKeyV {
    pub guild_id: Option<Seq<char>>,
    pub channel_id: Seq<char>,
    pub user_id: Seq<char>,
}

impl View for StreamKey {
    type V = StreamKeyV;

    open spec fn view(&self) -> StreamKeyV {
        StreamKeyV {
            guild_id: maybe(self.guild_id),
            channel_id: self.channel_id@,
            user_id: self.user_id@,
        }
    }
}

impl StreamKeyV {
    /// The key as it is written: `guild:<guild>:<channel>:<user>` in a server, and
    /// `call:<channel>:<user>` in a direct conversation.
    pub open spec fn wire(self) -> Seq<char> {
        match self.guild_id {
            Some(g) => "guild"@ + seq![':'] + g + seq![':'] + self.channel_id + seq![':']
                + self.user_id,
            None => "call"@ + seq![':'] + self.channel_id + seq![':'] + self.user_id,
        }
    }
}

/// The key that a text is, where it is one: none of its parts may be empty.
pub open spec fn key_in(text: Seq<char>) -> Option<StreamKeyV> {
    let parts = split_on(text, ':');
    if parts.len() == 4 && parts[0] == "guild"@ && parts[1].len() > 0 && parts[2].len() > 0
        && parts[3].len() > 0 {
        Some(
            StreamKeyV { guild_id: Some(parts[1]), channel_id: parts[2], user_id: parts[3] },
        )
    } else if parts.len() == 3 && parts[0] == "call"@ && parts[1].len() > 0 && parts[2].len() > 0 {
        Some(StreamKeyV { guild_id: None, channel_id: parts[1], user_id: parts[2] })
    } else {
        None
    }
}

/// Whose stream a key names.
pub open spec fn owner_in(text: Seq<char>) -> Option<Seq<char>> {
    match key_in(text) {
        Some(k) => Some(k.user_id),
        None => None,
    }
}

impl StreamKey {
    pub fn to_wire(&self) -> (r: String)
        ensures
            r@ == self@.wire(),
    {
        proof {
            reveal_strlit(":");
            assert(":"@ =~= seq![':']);
        }
        let mut out = String::new();
        match &self.guild_id {
            Some(guild) => {
                out.append("guild");
                out.append(":");
                out.append(guild.as_str());
                assert(out@ =~= "guild"@ + seq![':'] + guild@);
            },
            None => {
                out.append("call");
                assert(out@ =~= "call"@);
            },
        }
        out.append(":");
        out.append(self.channel_id.as_str());
        out.append(":");
        out.append(self.user_id.as_str());
        out
    }

    /// Reads a key.
    pub fn parse(key: &str) -> (r: Option<StreamKey>)
        ensures
            match r {
                Some(k) => key_in(key@) == Some(k@),
                None => key_in(key@) is None,
            },
    {
        let parts = split(key, ':');
        proof {
            assert(texts(parts@).len() == parts@.len());
            assert forall|i: int| 0 <= i < parts@.len() implies #[trigger] texts(parts@)[i]
                == parts@[i]@ by {}
        }
        if parts.len() == 4 && same(parts[0].as_str(), "guild") && !parts[1].as_str().is_empty()
            && !parts[2].as_str().is_empty() && !parts[3].as_str().is_empty() {
            Some(
                StreamKey {
                    guild_id: Some(parts[1].clone()),
                    channel_id: parts[2].clone(),
                    user_id: parts[3].clone(),
                },
            )
        } else if parts.len() == 3 && same(parts[0].as_str(), "call") && !parts[1].as_str().is_empty()
            && !parts[2].as_str().is_empty() {
            Some(
                StreamKey {
                    guild_id: None,
                    channel_id: parts[1].clone(),
                    user_id: parts[2].clone(),
                },
            )
        } else {
            None
        }
    }

    /// Whose stream a key names.
    pub fn owner(key: &str) -> (r: Option<String>)
        ensures
            maybe(r) == owner_in(key@),
    {
        match StreamKey::parse(key) {
            Some(k) => Some(k.user_id),
            None => None,
        }
    }
}

proof fn lemma_no_split(a: Seq<char>, c: char)
    requires
        !a.contains(c),
    ensures
        split_on(a, c) == seq![a],
    decreases a.len(),
{
    if a.len() > 0 {
        assert forall|x: char| a.drop_last().contains(x) implies a.contains(x) by {
            let i = choose|i: int| 0 <= i < a.len() - 1 && a.drop_last()[i] == x;
            assert(a[i] == x);
        }
        lemma_no_split(a.drop_last(), c);
        assert(a.last() == a[a.len() - 1]);
        assert(a.drop_last().push(a.last()) =~= a);
        assert(split_on(a, c) =~= seq![a]);
    } else {
        assert(a =~= Seq::empty());
    }
}

proof fn lemma_split_last(s: Seq<char>, b: Seq<char>, c: char)
    requires
        !b.contains(c),
    ensures
        split_on(s + seq![c] + b, c) == split_on(s, c).push(b),
    decreases b.len(),
{
    let whole = s + seq![c] + b;
    if b.len() == 0 {
        assert(whole.drop_last() =~= s);
        assert(whole.last() == c);
        assert(b =~= Seq::empty());
    } else {
        assert forall|x: char| b.drop_last().contains(x) implies b.contains(x) by {
            let i = choose|i: int| 0 <= i < b.len() - 1 && b.drop_last()[i] == x;
            assert(b[i] == x);
        }
        lemma_split_last(s, b.drop_last(), c);
        assert(whole.drop_last() =~= s + seq![c] + b.drop_last());
        assert(b.last() == b[b.len() - 1]);
        assert(whole.last() == b.last());
        let before = split_on(s, c).push(b.drop_last());
        assert(before.drop_last() =~= split_on(s, c));
        assert(b.drop_last().push(b.last()) =~= b);
    }
}

/// A key is read back as it was written. Its parts hold no colon and none is empty.
pub proof fn law_keys_read_back(key: StreamKeyV)
    requires
        key.guild_id is Some ==> key.guild_id->0.len() > 0 && !key.guild_id->0.contains(':'),
        key.channel_id.len() > 0,
        !key.channel_id.contains(':'),
        key.user_id.len() > 0,
        !key.user_id.contains(':'),
    ensures
        key_in(key.wire()) == Some(key),
{
    reveal_strlit("guild");
    reveal_strlit("call");
    match key.guild_id {
        Some(g) => {
            lemma_no_split("guild"@, ':');
            lemma_split_last("guild"@, g, ':');
            lemma_split_last("guild"@ + seq![':'] + g, key.channel_id, ':');
            lemma_split_last(
                "guild"@ + seq![':'] + g + seq![':'] + key.channel_id,
                key.user_id,
                ':',
            );
        },
        None => {
            lemma_no_split("call"@, ':');
            lemma_split_last("call"@, key.channel_id, ':');
            lemma_split_last("call"@ + seq![':'] + key.channel_id, key.user_id, ':');
        },
    }
}

/// The gateway's operations on streams.
pub const OP_STREAM_CREATE: u64 = 18;

pub const OP_STREAM_DELETE: u64 = 19;

pub const OP_STREAM_WATCH: u64 = 20;

pub const OP_STREAM_PING: u64 = 21;

pub const OP_STREAM_SET_PAUSED: u64 = 22;

/// An operation on a stream, as it is sent.
pub open spec fn operation(op: u64, d: JsonV) -> JsonV {
    nothing().put("op"@, JsonV::Int(op as int)).put("d"@, d)
}

/// An operation, where the account is connected.
pub open spec fn when_connected(connected: bool, payload: JsonV) -> Result<JsonV, Seq<char>> {
    if connected {
        Ok(payload)
    } else {
        Err("account is not connected"@)
    }
}

fn send_operation(connected: bool, op: u64, d: Json) -> (r: Result<Json, String>)
    ensures
        result_view(r) == when_connected(connected, operation(op, d@)),
{
    if connected {
        Ok(Json::object().put("op", Json::Int(op as i128)).put("d", d))
    } else {
        Err("account is not connected".to_owned())
    }
}

/// What asks for a stream.
pub open spec fn stream_request(guild_id: Option<Seq<char>>, channel_id: Seq<char>) -> JsonV {
    operation(
        OP_STREAM_CREATE,
        nothing().put(
            "type"@,
            jstr(
                if guild_id is Some {
                    "guild"@
                } else {
                    "call"@
                },
            ),
        ).put("guild_id"@, jopt(guild_id)).put("channel_id"@, jstr(channel_id)).put(
            "preferred_region"@,
            JsonV::Null,
        ),
    )
}

/// Asks for a stream of this account's in a conversation.
pub fn start(connected: bool, guild_id: Option<&str>, channel_id: &str) -> (r: Result<Json, String>)
    ensures
        result_view(r) == when_connected(
            connected,
            stream_request(maybe_str(guild_id), channel_id@),
        ),
{
    let kind = if guild_id.is_some() {
        "guild"
    } else {
        "call"
    };
    let d = Json::object().put("type", Json::string(kind)).put("guild_id", Json::opt(guild_id)).put(
        "channel_id",
        Json::string(channel_id),
    ).put("preferred_region", Json::Null);
    send_operation(connected, OP_STREAM_CREATE, d)
}

/// Names a stream.
pub open spec fn named_stream(stream_key: Seq<char>) -> JsonV {
    nothing().put("stream_key"@, jstr(stream_key))
}

/// Stops broadcasting.
pub fn stop(connected: bool, stream_key: &str) -> (r: Result<Json, String>)
    ensures
        result_view(r) == when_connected(
            connected,
            operation(OP_STREAM_DELETE, named_stream(stream_key@)),
        ),
{
    let d = Json::object().put("stream_key", Json::string(stream_key));
    send_operation(connected, OP_STREAM_DELETE, d)
}

/// Says whether the picture is still moving.
pub fn set_paused(connected: bool, stream_key: &str, paused: bool) -> (r: Result<Json, String>)
    ensures
        result_view(r) == when_connected(
            connected,
            operation(
                OP_STREAM_SET_PAUSED,
                named_stream(stream_key@).put("paused"@, JsonV::Bool(paused)),
            ),
        ),
{
    let d = Json::object().put("stream_key", Json::string(stream_key)).put(
        "paused",
        Json::Bool(paused),
    );
    send_operation(connected, OP_STREAM_SET_PAUSED, d)
}

/// Asks to watch somebody else's stream.
pub fn watch(connected: bool, stream_key: &str) -> (r: Result<Json, String>)
    ensures
        result_view(r) == when_connected(
            connected,
            operation(OP_STREAM_WATCH, named_stream(stream_key@)),
        ),
{
    let d = Json::object().put("stream_key", Json::string(stream_key));
    send_operation(connected, OP_STREAM_WATCH, d)
}

/// Keeps a stream that this account watches alive.
pub fn ping(connected: bool, stream_key: &str) -> (r: Result<Json, String>)
    ensures
        result_view(r) == when_connected(
            connected,
            operation(OP_STREAM_PING, named_stream(stream_key@)),
        ),
{
    let d = Json::object().put("stream_key", Json::string(stream_key));
    send_operation(connected, OP_STREAM_PING, d)
}

/// What is known so far of a stream that is coming about.
#[derive(Debug, PartialEq, Eq)]
pub struct PendingStream {
    pub stream_key: Option<String>,
    pub rtc_server_id: Option<String>,
    pub endpoint: Option<String>,
    pub token: Option<String>,
    /// Whether the service says that the stream is paused.
    pub paused: bool,
}

pub struct PendingStreamV {
    pub stream_key: Option<Seq<char>>,
    pub rtc_server_id: Option<Seq<char>>,
    pub endpoint: Option<Seq<char>>,
    pub token: Option<Seq<char>>,
    pub paused: bool,
}

impl View for PendingStream {
    type V = PendingStreamV;

    open spec fn view(&self) -> PendingStreamV {
        PendingStreamV {
            stream_key: maybe(self.stream_key),
            rtc_server_id: maybe(self.rtc_server_id),
            endpoint: maybe(self.endpoint),
            token: maybe(self.token),
            paused: self.paused,
        }
    }
}

/// Nothing is known.
pub open spec fn no_stream() -> PendingStreamV {
    PendingStreamV {
        stream_key: None,
        rtc_server_id: None,
        endpoint: None,
        token: None,
        paused: false,
    }
}

/// What is said now, or what was known before where nothing is.
pub open spec fn newer<A>(said: Option<A>, known: Option<A>) -> Option<A> {
    match said {
        Some(a) => Some(a),
        None => known,
    }
}

impl PendingStreamV {
    /// Whether a connection can be opened.
    pub open spec fn complete(self) -> bool {
        self.stream_key is Some && self.endpoint is Some && self.token is Some
    }

    /// What is known once `d` has been read as well: what it does not mention stays. An empty
    /// endpoint mentions nothing.
    pub open spec fn absorbed(self, d: JsonV) -> PendingStreamV {
        PendingStreamV {
            stream_key: newer(d.at("stream_key"@).text(), self.stream_key),
            rtc_server_id: newer(d.at("rtc_server_id"@).text(), self.rtc_server_id),
            endpoint: newer(filled(d.at("endpoint"@).text()), self.endpoint),
            token: newer(d.at("token"@).text(), self.token),
            paused: match d.at("paused"@).flag() {
                Some(p) => p,
                None => self.paused,
            },
        }
    }
}

impl Default for PendingStream {
    fn default() -> (r: PendingStream)
        ensures
            r@ == no_stream(),
    {
        PendingStream {
            stream_key: None,
            rtc_server_id: None,
            endpoint: None,
            token: None,
            paused: false,
        }
    }
}

impl PendingStream {
    pub fn complete(&self) -> (r: bool)
        ensures
            r == self@.complete(),
    {
        self.stream_key.is_some() && self.endpoint.is_some() && self.token.is_some()
    }

    /// Takes in what a dispatch says of the stream.
    pub fn absorb(&mut self, d: &Json)
        ensures
            final(self)@ == old(self)@.absorbed(d@),
    {
        match d.at("stream_key").text() {
            Some(key) => {
                self.stream_key = Some(key.to_owned());
            },
            None => {},
        }
        match d.at("rtc_server_id").text() {
            Some(id) => {
                self.rtc_server_id = Some(id.to_owned());
            },
            None => {},
        }
        match only_filled(d.at("endpoint").text()) {
            Some(endpoint) => {
                self.endpoint = Some(endpoint.to_owned());
            },
            None => {},
        }
        match d.at("token").text() {
            Some(token) => {
                self.token = Some(token.to_owned());
            },
            None => {},
        }
        match d.at("paused").flag() {
            Some(paused) => {
                self.paused = paused;
            },
            None => {},
        }
    }

    /// The same again.
    pub fn copy(&self) -> (r: PendingStream)
        ensures
            r@ == self@,
    {
        PendingStream {
            stream_key: own(lend(&self.stream_key)),
            rtc_server_id: own(lend(&self.rtc_server_id)),
            endpoint: own(lend(&self.endpoint)),
            token: own(lend(&self.token)),
            paused: self.paused,
        }
    }
}

/// Whether two dispatches never say different things of the same field.
pub open spec fn agree<A>(a: Option<A>, b: Option<A>) -> bool {
    a is None || b is None || a == b
}

/// The two halves of a stream may arrive in either order: where they do not contradict each other
/// what is known after both is the same.
pub proof fn law_halves_in_either_order(held: PendingStreamV, a: JsonV, b: JsonV)
    requires
        agree(a.at("stream_key"@).text(), b.at("stream_key"@).text()),
        agree(a.at("rtc_server_id"@).text(), b.at("rtc_server_id"@).text()),
        agree(filled(a.at("endpoint"@).text()), filled(b.at("endpoint"@).text())),
        agree(a.at("token"@).text(), b.at("token"@).text()),
        agree(a.at("paused"@).flag(), b.at("paused"@).flag()),
    ensures
        held.absorbed(a).absorbed(b) == held.absorbed(b).absorbed(a),
{
}

/// A dispatch that mentions nothing changes nothing.
pub proof fn law_silence_changes_nothing(held: PendingStreamV, d: JsonV)
    requires
        d.at("stream_key"@).text() is None,
        d.at("rtc_server_id"@).text() is None,
        filled(d.at("endpoint"@).text()) is None,
        d.at("token"@).text() is None,
        d.at("paused"@).flag() is None,
    ensures
        held.absorbed(d) == held,
{
}

/// What is complete stays so, whatever is said next.
pub proof fn law_complete_stays_complete(held: PendingStreamV, d: JsonV)
    requires
        held.complete(),
    ensures
        held.absorbed(d).complete(),
{
}

/// Under what a stream of an account is kept.
pub open spec fn slot_of(account_id: Seq<char>, stream_key: Seq<char>) -> Seq<char> {
    account_id + "|"@ + stream_key
}

fn slot(account_id: &str, stream_key: &str) -> (r: String)
    ensures
        r@ == slot_of(account_id@, stream_key@),
{
    let mut out = account_id.to_owned();
    out.append("|");
    out.append(stream_key);
    out
}

/// What is told of a stream that somebody has.
pub open spec fn stream_notice(
    account_id: Seq<char>,
    stream_key: Seq<char>,
    mine: bool,
    d: JsonV,
) -> JsonV {
    nothing().put("accountId"@, jstr(account_id)).put("streamKey"@, jstr(stream_key)).put(
        "userId"@,
        jopt(owner_in(stream_key)),
    ).put("own"@, JsonV::Bool(mine)).put(
        "paused"@,
        match d.at("paused"@) {
            JsonV::Bool(b) => JsonV::Bool(b),
            _ => JsonV::Null,
        },
    ).put(
        "viewers"@,
        match d.at("viewer_ids"@) {
            JsonV::List(items) => JsonV::Int(items.len() as int),
            _ => JsonV::Null,
        },
    ).put("gone"@, JsonV::Bool(false))
}

/// Whether a stream is this account's own.
pub open spec fn is_own(stream_key: Seq<char>, user_id: Option<Seq<char>>) -> bool {
    match (owner_in(stream_key), user_id) {
        (Some(o), Some(u)) => o == u,
        _ => false,
    }
}

/// A connection to open for a stream.
#[derive(Debug, PartialEq, Eq)]
pub struct StreamConnection {
    pub endpoint: String,
    pub token: String,
    /// The server that the stream is on.
    pub server_id: String,
    /// The session that the voice connection made.
    pub session_id: String,
    pub user_id: String,
}

pub struct StreamConnectionV {
    pub endpoint: Seq<char>,
    pub token: Seq<char>,
    pub server_id: Seq<char>,
    pub session_id: Seq<char>,
    pub user_id: Seq<char>,
}

impl View for StreamConnection {
    type V = StreamConnectionV;

    open spec fn view(&self) -> StreamConnectionV {
        StreamConnectionV {
            endpoint: self.endpoint@,
            token: self.token@,
            server_id: self.server_id@,
            session_id: self.session_id@,
            user_id: self.user_id@,
        }
    }
}

/// The server that a stream is on: its own where it was named, and else that of its conversation.
pub open spec fn server_of(held: PendingStreamV, stream_key: Seq<char>) -> Seq<char> {
    match held.rtc_server_id {
        Some(id) => id,
        None => match key_in(stream_key) {
            Some(k) => match k.guild_id {
                Some(g) => g,
                None => k.channel_id,
            },
            None => Seq::empty(),
        },
    }
}

/// The connection to open for a stream of this account's, once both halves are there and the
/// account has a voice session.
pub open spec fn connection_for(
    held: PendingStreamV,
    stream_key: Seq<char>,
    session_id: Option<Seq<char>>,
    user_id: Option<Seq<char>>,
) -> Option<StreamConnectionV> {
    match (held.endpoint, held.token, session_id, user_id) {
        (Some(endpoint), Some(token), Some(session_id), Some(user_id)) => if held.stream_key is Some {
            Some(
                StreamConnectionV {
                    endpoint,
                    token,
                    server_id: server_of(held, stream_key),
                    session_id,
                    user_id,
                },
            )
        } else {
            None
        },
        _ => None,
    }
}

fn connect_with(
    held: &PendingStream,
    stream_key: &str,
    session_id: Option<&str>,
    user_id: Option<&str>,
) -> (r: Option<StreamConnection>)
    ensures
        match r {
            Some(c) => connection_for(
                held@,
                stream_key@,
                maybe_str(session_id),
                maybe_str(user_id),
            ) == Some(c@),
            None => connection_for(
                held@,
                stream_key@,
                maybe_str(session_id),
                maybe_str(user_id),
            ) is None,
        },
{
    if held.stream_key.is_none() {
        return None;
    }
    match (lend(&held.endpoint), lend(&held.token), session_id, user_id) {
        (Some(endpoint), Some(token), Some(session_id), Some(user_id)) => {
            let server_id = match lend(&held.rtc_server_id) {
                Some(id) => id.to_owned(),
                None => match StreamKey::parse(stream_key) {
                    Some(k) => match k.guild_id {
                        Some(g) => g,
                        None => k.channel_id,
                    },
                    None => String::new(),
                },
            };
            Some(
                StreamConnection {
                    endpoint: endpoint.to_owned(),
                    token: token.to_owned(),
                    server_id,
                    session_id: session_id.to_owned(),
                    user_id: user_id.to_owned(),
                },
            )
        },
        _ => None,
    }
}

/// The streams that are known of: those of this program's accounts that are coming about, and the
/// accounts that have a connection open for one.
pub struct Streams {
    pending: TextMap<PendingStream>,
    live: TextMap<bool>,
}

/// What is known of each stream that is coming about, by its slot.
pub open spec fn pending_views(m: Map<Seq<char>, PendingStream>) -> Map<Seq<char>, PendingStreamV> {
    m.map_values(|p: PendingStream| p@)
}

/// What a dispatch about a stream leads to.
#[derive(Debug, PartialEq, Eq)]
pub struct StreamStep {
    /// What to tell, where the dispatch named a stream.
    pub event: Option<Json>,
    /// The connection to open.
    pub connect: Option<StreamConnection>,
}

/// What is held of streams after a dispatch about the stream `key`.
pub open spec fn pending_after(
    before: Map<Seq<char>, PendingStreamV>,
    slot: Seq<char>,
    d: JsonV,
) -> Map<Seq<char>, PendingStreamV> {
    before.insert(
        slot,
        (if before.contains_key(slot) {
            before[slot]
        } else {
            no_stream()
        }).absorbed(d),
    )
}

impl Streams {
    /// What is held of the streams that are coming about.
    pub closed spec fn held_streams(&self) -> Map<Seq<char>, PendingStreamV> {
        pending_views(self.pending@)
    }

    /// The accounts that have a connection open for a stream.
    pub closed spec fn sending_accounts(&self) -> Set<Seq<char>> {
        self.live@.dom()
    }

    pub fn new() -> (r: Streams)
        ensures
            r.held_streams() == Map::<Seq<char>, PendingStreamV>::empty(),
            r.sending_accounts() == Set::<Seq<char>>::empty(),
    {
        let r = Streams { pending: TextMap::new(), live: TextMap::new() };
        assert(r.held_streams() =~= Map::<Seq<char>, PendingStreamV>::empty());
        assert(r.sending_accounts() =~= Set::<Seq<char>>::empty());
        r
    }

    /// Takes in a dispatch about a stream. Everybody's is told of; only this account's own has a
    /// connection to open.
    pub fn note_stream(
        &mut self,
        account_id: &str,
        user_id: Option<&str>,
        session_id: Option<&str>,
        d: &Json,
    ) -> (r: StreamStep)
        ensures
            final(self).sending_accounts() == old(self).sending_accounts(),
            match d@.at("stream_key"@).text() {
                None => {
                    &&& r.event is None
                    &&& r.connect is None
                    &&& final(self).held_streams() == old(self).held_streams()
                },
                Some(key) => {
                    let slot = slot_of(account_id@, key);
                    let mine = is_own(key, maybe_str(user_id));
                    &&& r.event matches Some(e) && e@ == stream_notice(account_id@, key, mine, d@)
                    &&& mine ==> {
                        let after = pending_after(old(self).held_streams(), slot, d@);
                        &&& final(self).held_streams() == after
                        &&& match r.connect {
                            Some(c) => connection_for(
                                after[slot],
                                key,
                                maybe_str(session_id),
                                maybe_str(user_id),
                            ) == Some(c@),
                            None => connection_for(
                                after[slot],
                                key,
                                maybe_str(session_id),
                                maybe_str(user_id),
                            ) is None,
                        }
                    }
                    &&& !mine ==> r.connect is None && final(self).held_streams() == old(
                        self,
                    ).held_streams()
                },
            },
    {
        let stream_key = match d.at("stream_key").text() {
            Some(key) => key,
            None => {
                return StreamStep { event: None, connect: None };
            },
        };
        let owner = StreamKey::owner(stream_key);
        let mine = match (lend(&owner), user_id) {
            (Some(o), Some(u)) => same(o, u),
            _ => false,
        };
        let paused = match d.at("paused").flag() {
            Some(p) => Json::Bool(p),
            None => Json::Null,
        };
        let viewers = match d.at("viewer_ids").list_items() {
            Some(items) => Json::Int(items.len() as i128),
            None => Json::Null,
        };
        let event = Json::object().put("accountId", Json::string(account_id)).put(
            "streamKey",
            Json::string(stream_key),
        ).put("userId", Json::opt(lend(&owner))).put("own", Json::Bool(mine)).put(
            "paused",
            paused,
        ).put("viewers", viewers).put("gone", Json::Bool(false));
        if !mine {
            return StreamStep { event: Some(event), connect: None };
        }
        let place = slot(account_id, stream_key);
        let mut entry = match self.pending.get(place.as_str()) {
            Some(p) => p.copy(),
            None => PendingStream::default(),
        };
        entry.absorb(d);
        let connect = connect_with(&entry, stream_key, session_id, user_id);
        let ghost before = self.pending@;
        self.pending.insert(place.as_str(), entry);
        proof {
            assert(self.held_streams() =~= pending_after(
                pending_views(before),
                slot_of(account_id@, stream_key@),
                d@,
            ));
        }
        StreamStep { event: Some(event), connect }
    }

    /// A connection has been opened: what to tell, and that the picture is to be let through,
    /// since a stream that nobody watches starts paused.
    pub fn stream_ready(&mut self, account_id: &str, stream_key: &str, connected: bool) -> (r: (
        Json,
        Result<Json, String>,
    ))
        ensures
            final(self).held_streams() == old(self).held_streams(),
            final(self).sending_accounts() == old(self).sending_accounts().insert(account_id@),
            r.0@ == nothing().put("accountId"@, jstr(account_id@)).put(
                "streamKey"@,
                jstr(stream_key@),
            ).put("own"@, JsonV::Bool(true)).put("ready"@, JsonV::Bool(true)),
            result_view(r.1) == when_connected(
                connected,
                operation(
                    OP_STREAM_SET_PAUSED,
                    named_stream(stream_key@).put("paused"@, JsonV::Bool(false)),
                ),
            ),
    {
        self.live.insert(account_id, true);
        assert(self.sending_accounts() =~= old(self).sending_accounts().insert(account_id@));
        let event = Json::object().put("accountId", Json::string(account_id)).put(
            "streamKey",
            Json::string(stream_key),
        ).put("own", Json::Bool(true)).put("ready", Json::Bool(true));
        (event, set_paused(connected, stream_key, false))
    }

    /// Whether an account has a connection that frames can be sent on.
    pub fn sending(&self, account_id: &str) -> (r: bool)
        ensures
            r == self.sending_accounts().contains(account_id@),
    {
        self.live.contains(account_id)
    }

    /// Whether a frame can be sent.
    pub fn send_frame(&self, account_id: &str) -> (r: Result<(), String>)
        ensures
            match r {
                Ok(_) => self.sending_accounts().contains(account_id@),
                Err(e) => !self.sending_accounts().contains(account_id@) && e@
                    == "no stream is running for this account"@,
            },
    {
        if self.sending(account_id) {
            Ok(())
        } else {
            Err("no stream is running for this account".to_owned())
        }
    }

    /// Forgets an account's connection; says whether there was one to close.
    pub fn close(&mut self, account_id: &str) -> (r: bool)
        ensures
            r == old(self).sending_accounts().contains(account_id@),
            final(self).sending_accounts() == old(self).sending_accounts().remove(account_id@),
            final(self).held_streams() == old(self).held_streams(),
    {
        let had = self.live.remove(account_id).is_some();
        assert(self.sending_accounts() =~= old(self).sending_accounts().remove(account_id@));
        had
    }

    /// A stream has ended: what to tell, where one was named.
    pub fn note_stream_gone(&mut self, account_id: &str, d: &Json) -> (r: Option<Json>)
        ensures
            final(self).sending_accounts() == old(self).sending_accounts(),
            match (d@.at("stream_key"@).text(), r) {
                (Some(key), Some(event)) => {
                    &&& final(self).held_streams() == old(self).held_streams().remove(
                        slot_of(account_id@, key),
                    )
                    &&& event@ == nothing().put("accountId"@, jstr(account_id@)).put(
                        "streamKey"@,
                        jstr(key),
                    ).put("userId"@, jopt(owner_in(key))).put("gone"@, JsonV::Bool(true))
                },
                (None, None) => final(self).held_streams() == old(self).held_streams(),
                _ => false,
            },
    {
        let stream_key = match d.at("stream_key").text() {
            Some(key) => key,
            None => {
                return None;
            },
        };
        let place = slot(account_id, stream_key);
        let ghost before = self.pending@;
        let _ = self.pending.remove(place.as_str());
        proof {
            assert(self.held_streams() =~= pending_views(before).remove(place@));
        }
        let owner = StreamKey::owner(stream_key);
        Some(
            Json::object().put("accountId", Json::string(account_id)).put(
                "streamKey",
                Json::string(stream_key),
            ).put("userId", Json::opt(lend(&owner))).put("gone", Json::Bool(true)),
        )
    }

    /// What is known of one of an account's streams.
    pub fn held(&self, account_id: &str, stream_key: &str) -> (r: Option<PendingStream>)
        ensures
            match r {
                Some(p) => self.held_streams().contains_key(slot_of(account_id@, stream_key@))
                    && self.held_streams()[slot_of(account_id@, stream_key@)] == p@,
                None => !self.held_streams().contains_key(slot_of(account_id@, stream_key@)),
            },
    {
        let place = slot(account_id, stream_key);
        match self.pending.get(place.as_str()) {
            Some(p) => Some(p.copy()),
            None => None,
        }
    }

    /// Forgets everything of an account; says whether there was a connection to close.
    pub fn forget(&mut self, account_id: &str) -> (r: bool)
        ensures
            r == old(self).sending_accounts().contains(account_id@),
            final(self).sending_accounts() == old(self).sending_accounts().remove(account_id@),
            final(self).held_streams() == without(
                old(self).held_streams(),
                account_id@ + "|"@,
            ),
    {
        let prefix = account_id.to_owned().concat("|");
        let ghost all = self.pending@;
        let mut kept: TextMap<PendingStream> = TextMap::new();
        let mut i: usize = 0;
        let n: usize = self.pending.len();
        let ghost order = self.pending.order();
        while i < n
            invariant
                i <= n,
                n == order.len(),
                order == self.pending.order(),
                all == self.pending@,
                prefix@ == account_id@ + "|"@,
                order.no_duplicates(),
                forall|k: Seq<char>| #[trigger]
                    pending_views(kept@).contains_key(k) <==> !prefix@.is_prefix_of(k) && exists|
                        j: int,
                    | 0 <= j < i && #[trigger] order[j] == k,
                forall|k: Seq<char>| #[trigger]
                    pending_views(kept@).contains_key(k) ==> all.contains_key(k) && pending_views(
                        kept@,
                    )[k] == all[k]@,
            decreases n - i,
        {
            let key = self.pending.key(i);
            if !starts_with(key, prefix.as_str()) {
                let value = self.pending.value(i).copy();
                let ghost before = kept@;
                kept.insert(key, value);
                assert(pending_views(kept@) =~= pending_views(before).insert(key@, value@));
            }
            i += 1;
        }
        let had = self.live.remove(account_id).is_some();
        proof {
            assert forall|k: Seq<char>| all.contains_key(k) implies exists|j: int|
                0 <= j < n && #[trigger] order[j] == k by {
                assert(order.contains(k));
            }
            assert(pending_views(kept@) =~= without(pending_views(all), prefix@));
        }
        self.pending = kept;
        assert(self.sending_accounts() =~= old(self).sending_accounts().remove(account_id@));
        had
    }
}

/// What is held under slots that do not start with `prefix`.
pub open spec fn without(m: Map<Seq<char>, PendingStreamV>, prefix: Seq<char>) -> Map<
    Seq<char>,
    PendingStreamV,
> {
    Map::new(
        |k: Seq<char>| m.contains_key(k) && !prefix.is_prefix_of(k),
        |k: Seq<char>| m[k],
    )
}

/// A connection could not be opened: what to tell.
pub fn stream_failed(account_id: &str, stream_key: &str, error: &str) -> (r: Json)
    ensures
        r@ == nothing().put("accountId"@, jstr(account_id@)).put("streamKey"@, jstr(stream_key@)).put(
            "own"@,
            JsonV::Bool(true),
        ).put("error"@, jstr(error@)),
{
    Json::object().put("accountId", Json::string(account_id)).put(
        "streamKey",
        Json::string(stream_key),
    ).put("own", Json::Bool(true)).put("error", Json::string(error))
}

/// Whatever was known of an account's streams is gone once it is forgotten.
pub proof fn law_forgotten_is_gone(
    held: Map<Seq<char>, PendingStreamV>,
    account_id: Seq<char>,
    stream_key: Seq<char>,
)
    ensures
        !without(held, account_id + "|"@).contains_key(slot_of(account_id, stream_key)),
{
    let prefix = account_id + "|"@;
    assert(prefix.is_prefix_of(slot_of(account_id, stream_key))) by {
        assert(slot_of(account_id, stream_key).subrange(0, prefix.len() as int) =~= prefix);
    }
}

/// A value with one secret taken out, where it has it.
pub open spec fn hidden(value: JsonV, key: Seq<char>) -> JsonV {
    if value.get(key) is Some {
        value.set(key, jstr("<redacted>"@))
    } else {
        value
    }
}

/// A dispatch with its secrets taken out. Each is replaced, so that it still shows that there was
/// one.
pub open spec fn without_secrets(d: JsonV) -> JsonV {
    hidden(hidden(d, "token"@), "access_token"@)
}

fn blank_out(value: Json, key: &str) -> (r: Json)
    ensures
        r@ == hidden(value@, key@),
{
    if value.get(key).is_some() {
        value.set(key, Json::string("<redacted>"))
    } else {
        value
    }
}

/// A dispatch with its secrets taken out, as text.
pub fn redacted(d: &Json) -> (r: String)
    ensures
        r@ == crate::json::json_text(without_secrets(d@)),
{
    blank_out(blank_out(d.copy(), "token"), "access_token").write()
}

/// Neither secret is left, and what is not a secret is untouched.
pub proof fn law_no_secret_is_left(d: JsonV, key: Seq<char>)
    ensures
        key == "token"@ || key == "access_token"@ ==> without_secrets(d).get(key) is None
            || without_secrets(d).get(key) == Some(jstr("<redacted>"@)),
        key != "token"@ && key != "access_token"@ ==> without_secrets(d).get(key) == d.get(key),
{
    let once = hidden(d, "token"@);
    if d.get("token"@) is Some {
        law_set_then_read(d, "token"@, jstr("<redacted>"@), key);
        law_set_then_read(d, "token"@, jstr("<redacted>"@), "token"@);
    }
    if once.get("access_token"@) is Some {
        law_set_then_read(once, "access_token"@, jstr("<redacted>"@), key);
    }
}

/// A stream is asked for in a server or in a call, by whether there is a server, and in its channel; an
/// account that is not connected asks for nothing.
pub proof fn law_a_stream_is_asked_for_in_its_channel(
    connected: bool,
    guild_id: Option<Seq<char>>,
    channel_id: Seq<char>,
)
    ensures
        ({
            let j = stream_request(guild_id, channel_id);
            let r = when_connected(connected, j);
            &&& r is Ok <==> connected
            &&& r is Ok ==> r->Ok_0 == j
            &&& r is Err ==> r->Err_0 == "account is not connected"@
            &&& j.at("op"@) == JsonV::Int(18)
            &&& guild_id is Some ==> j.at("d"@).at("type"@) == JsonV::Str("guild"@)
            &&& guild_id is None ==> j.at("d"@).at("type"@) == JsonV::Str("call"@)
            &&& j.at("d"@).at("guild_id"@).text() == guild_id
            &&& j.at("d"@).at("channel_id"@) == JsonV::Str(channel_id)
            &&& j.at("d"@).get("preferred_region"@) == Some(JsonV::Null)
        }),
{
    broadcast use law_put_then_read;

    reveal_strlit("op");
    reveal_strlit("d");
    reveal_strlit("type");
    reveal_strlit("guild_id");
    reveal_strlit("channel_id");
    reveal_strlit("preferred_region");
    assert("op"@.len() == 2);
    assert("d"@.len() == 1);
    assert("type"@.len() == 4);
    assert("guild_id"@.len() == 8);
    assert("channel_id"@.len() == 10);
    assert("preferred_region"@.len() == 16);
}

/// Every operation on a stream has a number of its own and names the stream; a stream is paused and let
/// run by one of them.
pub proof fn law_operations_name_their_stream(stream_key: Seq<char>, paused: bool, op: u64)
    ensures
        ({
            let j = operation(op, named_stream(stream_key));
            let k = operation(op, named_stream(stream_key).put("paused"@, JsonV::Bool(paused)));
            &&& j.at("op"@) == JsonV::Int(op as int)
            &&& j.at("d"@).at("stream_key"@) == JsonV::Str(stream_key)
            &&& k.at("d"@).at("stream_key"@) == JsonV::Str(stream_key)
            &&& k.at("d"@).at("paused"@) == JsonV::Bool(paused)
        }),
        OP_STREAM_DELETE == 19,
        OP_STREAM_WATCH == 20,
        OP_STREAM_PING == 21,
        OP_STREAM_SET_PAUSED == 22,
{
    broadcast use law_put_then_read;

    reveal_strlit("op");
    reveal_strlit("d");
    reveal_strlit("stream_key");
    reveal_strlit("paused");
    assert("op"@.len() == 2);
    assert("d"@.len() == 1);
    assert("stream_key"@.len() == 10);
    assert("paused"@.len() == 6);
}

/// What a dispatch says of a stream is known from then on, each thing that it says and nothing else; an
/// empty endpoint says nothing.
pub proof fn law_what_is_said_of_a_stream_is_known(held: PendingStreamV, d: JsonV)
    ensures
        ({
            let after = held.absorbed(d);
            &&& d.at("stream_key"@) is Str ==> after.stream_key == d.at("stream_key"@).text()
            &&& !(d.at("stream_key"@) is Str) ==> after.stream_key == held.stream_key
            &&& d.at("rtc_server_id"@) is Str ==> after.rtc_server_id == d.at(
                "rtc_server_id"@,
            ).text()
            &&& !(d.at("rtc_server_id"@) is Str) ==> after.rtc_server_id == held.rtc_server_id
            &&& d.at("endpoint"@).text_or_empty().len() > 0 ==> after.endpoint == d.at(
                "endpoint"@,
            ).text()
            &&& d.at("endpoint"@).text_or_empty().len() == 0 ==> after.endpoint == held.endpoint
            &&& d.at("token"@) is Str ==> after.token == d.at("token"@).text()
            &&& !(d.at("token"@) is Str) ==> after.token == held.token
            &&& d.at("paused"@) is Bool ==> after.paused == (d.at("paused"@) == JsonV::Bool(true))
            &&& !(d.at("paused"@) is Bool) ==> after.paused == held.paused
        }),
{
}

/// Of a stream that nothing is known of there is neither a key, a server, an endpoint nor a token, and a
/// connection can be opened once there are all of these but the server.
pub proof fn law_a_connection_needs_both_halves(held: PendingStreamV)
    ensures
        no_stream().stream_key is None && no_stream().rtc_server_id is None
            && no_stream().endpoint is None && no_stream().token is None && !no_stream().paused,
        held.complete() <==> held.stream_key is Some && held.endpoint is Some && held.token is Some,
{
}

/// What is told of a stream names the account and the stream, says whose it is and whether it is this
/// account's own, whether it rests and how many watch, as far as is said, and that it is not gone.
pub proof fn law_a_stream_is_told_whole(
    account_id: Seq<char>,
    stream_key: Seq<char>,
    mine: bool,
    d: JsonV,
)
    ensures
        ({
            let j = stream_notice(account_id, stream_key, mine, d);
            &&& j.at("accountId"@) == JsonV::Str(account_id)
            &&& j.at("streamKey"@) == JsonV::Str(stream_key)
            &&& j.at("userId"@).text() == owner_in(stream_key)
            &&& j.at("own"@) == JsonV::Bool(mine)
            &&& d.at("paused"@) is Bool ==> j.at("paused"@) == d.at("paused"@)
            &&& !(d.at("paused"@) is Bool) ==> j.at("paused"@) is Null
            &&& d.at("viewer_ids"@) is List ==> j.at("viewers"@) == JsonV::Int(
                d.at("viewer_ids"@).items().len() as int,
            )
            &&& !(d.at("viewer_ids"@) is List) ==> j.at("viewers"@) is Null
            &&& j.at("gone"@) == JsonV::Bool(false)
        }),
{
    broadcast use law_put_then_read;

    reveal_strlit("accountId");
    reveal_strlit("streamKey");
    reveal_strlit("userId");
    reveal_strlit("own");
    reveal_strlit("paused");
    reveal_strlit("viewers");
    reveal_strlit("gone");
    assert("accountId"@.len() == 9);
    assert("streamKey"@.len() == 9);
    assert("userId"@.len() == 6);
    assert("own"@.len() == 3);
    assert("paused"@.len() == 6);
    assert("viewers"@.len() == 7);
    assert("gone"@.len() == 4);
    assert("accountId"@[0] == 'a');
    assert("streamKey"@[0] == 's');
    assert("paused"@[0] == 'p');
    assert("userId"@[0] == 'u');
}

/// A stream is this account's own where its key names this account's user.
pub proof fn law_a_stream_is_its_owners(key: StreamKeyV, user_id: Seq<char>)
    ensures
        key_in(key.wire()) == Some(key) ==> {
            &&& owner_in(key.wire()) == Some(key.user_id)
            &&& is_own(key.wire(), Some(user_id)) == (key.user_id == user_id)
            &&& !is_own(key.wire(), None)
        },
{
}

/// A stream is on the server that was named for it; where none was, on that of its server or, in a call,
/// on that of its channel.
pub proof fn law_a_stream_is_on_its_server(held: PendingStreamV, stream_key: Seq<char>)
    ensures
        ({
            let key = key_in(stream_key);
            &&& held.rtc_server_id is Some ==> server_of(held, stream_key) == held.rtc_server_id->0
            &&& held.rtc_server_id is None && key is Some && key->0.guild_id is Some ==> server_of(
                held,
                stream_key,
            ) == key->0.guild_id->0
            &&& held.rtc_server_id is None && key is Some && key->0.guild_id is None ==> server_of(
                held,
                stream_key,
            ) == key->0.channel_id
            &&& held.rtc_server_id is None && key is None ==> server_of(held, stream_key).len() == 0
        }),
{
}

/// A connection is opened once both halves of a stream are there and the account has a session and a
/// user: to the endpoint, with the token, of just these.
pub proof fn law_a_connection_is_opened_with_what_is_held(
    held: PendingStreamV,
    stream_key: Seq<char>,
    session_id: Option<Seq<char>>,
    user_id: Option<Seq<char>>,
)
    ensures
        ({
            let r = connection_for(held, stream_key, session_id, user_id);
            &&& r is Some <==> held.stream_key is Some && held.endpoint is Some && held.token is Some
                && session_id is Some && user_id is Some
            &&& r is Some ==> {
                &&& r->0.endpoint == held.endpoint->0
                &&& r->0.token == held.token->0
                &&& r->0.server_id == server_of(held, stream_key)
                &&& r->0.session_id == session_id->0
                &&& r->0.user_id == user_id->0
            }
        }),
{
}

/// What is said of one stream changes what is held of that stream alone, beginning with nothing.
pub proof fn law_streams_are_held_apart(
    before: Map<Seq<char>, PendingStreamV>,
    slot: Seq<char>,
    d: JsonV,
    other: Seq<char>,
)
    ensures
        ({
            let after = pending_after(before, slot, d);
            &&& after.contains_key(slot)
            &&& before.contains_key(slot) ==> after[slot] == before[slot].absorbed(d)
            &&& !before.contains_key(slot) ==> after[slot] == no_stream().absorbed(d)
            &&& other != slot ==> after.contains_key(other) == before.contains_key(other) && (
            before.contains_key(other) ==> after[other] == before[other])
        }),
{
}

/// The streams of one account are kept apart by their keys, and one key's by their accounts.
pub proof fn law_every_stream_has_its_own_slot(
    account: Seq<char>,
    other: Seq<char>,
    key: Seq<char>,
    other_key: Seq<char>,
)
    ensures
        slot_of(account, key) == account + "|"@ + key,
        slot_of(account, key) == slot_of(account, other_key) ==> key == other_key,
        slot_of(account, key) == slot_of(other, key) ==> account == other,
        (account + "|"@).is_prefix_of(slot_of(account, key)),
{
    let bar = "|"@;
    assert((account + bar + key).subrange(0, (account + bar).len() as int) =~= account + bar);
    if slot_of(account, key) == slot_of(account, other_key) {
        let n = (account + bar).len() as int;
        assert((account + bar + key).skip(n) =~= key);
        assert((account + bar + other_key).skip(n) =~= other_key);
    }
    if slot_of(account, key) == slot_of(other, key) {
        assert((account + bar + key).len() == (other + bar + key).len());
        assert((account + bar + key).take(account.len() as int) =~= account);
        assert((other + bar + key).take(other.len() as int) =~= other);
    }
}

/// Forgetting an account takes away what is held under its slots and leaves the rest.
pub proof fn law_only_the_accounts_streams_are_forgotten(
    m: Map<Seq<char>, PendingStreamV>,
    prefix: Seq<char>,
    slot: Seq<char>,
)
    ensures
        without(m, prefix).contains_key(slot) <==> m.contains_key(slot) && !prefix.is_prefix_of(
            slot,
        ),
        without(m, prefix).contains_key(slot) ==> without(m, prefix)[slot] == m[slot],
{
}

/// A secret that was there still shows that it was, and one that was not does not come about.
pub proof fn law_a_secret_is_replaced_not_dropped(d: JsonV)
    ensures
        without_secrets(d).get("token"@) is Some <==> d.get("token"@) is Some,
        without_secrets(d).get("access_token"@) is Some <==> d.get("access_token"@) is Some,
        d.get("token"@) is Some ==> without_secrets(d).at("token"@) == JsonV::Str("<redacted>"@),
{
    reveal_strlit("token");
    reveal_strlit("access_token");
    assert("token"@.len() == 5);
    assert("access_token"@.len() == 12);
    let mark = jstr("<redacted>"@);
    let once = hidden(d, "token"@);
    if d.get("token"@) is Some {
        law_set_then_read(d, "token"@, mark, "access_token"@);
    }
    if once.get("access_token"@) is Some {
        law_set_then_read(once, "access_token"@, mark, "token"@);
    }
}

/// Nothing but a written key is read as one: what is read from a text gives the text back, and each of
/// its parts holds something and no colon.
pub proof fn law_only_what_was_written_is_a_key(text: Seq<char>)
    ensures
        key_in(text) matches Some(key) ==> {
            &&& key.wire() == text
            &&& key.guild_id is Some ==> key.guild_id->0.len() > 0 && !key.guild_id->0.contains(':')
            &&& key.channel_id.len() > 0 && !key.channel_id.contains(':')
            &&& key.user_id.len() > 0 && !key.user_id.contains(':')
        },
{
    law_splitting_is_undone_by_joining(text, ':');
    let parts = split_on(text, ':');
    reveal_with_fuel(joined, 5);
    if key_in(text) is Some {
        assert(parts.drop_last().drop_last() =~= parts.take(parts.len() - 2));
        assert(key_in(text)->0.wire() =~= text);
    }
}

} // verus!
