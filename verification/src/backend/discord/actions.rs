//! What the gateway says: the kinds of dispatch there are, and what is to be done about one.
use vstd::prelude::*;
use crate::json::{Json, JsonV};
use crate::model::{Attachment, AttachmentV, Embed, EmbedV, ReplyPreview, ReplyPreviewV, maybe_reply};
use crate::text::{maybe, same, texts, views};
use super::conversations::{DmPlan, DmPlanV};

verus! {

/// A message that just came in.
#[derive(Debug, PartialEq, Eq)]
pub struct Incoming {
    pub from: String,
    pub body: String,
    pub reply_to: Option<ReplyPreview>,
    pub id: Option<String>,
    pub is_mention: bool,
    pub avatar_url: Option<String>,
    pub embeds: Vec<Embed>,
    pub attachments: Vec<Attachment>,
    pub author_id: Option<String>,
}

pub struct IncomingV {
    pub from: Seq<char>,
    pub body: Seq<char>,
    pub reply_to: Option<ReplyPreviewV>,
    pub id: Option<Seq<char>>,
    pub is_mention: bool,
    pub avatar_url: Option<Seq<char>>,
    pub embeds: Seq<EmbedV>,
    pub attachments: Seq<AttachmentV>,
    pub author_id: Option<Seq<char>>,
}

impl View for Incoming {
    type V = IncomingV;

    open spec fn view(&self) -> IncomingV {
        IncomingV {
            from: self.from@,
            body: self.body@,
            reply_to: maybe_reply(self.reply_to),
            id: maybe(self.id),
            is_mention: self.is_mention,
            avatar_url: maybe(self.avatar_url),
            embeds: views(self.embeds@),
            attachments: views(self.attachments@),
            author_id: maybe(self.author_id),
        }
    }
}

/// Something to be done about what the gateway said.
#[allow(inconsistent_fields)]
#[derive(Debug, PartialEq, Eq)]
pub enum Action {
    /// A heartbeat was answered.
    Acked,
    /// What this account is called.
    Identity { name: String },
    /// Whether the emoji of this account may be used anywhere.
    Nitro { unrestricted: bool },
    /// The session that interactions have to name.
    Session { session_id: String },
    /// The picture of this account.
    Avatar { url: String },
    /// What this account has silenced.
    GuildSettings { settings: Json },
    /// The friends of this account.
    Friends { rows: Vec<Json> },
    /// Direct conversations to open.
    OpenDms { plans: Vec<DmPlan> },
    /// The direct conversations are to be caught up with.
    CatchUpDms,
    /// The connection stands.
    Connected,
    /// Servers whose channels are to be registered.
    RegisterGuilds { guilds: Vec<Json> },
    /// The whole list of direct conversations is to be asked for. Who is around is as the session
    /// said when it started.
    FetchDms { presences: Json },
    /// What is silenced is to be applied to the conversations that there are.
    ApplyMutes,
    /// The roles of a server.
    GuildRoles { guild_id: String, roles: Vec<Json> },
    /// A conversation that is gone, by its name.
    RemoveBuffer { name: String },
    /// A server is to be read again.
    Resync { guild_id: String },
    /// Somebody is writing; what they are called may have to be looked up.
    Typing { name: String, user_id: String, nick: Option<String> },
    /// A conversation was read elsewhere.
    Read { name: String },
    /// A relationship came about.
    FriendAdded { relationship: Json },
    /// A relationship ended.
    FriendRemoved { user_id: String },
    /// Somebody joined or left a group conversation.
    Recipient { channel_id: String, user: Json, joined: bool },
    /// This account's membership of a server changed.
    OwnMember { guild_id: String, roles: Vec<String> },
    /// A server is gone.
    GuildGone { guild_id: String },
    /// The picture of somebody.
    RememberAvatar { user_id: String, url: String },
    /// A message.
    Message { name: String, kind: String, message: Incoming },
    /// A forwarded message, whose writer is to be looked up.
    NameForward { name: String, message_id: String, reference: Json },
    /// A message whose controls are to be drawn.
    Controls { name: String, message_id: String, message: Json },
    /// A message whose poll, where it has one, is to be drawn.
    Poll { name: String, message_id: String, message: Json },
    /// Pictures to keep small copies of.
    CacheThumbnails { name: String, message_id: String, attachments: Vec<Attachment> },
    /// The previews of a message came in.
    Preview { name: String, message_id: String, embeds: Vec<Embed> },
    /// A message was edited.
    Edited { name: String, message_id: String, body: String, embeds: Vec<Embed>, attachments: Vec<Attachment> },
    /// Messages were deleted.
    Deleted { name: String, message_ids: Vec<String> },
    /// A reaction came or went.
    React { name: String, message_id: String, emoji: String, is_me: bool, added: bool },
    /// Reactions were cleared: all of one emoji, or all.
    ClearReactions { name: String, message_id: String, emoji: Option<String> },
    /// This account has another name.
    Renamed { name: String },
    /// A form to fill in.
    Modal { channel_id: Option<String>, dispatch: Json },
    /// The pins of a channel changed.
    Pins { channel_id: String },
    /// Somebody joined or left a server.
    MembersChanged { guild_id: String },
    /// The member list of a server changed.
    MemberList { guild_id: String, dispatch: Json },
    /// Somebody moved in voice.
    Voice { user_id: String, guild_id: Option<String>, channel_id: Option<String>, name: Option<String>, avatar: Option<String>, dispatch: Json },
    /// This account moved in voice.
    OwnVoice { guild_id: Option<String>, channel_id: Option<String>, session_id: Option<String> },
    /// Somebody else is in a voice channel.
    OtherVoice { user_id: String, channel_id: String },
    /// A call rings for this account, or does not.
    Call { channel_id: String, ringing: bool },
    /// Where the audio goes.
    VoiceServer { guild_id: Option<String>, endpoint: Option<String>, token: Option<String> },
    /// A dispatch about a stream.
    Stream { dispatch: Json },
    /// A stream has ended.
    StreamGone { dispatch: Json },
    /// Somebody came or went.
    Presence { user_id: String, status: String },
}

#[allow(inconsistent_fields)]
pub enum ActionV {
    Acked,
    Identity { name: Seq<char> },
    Nitro { unrestricted: bool },
    Session { session_id: Seq<char> },
    Avatar { url: Seq<char> },
    GuildSettings { settings: JsonV },
    Friends { rows: Seq<JsonV> },
    OpenDms { plans: Seq<DmPlanV> },
    CatchUpDms,
    Connected,
    RegisterGuilds { guilds: Seq<JsonV> },
    FetchDms { presences: JsonV },
    ApplyMutes,
    GuildRoles { guild_id: Seq<char>, roles: Seq<JsonV> },
    RemoveBuffer { name: Seq<char> },
    Resync { guild_id: Seq<char> },
    Typing { name: Seq<char>, user_id: Seq<char>, nick: Option<Seq<char>> },
    Read { name: Seq<char> },
    FriendAdded { relationship: JsonV },
    FriendRemoved { user_id: Seq<char> },
    Recipient { channel_id: Seq<char>, user: JsonV, joined: bool },
    OwnMember { guild_id: Seq<char>, roles: Seq<Seq<char>> },
    GuildGone { guild_id: Seq<char> },
    RememberAvatar { user_id: Seq<char>, url: Seq<char> },
    Message { name: Seq<char>, kind: Seq<char>, message: IncomingV },
    NameForward { name: Seq<char>, message_id: Seq<char>, reference: JsonV },
    Controls { name: Seq<char>, message_id: Seq<char>, message: JsonV },
    Poll { name: Seq<char>, message_id: Seq<char>, message: JsonV },
    CacheThumbnails { name: Seq<char>, message_id: Seq<char>, attachments: Seq<AttachmentV> },
    Preview { name: Seq<char>, message_id: Seq<char>, embeds: Seq<EmbedV> },
    Edited { name: Seq<char>, message_id: Seq<char>, body: Seq<char>, embeds: Seq<EmbedV>, attachments: Seq<AttachmentV> },
    Deleted { name: Seq<char>, message_ids: Seq<Seq<char>> },
    React { name: Seq<char>, message_id: Seq<char>, emoji: Seq<char>, is_me: bool, added: bool },
    ClearReactions { name: Seq<char>, message_id: Seq<char>, emoji: Option<Seq<char>> },
    Renamed { name: Seq<char> },
    Modal { channel_id: Option<Seq<char>>, dispatch: JsonV },
    Pins { channel_id: Seq<char> },
    MembersChanged { guild_id: Seq<char> },
    MemberList { guild_id: Seq<char>, dispatch: JsonV },
    Voice { user_id: Seq<char>, guild_id: Option<Seq<char>>, channel_id: Option<Seq<char>>, name: Option<Seq<char>>, avatar: Option<Seq<char>>, dispatch: JsonV },
    OwnVoice { guild_id: Option<Seq<char>>, channel_id: Option<Seq<char>>, session_id: Option<Seq<char>> },
    OtherVoice { user_id: Seq<char>, channel_id: Seq<char> },
    Call { channel_id: Seq<char>, ringing: bool },
    VoiceServer { guild_id: Option<Seq<char>>, endpoint: Option<Seq<char>>, token: Option<Seq<char>> },
    Stream { dispatch: JsonV },
    StreamGone { dispatch: JsonV },
    Presence { user_id: Seq<char>, status: Seq<char> },
}

impl View for Action {
    type V = ActionV;

    open spec fn view(&self) -> ActionV {
        match self {
            Action::Acked => ActionV::Acked,
            Action::Identity { name } => ActionV::Identity {
                name: name@,
            },
            Action::Nitro { unrestricted } => ActionV::Nitro {
                unrestricted: *unrestricted,
            },
            Action::Session { session_id } => ActionV::Session {
                session_id: session_id@,
            },
            Action::Avatar { url } => ActionV::Avatar {
                url: url@,
            },
            Action::GuildSettings { settings } => ActionV::GuildSettings {
                settings: settings@,
            },
            Action::Friends { rows } => ActionV::Friends {
                rows: views(rows@),
            },
            Action::OpenDms { plans } => ActionV::OpenDms {
                plans: views(plans@),
            },
            Action::CatchUpDms => ActionV::CatchUpDms,
            Action::Connected => ActionV::Connected,
            Action::RegisterGuilds { guilds } => ActionV::RegisterGuilds {
                guilds: views(guilds@),
            },
            Action::FetchDms { presences } => ActionV::FetchDms { presences: presences@ },
            Action::ApplyMutes => ActionV::ApplyMutes,
            Action::GuildRoles { guild_id, roles } => ActionV::GuildRoles {
                guild_id: guild_id@,
                roles: views(roles@),
            },
            Action::RemoveBuffer { name } => ActionV::RemoveBuffer {
                name: name@,
            },
            Action::Resync { guild_id } => ActionV::Resync {
                guild_id: guild_id@,
            },
            Action::Typing { name, user_id, nick } => ActionV::Typing {
                name: name@,
                user_id: user_id@,
                nick: maybe(*nick),
            },
            Action::Read { name } => ActionV::Read {
                name: name@,
            },
            Action::FriendAdded { relationship } => ActionV::FriendAdded {
                relationship: relationship@,
            },
            Action::FriendRemoved { user_id } => ActionV::FriendRemoved {
                user_id: user_id@,
            },
            Action::Recipient { channel_id, user, joined } => ActionV::Recipient {
                channel_id: channel_id@,
                user: user@,
                joined: *joined,
            },
            Action::OwnMember { guild_id, roles } => ActionV::OwnMember {
                guild_id: guild_id@,
                roles: texts(roles@),
            },
            Action::GuildGone { guild_id } => ActionV::GuildGone {
                guild_id: guild_id@,
            },
            Action::RememberAvatar { user_id, url } => ActionV::RememberAvatar {
                user_id: user_id@,
                url: url@,
            },
            Action::Message { name, kind, message } => ActionV::Message {
                name: name@,
                kind: kind@,
                message: message@,
            },
            Action::NameForward { name, message_id, reference } => ActionV::NameForward {
                name: name@,
                message_id: message_id@,
                reference: reference@,
            },
            Action::Controls { name, message_id, message } => ActionV::Controls {
                name: name@,
                message_id: message_id@,
                message: message@,
            },
            Action::Poll { name, message_id, message } => ActionV::Poll {
                name: name@,
                message_id: message_id@,
                message: message@,
            },
            Action::CacheThumbnails { name, message_id, attachments } => ActionV::CacheThumbnails {
                name: name@,
                message_id: message_id@,
                attachments: views(attachments@),
            },
            Action::Preview { name, message_id, embeds } => ActionV::Preview {
                name: name@,
                message_id: message_id@,
                embeds: views(embeds@),
            },
            Action::Edited { name, message_id, body, embeds, attachments } => ActionV::Edited {
                name: name@,
                message_id: message_id@,
                body: body@,
                embeds: views(embeds@),
                attachments: views(attachments@),
            },
            Action::Deleted { name, message_ids } => ActionV::Deleted {
                name: name@,
                message_ids: texts(message_ids@),
            },
            Action::React { name, message_id, emoji, is_me, added } => ActionV::React {
                name: name@,
                message_id: message_id@,
                emoji: emoji@,
                is_me: *is_me,
                added: *added,
            },
            Action::ClearReactions { name, message_id, emoji } => ActionV::ClearReactions {
                name: name@,
                message_id: message_id@,
                emoji: maybe(*emoji),
            },
            Action::Renamed { name } => ActionV::Renamed {
                name: name@,
            },
            Action::Modal { channel_id, dispatch } => ActionV::Modal {
                channel_id: maybe(*channel_id),
                dispatch: dispatch@,
            },
            Action::Pins { channel_id } => ActionV::Pins {
                channel_id: channel_id@,
            },
            Action::MembersChanged { guild_id } => ActionV::MembersChanged {
                guild_id: guild_id@,
            },
            Action::MemberList { guild_id, dispatch } => ActionV::MemberList {
                guild_id: guild_id@,
                dispatch: dispatch@,
            },
            Action::Voice { user_id, guild_id, channel_id, name, avatar, dispatch } => ActionV::Voice {
                user_id: user_id@,
                guild_id: maybe(*guild_id),
                channel_id: maybe(*channel_id),
                name: maybe(*name),
                avatar: maybe(*avatar),
                dispatch: dispatch@,
            },
            Action::OwnVoice { guild_id, channel_id, session_id } => ActionV::OwnVoice {
                guild_id: maybe(*guild_id),
                channel_id: maybe(*channel_id),
                session_id: maybe(*session_id),
            },
            Action::OtherVoice { user_id, channel_id } => ActionV::OtherVoice {
                user_id: user_id@,
                channel_id: channel_id@,
            },
            Action::Call { channel_id, ringing } => ActionV::Call {
                channel_id: channel_id@,
                ringing: *ringing,
            },
            Action::VoiceServer { guild_id, endpoint, token } => ActionV::VoiceServer {
                guild_id: maybe(*guild_id),
                endpoint: maybe(*endpoint),
                token: maybe(*token),
            },
            Action::Stream { dispatch } => ActionV::Stream {
                dispatch: dispatch@,
            },
            Action::StreamGone { dispatch } => ActionV::StreamGone {
                dispatch: dispatch@,
            },
            Action::Presence { user_id, status } => ActionV::Presence {
                user_id: user_id@,
                status: status@,
            },
        }
    }
}

/// The kinds of dispatch that mean something here.
#[derive(Clone, Copy, Debug, PartialEq, Eq, Structural)]
pub enum Dispatch {
    Ready,
    GuildCreate,
    ThreadCreate,
    ThreadUpdate,
    ThreadListSync,
    ChannelGone,
    ChannelCreate,
    ChannelUpdate,
    TypingStart,
    MessageAck,
    RelationshipAdd,
    RelationshipRemove,
    RecipientAdd,
    RecipientRemove,
    GuildRole,
    GuildMemberUpdate,
    GuildDelete,
    MessageCreate,
    MessageUpdate,
    MessageDelete,
    ReactionAdd,
    ReactionRemove,
    GuildUpdate,
    UserUpdate,
    ModalCreate,
    PinsUpdate,
    SettingsUpdate,
    GuildMember,
    MessageDeleteBulk,
    ReactionRemoveAll,
    ReactionRemoveEmoji,
    MemberListUpdate,
    VoiceStateUpdate,
    CallRinging,
    CallDelete,
    VoiceServerUpdate,
    StreamSaid,
    StreamDelete,
    PresenceUpdate,
    Unknown,
}

/// The kind that a dispatch's name stands for.
pub open spec fn dispatch_named(t: Seq<char>) -> Dispatch {
    if t == "READY"@ {
        Dispatch::Ready
    } else if t == "GUILD_CREATE"@ {
        Dispatch::GuildCreate
    } else if t == "THREAD_CREATE"@ {
        Dispatch::ThreadCreate
    } else if t == "THREAD_UPDATE"@ {
        Dispatch::ThreadUpdate
    } else if t == "THREAD_LIST_SYNC"@ {
        Dispatch::ThreadListSync
    } else if t == "THREAD_DELETE"@ {
        Dispatch::ChannelGone
    } else if t == "CHANNEL_CREATE"@ {
        Dispatch::ChannelCreate
    } else if t == "CHANNEL_UPDATE"@ {
        Dispatch::ChannelUpdate
    } else if t == "TYPING_START"@ {
        Dispatch::TypingStart
    } else if t == "MESSAGE_ACK"@ {
        Dispatch::MessageAck
    } else if t == "RELATIONSHIP_ADD"@ {
        Dispatch::RelationshipAdd
    } else if t == "RELATIONSHIP_REMOVE"@ {
        Dispatch::RelationshipRemove
    } else if t == "CHANNEL_RECIPIENT_ADD"@ {
        Dispatch::RecipientAdd
    } else if t == "CHANNEL_RECIPIENT_REMOVE"@ {
        Dispatch::RecipientRemove
    } else if t == "CHANNEL_DELETE"@ {
        Dispatch::ChannelGone
    } else if t == "GUILD_ROLE_CREATE"@ {
        Dispatch::GuildRole
    } else if t == "GUILD_ROLE_UPDATE"@ {
        Dispatch::GuildRole
    } else if t == "GUILD_ROLE_DELETE"@ {
        Dispatch::GuildRole
    } else if t == "GUILD_MEMBER_UPDATE"@ {
        Dispatch::GuildMemberUpdate
    } else if t == "GUILD_DELETE"@ {
        Dispatch::GuildDelete
    } else if t == "MESSAGE_CREATE"@ {
        Dispatch::MessageCreate
    } else if t == "MESSAGE_UPDATE"@ {
        Dispatch::MessageUpdate
    } else if t == "MESSAGE_DELETE"@ {
        Dispatch::MessageDelete
    } else if t == "MESSAGE_REACTION_ADD"@ {
        Dispatch::ReactionAdd
    } else if t == "MESSAGE_REACTION_REMOVE"@ {
        Dispatch::ReactionRemove
    } else if t == "GUILD_UPDATE"@ {
        Dispatch::GuildUpdate
    } else if t == "GUILD_EMOJIS_UPDATE"@ {
        Dispatch::GuildUpdate
    } else if t == "USER_UPDATE"@ {
        Dispatch::UserUpdate
    } else if t == "INTERACTION_MODAL_CREATE"@ {
        Dispatch::ModalCreate
    } else if t == "CHANNEL_PINS_UPDATE"@ {
        Dispatch::PinsUpdate
    } else if t == "USER_GUILD_SETTINGS_UPDATE"@ {
        Dispatch::SettingsUpdate
    } else if t == "GUILD_MEMBER_ADD"@ {
        Dispatch::GuildMember
    } else if t == "GUILD_MEMBER_REMOVE"@ {
        Dispatch::GuildMember
    } else if t == "MESSAGE_DELETE_BULK"@ {
        Dispatch::MessageDeleteBulk
    } else if t == "MESSAGE_REACTION_REMOVE_ALL"@ {
        Dispatch::ReactionRemoveAll
    } else if t == "MESSAGE_REACTION_REMOVE_EMOJI"@ {
        Dispatch::ReactionRemoveEmoji
    } else if t == "GUILD_MEMBER_LIST_UPDATE"@ {
        Dispatch::MemberListUpdate
    } else if t == "VOICE_STATE_UPDATE"@ {
        Dispatch::VoiceStateUpdate
    } else if t == "CALL_CREATE"@ {
        Dispatch::CallRinging
    } else if t == "CALL_UPDATE"@ {
        Dispatch::CallRinging
    } else if t == "CALL_DELETE"@ {
        Dispatch::CallDelete
    } else if t == "VOICE_SERVER_UPDATE"@ {
        Dispatch::VoiceServerUpdate
    } else if t == "STREAM_CREATE"@ {
        Dispatch::StreamSaid
    } else if t == "STREAM_SERVER_UPDATE"@ {
        Dispatch::StreamSaid
    } else if t == "STREAM_UPDATE"@ {
        Dispatch::StreamSaid
    } else if t == "STREAM_DELETE"@ {
        Dispatch::StreamDelete
    } else if t == "PRESENCE_UPDATE"@ {
        Dispatch::PresenceUpdate
    } else {
        Dispatch::Unknown
    }
}

pub fn read_dispatch(t: &str) -> (r: Dispatch)
    ensures
        r == dispatch_named(t@),
{
    if same(t, "READY") {
        Dispatch::Ready
    } else if same(t, "GUILD_CREATE") {
        Dispatch::GuildCreate
    } else if same(t, "THREAD_CREATE") {
        Dispatch::ThreadCreate
    } else if same(t, "THREAD_UPDATE") {
        Dispatch::ThreadUpdate
    } else if same(t, "THREAD_LIST_SYNC") {
        Dispatch::ThreadListSync
    } else if same(t, "THREAD_DELETE") {
        Dispatch::ChannelGone
    } else if same(t, "CHANNEL_CREATE") {
        Dispatch::ChannelCreate
    } else if same(t, "CHANNEL_UPDATE") {
        Dispatch::ChannelUpdate
    } else if same(t, "TYPING_START") {
        Dispatch::TypingStart
    } else if same(t, "MESSAGE_ACK") {
        Dispatch::MessageAck
    } else if same(t, "RELATIONSHIP_ADD") {
        Dispatch::RelationshipAdd
    } else if same(t, "RELATIONSHIP_REMOVE") {
        Dispatch::RelationshipRemove
    } else if same(t, "CHANNEL_RECIPIENT_ADD") {
        Dispatch::RecipientAdd
    } else if same(t, "CHANNEL_RECIPIENT_REMOVE") {
        Dispatch::RecipientRemove
    } else if same(t, "CHANNEL_DELETE") {
        Dispatch::ChannelGone
    } else if same(t, "GUILD_ROLE_CREATE") {
        Dispatch::GuildRole
    } else if same(t, "GUILD_ROLE_UPDATE") {
        Dispatch::GuildRole
    } else if same(t, "GUILD_ROLE_DELETE") {
        Dispatch::GuildRole
    } else if same(t, "GUILD_MEMBER_UPDATE") {
        Dispatch::GuildMemberUpdate
    } else if same(t, "GUILD_DELETE") {
        Dispatch::GuildDelete
    } else if same(t, "MESSAGE_CREATE") {
        Dispatch::MessageCreate
    } else if same(t, "MESSAGE_UPDATE") {
        Dispatch::MessageUpdate
    } else if same(t, "MESSAGE_DELETE") {
        Dispatch::MessageDelete
    } else if same(t, "MESSAGE_REACTION_ADD") {
        Dispatch::ReactionAdd
    } else if same(t, "MESSAGE_REACTION_REMOVE") {
        Dispatch::ReactionRemove
    } else if same(t, "GUILD_UPDATE") {
        Dispatch::GuildUpdate
    } else if same(t, "GUILD_EMOJIS_UPDATE") {
        Dispatch::GuildUpdate
    } else if same(t, "USER_UPDATE") {
        Dispatch::UserUpdate
    } else if same(t, "INTERACTION_MODAL_CREATE") {
        Dispatch::ModalCreate
    } else if same(t, "CHANNEL_PINS_UPDATE") {
        Dispatch::PinsUpdate
    } else if same(t, "USER_GUILD_SETTINGS_UPDATE") {
        Dispatch::SettingsUpdate
    } else if same(t, "GUILD_MEMBER_ADD") {
        Dispatch::GuildMember
    } else if same(t, "GUILD_MEMBER_REMOVE") {
        Dispatch::GuildMember
    } else if same(t, "MESSAGE_DELETE_BULK") {
        Dispatch::MessageDeleteBulk
    } else if same(t, "MESSAGE_REACTION_REMOVE_ALL") {
        Dispatch::ReactionRemoveAll
    } else if same(t, "MESSAGE_REACTION_REMOVE_EMOJI") {
        Dispatch::ReactionRemoveEmoji
    } else if same(t, "GUILD_MEMBER_LIST_UPDATE") {
        Dispatch::MemberListUpdate
    } else if same(t, "VOICE_STATE_UPDATE") {
        Dispatch::VoiceStateUpdate
    } else if same(t, "CALL_CREATE") {
        Dispatch::CallRinging
    } else if same(t, "CALL_UPDATE") {
        Dispatch::CallRinging
    } else if same(t, "CALL_DELETE") {
        Dispatch::CallDelete
    } else if same(t, "VOICE_SERVER_UPDATE") {
        Dispatch::VoiceServerUpdate
    } else if same(t, "STREAM_CREATE") {
        Dispatch::StreamSaid
    } else if same(t, "STREAM_SERVER_UPDATE") {
        Dispatch::StreamSaid
    } else if same(t, "STREAM_UPDATE") {
        Dispatch::StreamSaid
    } else if same(t, "STREAM_DELETE") {
        Dispatch::StreamDelete
    } else if same(t, "PRESENCE_UPDATE") {
        Dispatch::PresenceUpdate
    } else {
        Dispatch::Unknown
    }
}

/// Nothing to be done.
pub fn none() -> (r: Vec<Action>)
    ensures
        views(r@) == Seq::<ActionV>::empty(),
{
    let r: Vec<Action> = Vec::new();
    assert(views(r@) =~= Seq::<ActionV>::empty());
    r
}

/// One thing to be done.
pub fn one(action: Action) -> (r: Vec<Action>)
    ensures
        views(r@) == seq![action@],
{
    let mut r: Vec<Action> = Vec::new();
    r.push(action);
    assert(views(r@) =~= seq![action@]);
    r
}

/// One more thing to be done.
pub fn also(actions: &mut Vec<Action>, action: Action)
    ensures
        views(final(actions)@) == views(old(actions)@).push(action@),
{
    actions.push(action);
    assert(views(actions@) =~= views(old(actions)@).push(action@));
}

/// The names of the dispatches differ in their lengths or in one of their characters.
proof fn lemma_names_differ()
    ensures
        "READY"@.len() == 5,
        "GUILD_CREATE"@.len() == 12,
        "THREAD_CREATE"@.len() == 13,
        "THREAD_UPDATE"@.len() == 13,
        "THREAD_LIST_SYNC"@.len() == 16,
        "THREAD_DELETE"@.len() == 13,
        "CHANNEL_CREATE"@.len() == 14,
        "CHANNEL_UPDATE"@.len() == 14,
        "TYPING_START"@.len() == 12,
        "MESSAGE_ACK"@.len() == 11,
        "RELATIONSHIP_ADD"@.len() == 16,
        "RELATIONSHIP_REMOVE"@.len() == 19,
        "CHANNEL_RECIPIENT_ADD"@.len() == 21,
        "CHANNEL_RECIPIENT_REMOVE"@.len() == 24,
        "CHANNEL_DELETE"@.len() == 14,
        "GUILD_ROLE_CREATE"@.len() == 17,
        "GUILD_ROLE_UPDATE"@.len() == 17,
        "GUILD_ROLE_DELETE"@.len() == 17,
        "GUILD_MEMBER_UPDATE"@.len() == 19,
        "GUILD_DELETE"@.len() == 12,
        "MESSAGE_CREATE"@.len() == 14,
        "MESSAGE_UPDATE"@.len() == 14,
        "MESSAGE_DELETE"@.len() == 14,
        "MESSAGE_REACTION_ADD"@.len() == 20,
        "MESSAGE_REACTION_REMOVE"@.len() == 23,
        "GUILD_UPDATE"@.len() == 12,
        "GUILD_EMOJIS_UPDATE"@.len() == 19,
        "USER_UPDATE"@.len() == 11,
        "INTERACTION_MODAL_CREATE"@.len() == 24,
        "CHANNEL_PINS_UPDATE"@.len() == 19,
        "USER_GUILD_SETTINGS_UPDATE"@.len() == 26,
        "GUILD_MEMBER_ADD"@.len() == 16,
        "GUILD_MEMBER_REMOVE"@.len() == 19,
        "MESSAGE_DELETE_BULK"@.len() == 19,
        "MESSAGE_REACTION_REMOVE_ALL"@.len() == 27,
        "MESSAGE_REACTION_REMOVE_EMOJI"@.len() == 29,
        "GUILD_MEMBER_LIST_UPDATE"@.len() == 24,
        "VOICE_STATE_UPDATE"@.len() == 18,
        "CALL_CREATE"@.len() == 11,
        "CALL_UPDATE"@.len() == 11,
        "CALL_DELETE"@.len() == 11,
        "VOICE_SERVER_UPDATE"@.len() == 19,
        "STREAM_CREATE"@.len() == 13,
        "STREAM_SERVER_UPDATE"@.len() == 20,
        "STREAM_UPDATE"@.len() == 13,
        "STREAM_DELETE"@.len() == 13,
        "PRESENCE_UPDATE"@.len() == 15,
        "GUILD_CREATE"@[0] == 'G',
        "GUILD_CREATE"@[6] == 'C',
        "GUILD_DELETE"@[0] == 'G',
        "GUILD_DELETE"@[6] == 'D',
        "GUILD_UPDATE"@[0] == 'G',
        "GUILD_UPDATE"@[6] == 'U',
        "TYPING_START"@[0] == 'T',
        "STREAM_CREATE"@[0] == 'S',
        "STREAM_CREATE"@[7] == 'C',
        "STREAM_DELETE"@[0] == 'S',
        "STREAM_DELETE"@[7] == 'D',
        "STREAM_UPDATE"@[0] == 'S',
        "STREAM_UPDATE"@[7] == 'U',
        "THREAD_CREATE"@[0] == 'T',
        "THREAD_CREATE"@[7] == 'C',
        "THREAD_DELETE"@[0] == 'T',
        "THREAD_DELETE"@[7] == 'D',
        "THREAD_UPDATE"@[0] == 'T',
        "THREAD_UPDATE"@[7] == 'U',
        "GUILD_MEMBER_ADD"@[0] == 'G',
        "RELATIONSHIP_ADD"@[0] == 'R',
        "THREAD_LIST_SYNC"@[0] == 'T',
        "CHANNEL_CREATE"@[0] == 'C',
        "CHANNEL_CREATE"@[8] == 'C',
        "CHANNEL_DELETE"@[0] == 'C',
        "CHANNEL_DELETE"@[8] == 'D',
        "CHANNEL_UPDATE"@[0] == 'C',
        "CHANNEL_UPDATE"@[8] == 'U',
        "MESSAGE_CREATE"@[0] == 'M',
        "MESSAGE_CREATE"@[8] == 'C',
        "MESSAGE_DELETE"@[0] == 'M',
        "MESSAGE_DELETE"@[8] == 'D',
        "MESSAGE_UPDATE"@[0] == 'M',
        "MESSAGE_UPDATE"@[8] == 'U',
        "CALL_CREATE"@[0] == 'C',
        "CALL_CREATE"@[5] == 'C',
        "CALL_DELETE"@[0] == 'C',
        "CALL_DELETE"@[5] == 'D',
        "CALL_UPDATE"@[0] == 'C',
        "CALL_UPDATE"@[5] == 'U',
        "MESSAGE_ACK"@[0] == 'M',
        "USER_UPDATE"@[0] == 'U',
        "CHANNEL_PINS_UPDATE"@[0] == 'C',
        "GUILD_EMOJIS_UPDATE"@[0] == 'G',
        "GUILD_EMOJIS_UPDATE"@[6] == 'E',
        "GUILD_MEMBER_REMOVE"@[0] == 'G',
        "GUILD_MEMBER_REMOVE"@[6] == 'M',
        "GUILD_MEMBER_REMOVE"@[13] == 'R',
        "GUILD_MEMBER_UPDATE"@[0] == 'G',
        "GUILD_MEMBER_UPDATE"@[6] == 'M',
        "GUILD_MEMBER_UPDATE"@[13] == 'U',
        "MESSAGE_DELETE_BULK"@[0] == 'M',
        "RELATIONSHIP_REMOVE"@[0] == 'R',
        "VOICE_SERVER_UPDATE"@[0] == 'V',
        "CHANNEL_RECIPIENT_REMOVE"@[0] == 'C',
        "GUILD_MEMBER_LIST_UPDATE"@[0] == 'G',
        "INTERACTION_MODAL_CREATE"@[0] == 'I',
        "GUILD_ROLE_CREATE"@[11] == 'C',
        "GUILD_ROLE_DELETE"@[11] == 'D',
        "GUILD_ROLE_UPDATE"@[11] == 'U',
        "MESSAGE_REACTION_ADD"@[0] == 'M',
        "STREAM_SERVER_UPDATE"@[0] == 'S',
{
    reveal_strlit("READY");
    reveal_strlit("GUILD_CREATE");
    reveal_strlit("THREAD_CREATE");
    reveal_strlit("THREAD_UPDATE");
    reveal_strlit("THREAD_LIST_SYNC");
    reveal_strlit("THREAD_DELETE");
    reveal_strlit("CHANNEL_CREATE");
    reveal_strlit("CHANNEL_UPDATE");
    reveal_strlit("TYPING_START");
    reveal_strlit("MESSAGE_ACK");
    reveal_strlit("RELATIONSHIP_ADD");
    reveal_strlit("RELATIONSHIP_REMOVE");
    reveal_strlit("CHANNEL_RECIPIENT_ADD");
    reveal_strlit("CHANNEL_RECIPIENT_REMOVE");
    reveal_strlit("CHANNEL_DELETE");
    reveal_strlit("GUILD_ROLE_CREATE");
    reveal_strlit("GUILD_ROLE_UPDATE");
    reveal_strlit("GUILD_ROLE_DELETE");
    reveal_strlit("GUILD_MEMBER_UPDATE");
    reveal_strlit("GUILD_DELETE");
    reveal_strlit("MESSAGE_CREATE");
    reveal_strlit("MESSAGE_UPDATE");
    reveal_strlit("MESSAGE_DELETE");
    reveal_strlit("MESSAGE_REACTION_ADD");
    reveal_strlit("MESSAGE_REACTION_REMOVE");
    reveal_strlit("GUILD_UPDATE");
    reveal_strlit("GUILD_EMOJIS_UPDATE");
    reveal_strlit("USER_UPDATE");
    reveal_strlit("INTERACTION_MODAL_CREATE");
    reveal_strlit("CHANNEL_PINS_UPDATE");
    reveal_strlit("USER_GUILD_SETTINGS_UPDATE");
    reveal_strlit("GUILD_MEMBER_ADD");
    reveal_strlit("GUILD_MEMBER_REMOVE");
    reveal_strlit("MESSAGE_DELETE_BULK");
    reveal_strlit("MESSAGE_REACTION_REMOVE_ALL");
    reveal_strlit("MESSAGE_REACTION_REMOVE_EMOJI");
    reveal_strlit("GUILD_MEMBER_LIST_UPDATE");
    reveal_strlit("VOICE_STATE_UPDATE");
    reveal_strlit("CALL_CREATE");
    reveal_strlit("CALL_UPDATE");
    reveal_strlit("CALL_DELETE");
    reveal_strlit("VOICE_SERVER_UPDATE");
    reveal_strlit("STREAM_CREATE");
    reveal_strlit("STREAM_SERVER_UPDATE");
    reveal_strlit("STREAM_UPDATE");
    reveal_strlit("STREAM_DELETE");
    reveal_strlit("PRESENCE_UPDATE");
}

/// What is said of messages and of reactions to them is told apart: new, changed, deleted one by one or
/// many at once, read elsewhere, and reactions that come, go or are cleared.
pub proof fn law_messages_are_told_apart()
    ensures
        dispatch_named("MESSAGE_CREATE"@) == Dispatch::MessageCreate,
        dispatch_named("MESSAGE_UPDATE"@) == Dispatch::MessageUpdate,
        dispatch_named("MESSAGE_DELETE"@) == Dispatch::MessageDelete,
        dispatch_named("MESSAGE_DELETE_BULK"@) == Dispatch::MessageDeleteBulk,
        dispatch_named("MESSAGE_ACK"@) == Dispatch::MessageAck,
        dispatch_named("MESSAGE_REACTION_ADD"@) == Dispatch::ReactionAdd,
        dispatch_named("MESSAGE_REACTION_REMOVE"@) == Dispatch::ReactionRemove,
        dispatch_named("MESSAGE_REACTION_REMOVE_ALL"@) == Dispatch::ReactionRemoveAll,
        dispatch_named("MESSAGE_REACTION_REMOVE_EMOJI"@) == Dispatch::ReactionRemoveEmoji,
        dispatch_named("TYPING_START"@) == Dispatch::TypingStart,
        dispatch_named("CHANNEL_PINS_UPDATE"@) == Dispatch::PinsUpdate,
        dispatch_named("INTERACTION_MODAL_CREATE"@) == Dispatch::ModalCreate,
{
    lemma_names_differ();
}

/// What is said of channels, threads and servers is told apart; a channel that is deleted and a thread
/// that is are both gone, and every change of a role is one of its server.
pub proof fn law_channels_and_servers_are_told_apart()
    ensures
        dispatch_named("READY"@) == Dispatch::Ready,
        dispatch_named("GUILD_CREATE"@) == Dispatch::GuildCreate,
        dispatch_named("GUILD_DELETE"@) == Dispatch::GuildDelete,
        dispatch_named("GUILD_UPDATE"@) == Dispatch::GuildUpdate,
        dispatch_named("GUILD_EMOJIS_UPDATE"@) == Dispatch::GuildUpdate,
        dispatch_named("GUILD_ROLE_CREATE"@) == Dispatch::GuildRole,
        dispatch_named("GUILD_ROLE_UPDATE"@) == Dispatch::GuildRole,
        dispatch_named("GUILD_ROLE_DELETE"@) == Dispatch::GuildRole,
        dispatch_named("CHANNEL_CREATE"@) == Dispatch::ChannelCreate,
        dispatch_named("CHANNEL_UPDATE"@) == Dispatch::ChannelUpdate,
        dispatch_named("THREAD_DELETE"@) == Dispatch::ChannelGone,
        dispatch_named("CHANNEL_DELETE"@) == Dispatch::ChannelGone,
        dispatch_named("THREAD_CREATE"@) == Dispatch::ThreadCreate,
        dispatch_named("THREAD_UPDATE"@) == Dispatch::ThreadUpdate,
        dispatch_named("THREAD_LIST_SYNC"@) == Dispatch::ThreadListSync,
        dispatch_named("USER_GUILD_SETTINGS_UPDATE"@) == Dispatch::SettingsUpdate,
{
    lemma_names_differ();
}

/// What is said of people, of calls and of streams is told apart.
pub proof fn law_people_calls_and_streams_are_told_apart()
    ensures
        dispatch_named("RELATIONSHIP_ADD"@) == Dispatch::RelationshipAdd,
        dispatch_named("RELATIONSHIP_REMOVE"@) == Dispatch::RelationshipRemove,
        dispatch_named("CHANNEL_RECIPIENT_ADD"@) == Dispatch::RecipientAdd,
        dispatch_named("CHANNEL_RECIPIENT_REMOVE"@) == Dispatch::RecipientRemove,
        dispatch_named("GUILD_MEMBER_UPDATE"@) == Dispatch::GuildMemberUpdate,
        dispatch_named("USER_UPDATE"@) == Dispatch::UserUpdate,
        dispatch_named("GUILD_MEMBER_ADD"@) == Dispatch::GuildMember,
        dispatch_named("GUILD_MEMBER_REMOVE"@) == Dispatch::GuildMember,
        dispatch_named("GUILD_MEMBER_LIST_UPDATE"@) == Dispatch::MemberListUpdate,
        dispatch_named("VOICE_STATE_UPDATE"@) == Dispatch::VoiceStateUpdate,
        dispatch_named("CALL_CREATE"@) == Dispatch::CallRinging,
        dispatch_named("CALL_UPDATE"@) == Dispatch::CallRinging,
        dispatch_named("CALL_DELETE"@) == Dispatch::CallDelete,
        dispatch_named("VOICE_SERVER_UPDATE"@) == Dispatch::VoiceServerUpdate,
        dispatch_named("STREAM_CREATE"@) == Dispatch::StreamSaid,
        dispatch_named("STREAM_SERVER_UPDATE"@) == Dispatch::StreamSaid,
        dispatch_named("STREAM_UPDATE"@) == Dispatch::StreamSaid,
        dispatch_named("STREAM_DELETE"@) == Dispatch::StreamDelete,
        dispatch_named("PRESENCE_UPDATE"@) == Dispatch::PresenceUpdate,
{
    lemma_names_differ();
}

/// A name that stands for no kind of dispatch is of the unknown kind.
pub proof fn law_other_names_are_unknown(t: Seq<char>)
    requires
        t != "READY"@,
        t != "GUILD_CREATE"@,
        t != "THREAD_CREATE"@,
        t != "THREAD_UPDATE"@,
        t != "THREAD_LIST_SYNC"@,
        t != "THREAD_DELETE"@,
        t != "CHANNEL_CREATE"@,
        t != "CHANNEL_UPDATE"@,
        t != "TYPING_START"@,
        t != "MESSAGE_ACK"@,
        t != "RELATIONSHIP_ADD"@,
        t != "RELATIONSHIP_REMOVE"@,
        t != "CHANNEL_RECIPIENT_ADD"@,
        t != "CHANNEL_RECIPIENT_REMOVE"@,
        t != "CHANNEL_DELETE"@,
        t != "GUILD_ROLE_CREATE"@,
        t != "GUILD_ROLE_UPDATE"@,
        t != "GUILD_ROLE_DELETE"@,
        t != "GUILD_MEMBER_UPDATE"@,
        t != "GUILD_DELETE"@,
        t != "MESSAGE_CREATE"@,
        t != "MESSAGE_UPDATE"@,
        t != "MESSAGE_DELETE"@,
        t != "MESSAGE_REACTION_ADD"@,
        t != "MESSAGE_REACTION_REMOVE"@,
        t != "GUILD_UPDATE"@,
        t != "GUILD_EMOJIS_UPDATE"@,
        t != "USER_UPDATE"@,
        t != "INTERACTION_MODAL_CREATE"@,
        t != "CHANNEL_PINS_UPDATE"@,
        t != "USER_GUILD_SETTINGS_UPDATE"@,
        t != "GUILD_MEMBER_ADD"@,
        t != "GUILD_MEMBER_REMOVE"@,
        t != "MESSAGE_DELETE_BULK"@,
        t != "MESSAGE_REACTION_REMOVE_ALL"@,
        t != "MESSAGE_REACTION_REMOVE_EMOJI"@,
        t != "GUILD_MEMBER_LIST_UPDATE"@,
        t != "VOICE_STATE_UPDATE"@,
        t != "CALL_CREATE"@,
        t != "CALL_UPDATE"@,
        t != "CALL_DELETE"@,
        t != "VOICE_SERVER_UPDATE"@,
        t != "STREAM_CREATE"@,
        t != "STREAM_SERVER_UPDATE"@,
        t != "STREAM_UPDATE"@,
        t != "STREAM_DELETE"@,
        t != "PRESENCE_UPDATE"@,
    ensures
        dispatch_named(t) == Dispatch::Unknown,
{
}

} // verus!
