//! What is to be done about a dispatch that changes nothing of what the connection itself keeps.
use vstd::prelude::*;
use crate::json::{Json, JsonV, collect, elements, is_str, jopt, jstr, law_put_then_read, lemma_collect_step, nothing, text_or, text_or_v};
use crate::model::Attachment;
use crate::text::{lend, maybe, maybe_str, own, same, texts, views};
use crate::text_map::{TextMap, map_views};
use super::actions::{Action, ActionV, Dispatch, Incoming, IncomingV, also, none, one};
use super::channels::{Known, KnownV};
use super::commands::{form_fields, modal_fields};
use super::conversations::TYPING_TTL_MS;
use super::guilds::{member_role_ids, roles_of, text_reader};
use super::members::{known_status, text_values};
use super::messages::{author_name, author_of, body_of, body_or_empty, embeds_in, emoji_key, extract_embeds, extract_pictures, extract_reply, is_empty_message, is_mentioned, mentions_own_user, mentions_resolved, pictures_in, reply_in, resolve_mentions, says_nothing, write_emoji};
use super::people::{author_avatar_url, filled, first_of, only_filled, or_else, set_picture, voice_member_avatar, voice_member_name, voice_name, voice_picture};

verus! {

/// The account that a connection belongs to.
#[derive(Debug, PartialEq, Eq)]
pub struct Me {
    pub account_id: String,
    pub user_id: String,
    pub display_name: Option<String>,
}

pub struct MeV {
    pub account_id: Seq<char>,
    pub user_id: Seq<char>,
    pub display_name: Option<Seq<char>>,
}

impl View for Me {
    type V = MeV;

    open spec fn view(&self) -> MeV {
        MeV {
            account_id: self.account_id@,
            user_id: self.user_id@,
            display_name: maybe(self.display_name),
        }
    }
}

/// A friend, or somebody who asked to be one or was asked.
pub open spec fn friend_row(relationship: JsonV, statuses: Map<Seq<char>, Seq<char>>) -> Option<JsonV> {
    let user = relationship.at("user"@);
    match user.at("id"@).text() {
        Some(user_id) => Some(
            nothing().put("userId"@, jstr(user_id)).put(
                "username"@,
                jstr(text_or_v(user.at("username"@), "unknown"@)),
            ).put("globalName"@, jopt(user.at("global_name"@).text())).put(
                "avatarUrl"@,
                jopt(set_picture(user)),
            ).put("status"@, jstr(known_status(statuses, user_id))),
        ),
        None => None,
    }
}

fn write_friend(relationship: &Json, statuses: &TextMap<String>) -> (r: Option<Json>)
    ensures
        match r {
            Some(j) => friend_row(relationship@, text_values(statuses@)) == Some(j@),
            None => friend_row(relationship@, text_values(statuses@)) is None,
        },
{
    let user = relationship.at("user");
    let user_id = match user.at("id").text() {
        Some(id) => id,
        None => {
            return None;
        },
    };
    let avatar = author_avatar_url(user);
    let status = match statuses.get(user_id) {
        Some(s) => s.as_str(),
        None => "offline",
    };
    Some(
        Json::object().put("userId", Json::string(user_id)).put(
            "username",
            Json::string(text_or(user.at("username"), "unknown")),
        ).put("globalName", Json::opt(user.at("global_name").text())).put(
            "avatarUrl",
            Json::opt(lend(&avatar)),
        ).put("status", Json::string(status)),
    )
}

/// The relationships that are shown: friends, and requests in either direction. Somebody who is
/// blocked is neither.
pub open spec fn shown_friend(relationship: JsonV, statuses: Map<Seq<char>, Seq<char>>) -> Option<JsonV> {
    let kind = relationship.at("type"@).as_i64();
    if kind == Some(1int) || kind == Some(3int) || kind == Some(4int) {
        friend_row(relationship, statuses)
    } else {
        None
    }
}

pub open spec fn friend_reader(statuses: Map<Seq<char>, Seq<char>>) -> spec_fn(JsonV) -> Option<JsonV> {
    |r: JsonV| shown_friend(r, statuses)
}

/// The friends of a list of relationships.
pub fn list_friends(relationships: &Vec<Json>, statuses: &TextMap<String>) -> (r: Vec<Json>)
    ensures
        views(r@) == collect(
            views(relationships@),
            friend_reader(text_values(statuses@)),
        ),
{
    let ghost all = views(relationships@);
    let ghost reader = friend_reader(text_values(statuses@));
    let mut out: Vec<Json> = Vec::new();
    let mut i: usize = 0;
    assert(views(out@) =~= collect(all.take(0), reader));
    while i < relationships.len()
        invariant
            i <= relationships.len(),
            all == views(relationships@),
            reader == friend_reader(text_values(statuses@)),
            views(out@) == collect(all.take(i as int), reader),
        decreases relationships.len() - i,
    {
        let r = &relationships[i];
        let ghost before = out@;
        proof {
            lemma_collect_step(all, reader, i as int);
            assert(all[i as int] == r@);
        }
        let shown = match r.at("type").as_i64() {
            Some(kind) => kind == 1 || kind == 3 || kind == 4,
            None => false,
        };
        if shown {
            match write_friend(r, statuses) {
                Some(row) => {
                    out.push(row);
                    assert(views(out@) =~= views(before).push(row@));
                },
                None => {},
            }
        }
        i += 1;
    }
    assert(all.take(i as int) =~= all);
    out
}

/// The rows of everybody but one.
pub open spec fn but_for(user_id: Seq<char>) -> spec_fn(JsonV) -> Option<JsonV> {
    |row: JsonV|
        if row.at("userId"@).text() == Some(user_id) {
            None
        } else {
            Some(row)
        }
}

/// The friends without one of them.
pub fn friends_without(friends: &Vec<Json>, user_id: &str) -> (r: Vec<Json>)
    ensures
        views(r@) == collect(views(friends@), but_for(user_id@)),
{
    let ghost all = views(friends@);
    let ghost reader = but_for(user_id@);
    let mut out: Vec<Json> = Vec::new();
    let mut i: usize = 0;
    assert(views(out@) =~= collect(all.take(0), reader));
    while i < friends.len()
        invariant
            i <= friends.len(),
            all == views(friends@),
            reader == but_for(user_id@),
            views(out@) == collect(all.take(i as int), reader),
        decreases friends.len() - i,
    {
        let ghost before = out@;
        proof {
            lemma_collect_step(all, reader, i as int);
            assert(all[i as int] == friends@[i as int]@);
        }
        if !is_str(friends[i].at("userId"), user_id) {
            let row = friends[i].copy();
            out.push(row);
            assert(views(out@) =~= views(before).push(row@));
        }
        i += 1;
    }
    assert(all.take(i as int) =~= all);
    out
}

/// The friends with somebody new, in place of what was there of them.
pub open spec fn friends_after(friends: Seq<JsonV>, relationship: JsonV) -> Seq<JsonV> {
    let others = match relationship.at("user"@).at("id"@).text() {
        Some(user_id) => collect(friends, but_for(user_id)),
        None => friends,
    };
    match friend_row(relationship, Map::empty()) {
        Some(row) => others.push(row),
        None => others,
    }
}

pub fn friends_with(friends: &Vec<Json>, relationship: &Json) -> (r: Vec<Json>)
    ensures
        views(r@) == friends_after(views(friends@), relationship@),
{
    let mut out = match relationship.at("user").at("id").text() {
        Some(user_id) => friends_without(friends, user_id),
        None => super::guilds::copy_list(friends),
    };
    let nobody: TextMap<String> = TextMap::new();
    assert(text_values(nobody@) =~= Map::empty());
    match write_friend(relationship, &nobody) {
        Some(row) => {
            let ghost before = out@;
            out.push(row);
            assert(views(out@) =~= views(before).push(row@));
        },
        None => {},
    }
    out
}

/// What is told of the friends.
pub fn friends_notice(account_id: &str, friends: &Vec<Json>) -> (r: Json)
    ensures
        r@ == nothing().put("accountId"@, jstr(account_id@)).put(
            "friends"@,
            JsonV::List(views(friends@)),
        ),
{
    Json::object().put("accountId", Json::string(account_id)).put(
        "friends",
        Json::list(super::guilds::copy_list(friends)),
    )
}

/// A message that came in, unless it holds nothing.
pub open spec fn incoming(d: JsonV, me: MeV) -> Option<IncomingV> {
    let author = d.at("author"@);
    if says_nothing(d) {
        None
    } else {
        Some(
            IncomingV {
                from: author_name(author),
                body: mentions_resolved(
                    body_or_empty(d),
                    d.at("mentions"@).items(),
                    me.user_id,
                    me.display_name,
                ),
                reply_to: reply_in(d),
                id: d.at("id"@).text(),
                is_mention: is_mentioned(d, me.user_id),
                avatar_url: set_picture(author),
                embeds: embeds_in(d),
                attachments: pictures_in(d),
                author_id: author.at("id"@).text(),
            },
        )
    }
}

pub fn read_incoming(d: &Json, me: &Me) -> (r: Option<Incoming>)
    ensures
        match r {
            Some(m) => incoming(d@, me@) == Some(m@),
            None => incoming(d@, me@) is None,
        },
{
    let author = d.at("author");
    let embeds = extract_embeds(d);
    let attachments = extract_pictures(d);
    let body = body_of(d);
    assert(views(embeds@).len() == embeds@.len());
    assert(views(attachments@).len() == attachments@.len());
    if is_empty_message(body.as_str(), &embeds, &attachments) {
        return None;
    }
    Some(
        Incoming {
            from: author_of(author).to_owned(),
            body: resolve_mentions(
                body.as_str(),
                d,
                me.user_id.as_str(),
                lend(&me.display_name),
            ),
            reply_to: extract_reply(d),
            id: own(d.at("id").text()),
            is_mention: mentions_own_user(d, me.user_id.as_str()),
            avatar_url: author_avatar_url(author),
            embeds,
            attachments,
            author_id: own(author.at("id").text()),
        },
    )
}

/// The conversation of the channel that a dispatch names.
pub open spec fn conversation_of(known: Map<Seq<char>, KnownV>, d: JsonV) -> Option<KnownV> {
    let channel_id = d.at("channel_id"@).text_or_empty();
    if known.contains_key(channel_id) {
        Some(known[channel_id])
    } else {
        None
    }
}

fn find_conversation<'a>(channel_map: &'a TextMap<Known>, d: &Json) -> (r: Option<&'a Known>)
    ensures
        match r {
            Some(k) => conversation_of(map_views(channel_map@), d@) == Some(k@),
            None => conversation_of(map_views(channel_map@), d@) is None,
        },
{
    channel_map.get(d.at("channel_id").text_or_empty())
}

/// With one more action, where there is one.
pub open spec fn and_maybe(actions: Seq<ActionV>, more: Option<ActionV>) -> Seq<ActionV> {
    match more {
        Some(a) => actions.push(a),
        None => actions,
    }
}

/// What to do about a new message: whose face it shows, the message itself, and then what hangs
/// on it.
pub open spec fn message_created(known: Map<Seq<char>, KnownV>, me: MeV, d: JsonV) -> Seq<ActionV> {
    match (conversation_of(known, d), incoming(d, me)) {
        (Some(place), Some(message)) => {
            let face = match (message.author_id, message.avatar_url) {
                (Some(user_id), Some(url)) => Some(ActionV::RememberAvatar { user_id, url }),
                _ => None,
            };
            let start = and_maybe(Seq::empty(), face).push(
                ActionV::Message { name: place.name, kind: place.kind, message },
            );
            match message.id {
                Some(message_id) => {
                    let forward = if d.at("message_snapshots"@) is List {
                        Some(
                            ActionV::NameForward {
                                name: place.name,
                                message_id,
                                reference: d.at("message_reference"@),
                            },
                        )
                    } else {
                        None
                    };
                    let hung = and_maybe(start, forward).push(
                        ActionV::Controls { name: place.name, message_id, message: d },
                    ).push(ActionV::Poll { name: place.name, message_id, message: d });
                    if message_id.len() > 0 {
                        hung.push(
                            ActionV::CacheThumbnails {
                                name: place.name,
                                message_id,
                                attachments: message.attachments,
                            },
                        )
                    } else {
                        hung
                    }
                },
                None => start,
            }
        },
        _ => Seq::empty(),
    }
}

fn copy_attachments(list: &Vec<Attachment>) -> (r: Vec<Attachment>)
    ensures
        views(r@) == views(list@),
{
    let mut out: Vec<Attachment> = Vec::new();
    let mut i: usize = 0;
    while i < list.len()
        invariant
            i <= list.len(),
            out.len() == i,
            forall|j: int| 0 <= j < i ==> (#[trigger] out@[j])@ == list@[j]@,
        decreases list.len() - i,
    {
        out.push(list[i].copy());
        i += 1;
    }
    assert(views(out@) =~= views(list@));
    out
}

pub fn on_message_create(channel_map: &TextMap<Known>, me: &Me, d: &Json) -> (r: Vec<Action>)
    ensures
        views(r@) == message_created(map_views(channel_map@), me@, d@),
{
    let place = match find_conversation(channel_map, d) {
        Some(k) => k,
        None => {
            return none();
        },
    };
    let message = match read_incoming(d, me) {
        Some(m) => m,
        None => {
            return none();
        },
    };
    let mut out = none();
    match (lend(&message.author_id), lend(&message.avatar_url)) {
        (Some(user_id), Some(url)) => {
            also(
                &mut out,
                Action::RememberAvatar { user_id: user_id.to_owned(), url: url.to_owned() },
            );
        },
        _ => {},
    }
    let id = own(lend(&message.id));
    let pictures = copy_attachments(&message.attachments);
    also(
        &mut out,
        Action::Message { name: place.name.clone(), kind: place.kind.clone(), message },
    );
    match id {
        Some(message_id) => {
            if d.at("message_snapshots").list_items().is_some() {
                also(
                    &mut out,
                    Action::NameForward {
                        name: place.name.clone(),
                        message_id: message_id.clone(),
                        reference: d.at("message_reference").copy(),
                    },
                );
            }
            also(
                &mut out,
                Action::Controls {
                    name: place.name.clone(),
                    message_id: message_id.clone(),
                    message: d.copy(),
                },
            );
            also(
                &mut out,
                Action::Poll {
                    name: place.name.clone(),
                    message_id: message_id.clone(),
                    message: d.copy(),
                },
            );
            if !message_id.as_str().is_empty() {
                also(
                    &mut out,
                    Action::CacheThumbnails {
                        name: place.name.clone(),
                        message_id,
                        attachments: pictures,
                    },
                );
            }
        },
        None => {},
    }
    out
}

/// What to do about a message that changed. Without the moment of an edit nobody edited it: its
/// previews came in, and only those are taken from it.
pub open spec fn message_updated(known: Map<Seq<char>, KnownV>, me: MeV, d: JsonV) -> Seq<ActionV> {
    match (conversation_of(known, d), d.at("id"@).text()) {
        (Some(place), Some(message_id)) => {
            let start = seq![ActionV::Poll { name: place.name, message_id, message: d }];
            if d.at("edited_timestamp"@) is Null {
                if embeds_in(d).len() == 0 {
                    start
                } else {
                    start.push(
                        ActionV::Preview { name: place.name, message_id, embeds: embeds_in(d) },
                    )
                }
            } else {
                start.push(
                    ActionV::Edited {
                        name: place.name,
                        message_id,
                        body: mentions_resolved(
                            body_or_empty(d),
                            d.at("mentions"@).items(),
                            me.user_id,
                            me.display_name,
                        ),
                        embeds: embeds_in(d),
                        attachments: pictures_in(d),
                    },
                ).push(ActionV::Controls { name: place.name, message_id, message: d })
            }
        },
        _ => Seq::empty(),
    }
}

pub fn on_message_update(channel_map: &TextMap<Known>, me: &Me, d: &Json) -> (r: Vec<Action>)
    ensures
        views(r@) == message_updated(map_views(channel_map@), me@, d@),
{
    let place = match find_conversation(channel_map, d) {
        Some(k) => k,
        None => {
            return none();
        },
    };
    let message_id = match d.at("id").text() {
        Some(id) => id,
        None => {
            return none();
        },
    };
    let mut out = one(
        Action::Poll {
            name: place.name.clone(),
            message_id: message_id.to_owned(),
            message: d.copy(),
        },
    );
    let embeds = extract_embeds(d);
    assert(views(embeds@).len() == embeds@.len());
    if d.at("edited_timestamp").is_null() {
        if embeds.len() > 0 {
            also(
                &mut out,
                Action::Preview {
                    name: place.name.clone(),
                    message_id: message_id.to_owned(),
                    embeds,
                },
            );
        }
        return out;
    }
    let body = body_of(d);
    also(
        &mut out,
        Action::Edited {
            name: place.name.clone(),
            message_id: message_id.to_owned(),
            body: resolve_mentions(
                body.as_str(),
                d,
                me.user_id.as_str(),
                lend(&me.display_name),
            ),
            embeds,
            attachments: extract_pictures(d),
        },
    );
    also(
        &mut out,
        Action::Controls {
            name: place.name.clone(),
            message_id: message_id.to_owned(),
            message: d.copy(),
        },
    );
    out
}

/// What to do about messages that were deleted, one or many.
pub open spec fn messages_deleted(known: Map<Seq<char>, KnownV>, d: JsonV, many: bool) -> Seq<ActionV> {
    match conversation_of(known, d) {
        Some(place) => if many {
            seq![
                ActionV::Deleted {
                    name: place.name,
                    message_ids: collect(d.at("ids"@).items(), text_reader()),
                },
            ]
        } else {
            match d.at("id"@).text() {
                Some(id) => seq![ActionV::Deleted { name: place.name, message_ids: seq![id] }],
                None => Seq::empty(),
            }
        },
        None => Seq::empty(),
    }
}

fn read_texts(value: &Json) -> (r: Vec<String>)
    ensures
        texts(r@) == collect(value@.items(), text_reader()),
{
    let none: Vec<Json> = Vec::new();
    let list = elements(value, &none);
    let ghost all = value@.items();
    let mut out: Vec<String> = Vec::new();
    let mut i: usize = 0;
    assert(texts(out@) =~= collect(all.take(0), text_reader()));
    while i < list.len()
        invariant
            i <= list.len(),
            all == views(list@),
            texts(out@) == collect(all.take(i as int), text_reader()),
        decreases list.len() - i,
    {
        let ghost before = out@;
        proof {
            lemma_collect_step(all, text_reader(), i as int);
            assert(all[i as int] == list@[i as int]@);
        }
        match list[i].text() {
            Some(t) => {
                let own_text = t.to_owned();
                out.push(own_text);
                assert(texts(out@) =~= texts(before).push(own_text@));
            },
            None => {},
        }
        i += 1;
    }
    assert(all.take(i as int) =~= all);
    out
}

pub fn on_messages_deleted(channel_map: &TextMap<Known>, d: &Json, many: bool) -> (r: Vec<Action>)
    ensures
        views(r@) == messages_deleted(map_views(channel_map@), d@, many),
{
    let place = match find_conversation(channel_map, d) {
        Some(k) => k,
        None => {
            return none();
        },
    };
    if many {
        return one(
            Action::Deleted { name: place.name.clone(), message_ids: read_texts(d.at("ids")) },
        );
    }
    match d.at("id").text() {
        Some(id) => {
            let mut ids: Vec<String> = Vec::new();
            ids.push(id.to_owned());
            assert(texts(ids@) =~= seq![id@]);
            one(Action::Deleted { name: place.name.clone(), message_ids: ids })
        },
        None => none(),
    }
}

/// What to do about a reaction that came or went.
pub open spec fn reacted(known: Map<Seq<char>, KnownV>, me: MeV, d: JsonV, added: bool) -> Seq<ActionV> {
    match (conversation_of(known, d), d.at("message_id"@).text()) {
        (Some(place), Some(message_id)) => seq![
            ActionV::React {
                name: place.name,
                message_id,
                emoji: emoji_key(d.at("emoji"@), text_or_v(d.at("emoji"@).at("name"@), "?"@)),
                is_me: d.at("user_id"@).text() == Some(me.user_id),
                added,
            },
        ],
        _ => Seq::empty(),
    }
}

pub fn on_reaction(channel_map: &TextMap<Known>, me: &Me, d: &Json, added: bool) -> (r: Vec<Action>)
    ensures
        views(r@) == reacted(map_views(channel_map@), me@, d@, added),
{
    match (find_conversation(channel_map, d), d.at("message_id").text()) {
        (Some(place), Some(message_id)) => {
            let emoji = d.at("emoji");
            one(
                Action::React {
                    name: place.name.clone(),
                    message_id: message_id.to_owned(),
                    emoji: write_emoji(emoji, text_or(emoji.at("name"), "?")),
                    is_me: is_str(d.at("user_id"), me.user_id.as_str()),
                    added,
                },
            )
        },
        _ => none(),
    }
}

/// What to do about reactions that were cleared: of one emoji where one is named, and else all.
pub open spec fn reactions_cleared(known: Map<Seq<char>, KnownV>, d: JsonV, of_one: bool) -> Seq<ActionV> {
    match (conversation_of(known, d), d.at("message_id"@).text()) {
        (Some(place), Some(message_id)) => seq![
            ActionV::ClearReactions {
                name: place.name,
                message_id,
                emoji: match d.at("emoji"@).at("name"@).text() {
                    Some(name) => if of_one {
                        Some(emoji_key(d.at("emoji"@), name))
                    } else {
                        None
                    },
                    None => None,
                },
            },
        ],
        _ => Seq::empty(),
    }
}

pub fn on_reactions_cleared(channel_map: &TextMap<Known>, d: &Json, of_one: bool) -> (r: Vec<Action>)
    ensures
        views(r@) == reactions_cleared(map_views(channel_map@), d@, of_one),
{
    match (find_conversation(channel_map, d), d.at("message_id").text()) {
        (Some(place), Some(message_id)) => {
            let emoji = match d.at("emoji").at("name").text() {
                Some(name) => if of_one {
                    Some(write_emoji(d.at("emoji"), name))
                } else {
                    None
                },
                None => None,
            };
            one(
                Action::ClearReactions {
                    name: place.name.clone(),
                    message_id: message_id.to_owned(),
                    emoji,
                },
            )
        },
        _ => none(),
    }
}

/// What somebody who is typing is called, as far as the dispatch says.
pub open spec fn typing_nick(d: JsonV) -> Option<Seq<char>> {
    let member = d.at("member"@);
    or_else(
        filled(member.at("nick"@).text()),
        or_else(
            filled(member.at("user"@).at("global_name"@).text()),
            filled(member.at("user"@).at("username"@).text()),
        ),
    )
}

/// What to do about somebody who is typing; this account itself is not told of.
pub open spec fn typing_started(known: Map<Seq<char>, KnownV>, me: MeV, d: JsonV) -> Seq<ActionV> {
    match (d.at("channel_id"@).text(), d.at("user_id"@).text()) {
        (Some(channel_id), Some(user_id)) => if user_id != me.user_id && known.contains_key(
            channel_id,
        ) {
            seq![ActionV::Typing { name: known[channel_id].name, user_id, nick: typing_nick(d) }]
        } else {
            Seq::empty()
        },
        _ => Seq::empty(),
    }
}

pub fn on_typing(channel_map: &TextMap<Known>, me: &Me, d: &Json) -> (r: Vec<Action>)
    ensures
        views(r@) == typing_started(map_views(channel_map@), me@, d@),
{
    match (d.at("channel_id").text(), d.at("user_id").text()) {
        (Some(channel_id), Some(user_id)) => {
            if same(user_id, me.user_id.as_str()) {
                return none();
            }
            match channel_map.get(channel_id) {
                Some(place) => {
                    let member = d.at("member");
                    let nick = first_of(
                        only_filled(member.at("nick").text()),
                        first_of(
                            only_filled(member.at("user").at("global_name").text()),
                            only_filled(member.at("user").at("username").text()),
                        ),
                    );
                    one(
                        Action::Typing {
                            name: place.name.clone(),
                            user_id: user_id.to_owned(),
                            nick: own(nick),
                        },
                    )
                },
                None => none(),
            }
        },
        _ => none(),
    }
}

/// What is told of somebody who is typing: what the dispatch calls them, else what is remembered.
pub open spec fn typing_notice(
    account_id: Seq<char>,
    buffer_id: Seq<char>,
    nick: Option<Seq<char>>,
    remembered: Option<Seq<char>>,
) -> JsonV {
    nothing().put("accountId"@, jstr(account_id)).put("bufferId"@, jstr(buffer_id)).put(
        "nick"@,
        jstr(
            match or_else(nick, remembered) {
                Some(n) => n,
                None => "Someone"@,
            },
        ),
    ).put("expiresInMs"@, JsonV::Int(TYPING_TTL_MS as int))
}

pub fn tell_typing(account_id: &str, buffer_id: &str, nick: Option<&str>, remembered: Option<&str>) -> (r:
    Json)
    ensures
        r@ == typing_notice(account_id@, buffer_id@, maybe_str(nick), maybe_str(remembered)),
{
    let name = match first_of(nick, remembered) {
        Some(n) => n,
        None => "Someone",
    };
    Json::object().put("accountId", Json::string(account_id)).put(
        "bufferId",
        Json::string(buffer_id),
    ).put("nick", Json::string(name)).put("expiresInMs", Json::Int(TYPING_TTL_MS as i128))
}

/// What to do about a conversation that was read elsewhere.
pub open spec fn read_elsewhere(known: Map<Seq<char>, KnownV>, d: JsonV) -> Seq<ActionV> {
    match d.at("channel_id"@).text() {
        Some(channel_id) => if known.contains_key(channel_id) {
            seq![ActionV::Read { name: known[channel_id].name }]
        } else {
            Seq::empty()
        },
        None => Seq::empty(),
    }
}

pub fn on_read(channel_map: &TextMap<Known>, d: &Json) -> (r: Vec<Action>)
    ensures
        views(r@) == read_elsewhere(map_views(channel_map@), d@),
{
    match d.at("channel_id").text() {
        Some(channel_id) => match channel_map.get(channel_id) {
            Some(place) => one(Action::Read { name: place.name.clone() }),
            None => none(),
        },
        None => none(),
    }
}

/// What is told of a conversation that was read elsewhere.
pub fn tell_read(account_id: &str, buffer_id: &str) -> (r: Json)
    ensures
        r@ == nothing().put("accountId"@, jstr(account_id@)).put("bufferId"@, jstr(buffer_id@)),
{
    Json::object().put("accountId", Json::string(account_id)).put(
        "bufferId",
        Json::string(buffer_id),
    )
}

/// What to do about a membership of this account's own that changed, unless it still waits for the
/// server's rules to be agreed to.
pub open spec fn own_member_updated(me: MeV, d: JsonV) -> Seq<ActionV> {
    match d.at("guild_id"@).text() {
        Some(guild_id) => if d.at("user"@).at("id"@).text() == Some(me.user_id) && !d.at(
            "pending"@,
        ).is_true() {
            seq![ActionV::OwnMember { guild_id, roles: roles_of(Some(d)) }]
        } else {
            Seq::empty()
        },
        None => Seq::empty(),
    }
}

fn on_own_member(me: &Me, d: &Json) -> (r: Vec<Action>)
    ensures
        views(r@) == own_member_updated(me@, d@),
{
    match d.at("guild_id").text() {
        Some(guild_id) => {
            if !is_str(d.at("user").at("id"), me.user_id.as_str()) || d.at("pending").is_true() {
                return none();
            }
            one(
                Action::OwnMember {
                    guild_id: guild_id.to_owned(),
                    roles: member_role_ids(Some(d)),
                },
            )
        },
        None => none(),
    }
}

/// Whether a server has to be read again once this account's membership of it changed: it
/// was kept out until now, or its roles are not what they were.
pub fn should_resync(was_gated: bool, roles_changed: bool) -> (r: bool)
    ensures
        r == (was_gated || roles_changed),
{
    was_gated || roles_changed
}

/// The picture of an account, by its owner and its hash.
pub open spec fn own_picture(user_id: Seq<char>, hash: Seq<char>, rest: Seq<char>) -> Seq<char> {
    "https://cdn.discordapp.com/avatars/"@ + user_id + "/"@ + hash + rest
}

pub fn write_own_picture(user_id: &str, hash: &str, rest: &str) -> (r: String)
    ensures
        r@ == own_picture(user_id@, hash@, rest@),
{
    let mut url = "https://cdn.discordapp.com/avatars/".to_owned();
    url.append(user_id);
    url.append("/");
    url.append(hash);
    url.append(rest);
    url
}

/// What to do about this account's own name or picture.
pub open spec fn user_updated(me: MeV, d: JsonV) -> Seq<ActionV> {
    if d.at("id"@).text() != Some(me.user_id) {
        Seq::empty()
    } else {
        let name = or_else(filled(d.at("global_name"@).text()), d.at("username"@).text());
        let renamed = match filled(name) {
            Some(name) => Some(ActionV::Renamed { name }),
            None => None,
        };
        let picture = match d.at("avatar"@).text() {
            Some(hash) => Some(
                ActionV::Avatar { url: own_picture(me.user_id, hash, ".png?size=128"@) },
            ),
            None => None,
        };
        and_maybe(and_maybe(Seq::empty(), renamed), picture)
    }
}

fn on_user_update(me: &Me, d: &Json) -> (r: Vec<Action>)
    ensures
        views(r@) == user_updated(me@, d@),
{
    if !is_str(d.at("id"), me.user_id.as_str()) {
        return none();
    }
    let mut out = none();
    let name = first_of(only_filled(d.at("global_name").text()), d.at("username").text());
    match only_filled(name) {
        Some(name) => {
            also(&mut out, Action::Renamed { name: name.to_owned() });
        },
        None => {},
    }
    match d.at("avatar").text() {
        Some(hash) => {
            also(
                &mut out,
                Action::Avatar {
                    url: write_own_picture(me.user_id.as_str(), hash, ".png?size=128"),
                },
            );
        },
        None => {},
    }
    out
}

/// What is told of this account's picture.
pub fn tell_avatar(account_id: &str, url: &str) -> (r: Json)
    ensures
        r@ == nothing().put("accountId"@, jstr(account_id@)).put("avatarUrl"@, jstr(url@)),
{
    Json::object().put("accountId", Json::string(account_id)).put("avatarUrl", Json::string(url))
}

/// The form itself in a dispatch that brings one.
pub open spec fn modal_in(d: JsonV) -> JsonV {
    if d.at("modal"@) is Object {
        d.at("modal"@)
    } else {
        d
    }
}

fn find_modal(d: &Json) -> (r: &Json)
    ensures
        r@ == modal_in(d@),
{
    match d.at("modal").fields() {
        Some(_) => d.at("modal"),
        None => d,
    }
}

/// What is told of a form to fill in.
pub open spec fn modal_notice(account_id: Seq<char>, buffer_id: Seq<char>, d: JsonV) -> JsonV {
    let modal = modal_in(d);
    nothing().put("accountId"@, jstr(account_id)).put("bufferId"@, jstr(buffer_id)).put(
        "id"@,
        modal.at("id"@),
    ).put("customId"@, modal.at("custom_id"@)).put(
        "applicationId"@,
        jopt(or_else(modal.at("application_id"@).text(), d.at("application_id"@).text())),
    ).put("title"@, jstr(text_or_v(modal.at("title"@), "Fill this in"@))).put(
        "fields"@,
        JsonV::List(form_fields(modal.at("components"@).items())),
    )
}

pub fn tell_modal(account_id: &str, buffer_id: &str, d: &Json) -> (r: Json)
    ensures
        r@ == modal_notice(account_id@, buffer_id@, d@),
{
    let modal = find_modal(d);
    let application = first_of(
        modal.at("application_id").text(),
        d.at("application_id").text(),
    );
    Json::object().put("accountId", Json::string(account_id)).put(
        "bufferId",
        Json::string(buffer_id),
    ).put("id", modal.at("id").copy()).put("customId", modal.at("custom_id").copy()).put(
        "applicationId",
        Json::opt(application),
    ).put("title", Json::string(text_or(modal.at("title"), "Fill this in"))).put(
        "fields",
        Json::list(modal_fields(modal)),
    )
}

/// What to do about somebody who moved in voice.
pub open spec fn voice_moved(me: MeV, d: JsonV) -> Seq<ActionV> {
    match d.at("user_id"@).text() {
        Some(user_id) => {
            let start = seq![
                ActionV::Voice {
                    user_id,
                    guild_id: d.at("guild_id"@).text(),
                    channel_id: d.at("channel_id"@).text(),
                    name: voice_name(d),
                    avatar: voice_picture(d),
                    dispatch: d,
                },
            ];
            if user_id == me.user_id {
                start.push(
                    ActionV::OwnVoice {
                        guild_id: d.at("guild_id"@).text(),
                        channel_id: d.at("channel_id"@).text(),
                        session_id: d.at("session_id"@).text(),
                    },
                )
            } else {
                match d.at("channel_id"@).text() {
                    Some(channel_id) => start.push(ActionV::OtherVoice { user_id, channel_id }),
                    None => start,
                }
            }
        },
        None => Seq::empty(),
    }
}

fn on_voice_state(me: &Me, d: &Json) -> (r: Vec<Action>)
    ensures
        views(r@) == voice_moved(me@, d@),
{
    let user_id = match d.at("user_id").text() {
        Some(id) => id,
        None => {
            return none();
        },
    };
    let mut out = one(
        Action::Voice {
            user_id: user_id.to_owned(),
            guild_id: own(d.at("guild_id").text()),
            channel_id: own(d.at("channel_id").text()),
            name: own(voice_member_name(d)),
            avatar: voice_member_avatar(d),
            dispatch: d.copy(),
        },
    );
    if same(user_id, me.user_id.as_str()) {
        also(
            &mut out,
            Action::OwnVoice {
                guild_id: own(d.at("guild_id").text()),
                channel_id: own(d.at("channel_id").text()),
                session_id: own(d.at("session_id").text()),
            },
        );
    } else {
        match d.at("channel_id").text() {
            Some(channel_id) => {
                also(
                    &mut out,
                    Action::OtherVoice {
                        user_id: user_id.to_owned(),
                        channel_id: channel_id.to_owned(),
                    },
                );
            },
            None => {},
        }
    }
    out
}

/// What is told of this account's own move in voice.
pub fn tell_own_voice(account_id: &str, channel_id: Option<&str>, session_id: Option<&str>) -> (r: Json)
    ensures
        r@ == nothing().put("accountId"@, jstr(account_id@)).put(
            "channelId"@,
            jopt(maybe_str(channel_id)),
        ).put("sessionId"@, jopt(maybe_str(session_id))),
{
    Json::object().put("accountId", Json::string(account_id)).put(
        "channelId",
        Json::opt(channel_id),
    ).put("sessionId", Json::opt(session_id))
}

/// What is told once this account left voice because somebody came.
pub fn tell_voice_left(account_id: &str, user_id: &str) -> (r: Json)
    ensures
        r@ == nothing().put("accountId"@, jstr(account_id@)).put(
            "reason"@,
            jstr("someone else joined"@),
        ).put("userId"@, jstr(user_id@)),
{
    Json::object().put("accountId", Json::string(account_id)).put(
        "reason",
        Json::string("someone else joined"),
    ).put("userId", Json::string(user_id))
}

/// What is told of where the audio goes; the token itself is not.
pub fn tell_voice_server(
    account_id: &str,
    guild_id: Option<&str>,
    endpoint: Option<&str>,
    has_token: bool,
) -> (r: Json)
    ensures
        r@ == nothing().put("accountId"@, jstr(account_id@)).put(
            "guildId"@,
            jopt(maybe_str(guild_id)),
        ).put("endpoint"@, jopt(maybe_str(endpoint))).put("hasToken"@, JsonV::Bool(has_token)),
{
    Json::object().put("accountId", Json::string(account_id)).put(
        "guildId",
        Json::opt(guild_id),
    ).put("endpoint", Json::opt(endpoint)).put("hasToken", Json::Bool(has_token))
}

/// Whether a list names this account.
pub open spec fn names(items: Seq<JsonV>, user_id: Seq<char>) -> bool {
    exists|i: int| 0 <= i < items.len() && (#[trigger] items[i]).text() == Some(user_id)
}

fn list_names(value: &Json, user_id: &str) -> (r: bool)
    ensures
        r == names(value@.items(), user_id@),
{
    let none: Vec<Json> = Vec::new();
    let list = elements(value, &none);
    let ghost all = value@.items();
    let mut i: usize = 0;
    while i < list.len()
        invariant
            i <= list.len(),
            all == views(list@),
            all == value@.items(),
            forall|j: int| 0 <= j < i ==> (#[trigger] all[j]).text() != Some(user_id@),
        decreases list.len() - i,
    {
        assert(all[i as int] == list@[i as int]@);
        if is_str(&list[i], user_id) {
            return true;
        }
        i += 1;
    }
    false
}

/// What is told of somebody who came or went.
pub fn tell_presence(account_id: &str, user_id: &str, status: &str) -> (r: Json)
    ensures
        r@ == nothing().put("accountId"@, jstr(account_id@)).put("userId"@, jstr(user_id@)).put(
            "status"@,
            jstr(status@),
        ),
{
    Json::object().put("accountId", Json::string(account_id)).put(
        "userId",
        Json::string(user_id),
    ).put("status", Json::string(status))
}

/// What to do about a dispatch that needs nothing but itself.
pub open spec fn plain_actions(kind: Dispatch, me: MeV, d: JsonV) -> Seq<ActionV> {
    match kind {
        Dispatch::RelationshipAdd => seq![ActionV::FriendAdded { relationship: d }],
        Dispatch::RelationshipRemove => match d.at("id"@).text() {
            Some(user_id) => seq![ActionV::FriendRemoved { user_id }],
            None => Seq::empty(),
        },
        Dispatch::RecipientAdd => match d.at("channel_id"@).text() {
            Some(channel_id) => seq![
                ActionV::Recipient { channel_id, user: d.at("user"@), joined: true },
            ],
            None => Seq::empty(),
        },
        Dispatch::RecipientRemove => match d.at("channel_id"@).text() {
            Some(channel_id) => seq![
                ActionV::Recipient { channel_id, user: d.at("user"@), joined: false },
            ],
            None => Seq::empty(),
        },
        Dispatch::GuildMemberUpdate => own_member_updated(me, d),
        Dispatch::UserUpdate => user_updated(me, d),
        Dispatch::ModalCreate => seq![
            ActionV::Modal {
                channel_id: or_else(
                    modal_in(d).at("channel_id"@).text(),
                    d.at("channel_id"@).text(),
                ),
                dispatch: d,
            },
        ],
        Dispatch::PinsUpdate => match d.at("channel_id"@).text() {
            Some(channel_id) => seq![ActionV::Pins { channel_id }],
            None => Seq::empty(),
        },
        Dispatch::SettingsUpdate => seq![ActionV::GuildSettings { settings: d }],
        Dispatch::GuildMember => match d.at("guild_id"@).text() {
            Some(guild_id) => seq![ActionV::MembersChanged { guild_id }],
            None => Seq::empty(),
        },
        Dispatch::MemberListUpdate => match d.at("guild_id"@).text() {
            Some(guild_id) => seq![ActionV::MemberList { guild_id, dispatch: d }],
            None => Seq::empty(),
        },
        Dispatch::VoiceStateUpdate => voice_moved(me, d),
        Dispatch::CallRinging => match d.at("channel_id"@).text() {
            Some(channel_id) => seq![
                ActionV::Call { channel_id, ringing: names(d.at("ringing"@).items(), me.user_id) },
            ],
            None => Seq::empty(),
        },
        Dispatch::CallDelete => match d.at("channel_id"@).text() {
            Some(channel_id) => seq![ActionV::Call { channel_id, ringing: false }],
            None => Seq::empty(),
        },
        Dispatch::VoiceServerUpdate => seq![
            ActionV::VoiceServer {
                guild_id: d.at("guild_id"@).text(),
                endpoint: d.at("endpoint"@).text(),
                token: d.at("token"@).text(),
            },
        ],
        Dispatch::StreamSaid => seq![ActionV::Stream { dispatch: d }],
        Dispatch::StreamDelete => seq![ActionV::StreamGone { dispatch: d }],
        Dispatch::PresenceUpdate => match d.at("user"@).at("id"@).text() {
            Some(user_id) => seq![
                ActionV::Presence { user_id, status: text_or_v(d.at("status"@), "offline"@) },
            ],
            None => Seq::empty(),
        },
        _ => Seq::empty(),
    }
}

pub fn on_plain(kind: Dispatch, me: &Me, d: &Json) -> (r: Vec<Action>)
    ensures
        views(r@) == plain_actions(kind, me@, d@),
{
    match kind {
        Dispatch::RelationshipAdd => one(Action::FriendAdded { relationship: d.copy() }),
        Dispatch::RelationshipRemove => match d.at("id").text() {
            Some(user_id) => one(Action::FriendRemoved { user_id: user_id.to_owned() }),
            None => none(),
        },
        Dispatch::RecipientAdd => match d.at("channel_id").text() {
            Some(channel_id) => one(
                Action::Recipient {
                    channel_id: channel_id.to_owned(),
                    user: d.at("user").copy(),
                    joined: true,
                },
            ),
            None => none(),
        },
        Dispatch::RecipientRemove => match d.at("channel_id").text() {
            Some(channel_id) => one(
                Action::Recipient {
                    channel_id: channel_id.to_owned(),
                    user: d.at("user").copy(),
                    joined: false,
                },
            ),
            None => none(),
        },
        Dispatch::GuildMemberUpdate => on_own_member(me, d),
        Dispatch::UserUpdate => on_user_update(me, d),
        Dispatch::ModalCreate => {
            let channel = first_of(
                find_modal(d).at("channel_id").text(),
                d.at("channel_id").text(),
            );
            one(Action::Modal { channel_id: own(channel), dispatch: d.copy() })
        },
        Dispatch::PinsUpdate => match d.at("channel_id").text() {
            Some(channel_id) => one(Action::Pins { channel_id: channel_id.to_owned() }),
            None => none(),
        },
        Dispatch::SettingsUpdate => one(Action::GuildSettings { settings: d.copy() }),
        Dispatch::GuildMember => match d.at("guild_id").text() {
            Some(guild_id) => one(Action::MembersChanged { guild_id: guild_id.to_owned() }),
            None => none(),
        },
        Dispatch::MemberListUpdate => match d.at("guild_id").text() {
            Some(guild_id) => one(
                Action::MemberList { guild_id: guild_id.to_owned(), dispatch: d.copy() },
            ),
            None => none(),
        },
        Dispatch::VoiceStateUpdate => on_voice_state(me, d),
        Dispatch::CallRinging => match d.at("channel_id").text() {
            Some(channel_id) => one(
                Action::Call {
                    channel_id: channel_id.to_owned(),
                    ringing: list_names(d.at("ringing"), me.user_id.as_str()),
                },
            ),
            None => none(),
        },
        Dispatch::CallDelete => match d.at("channel_id").text() {
            Some(channel_id) => one(
                Action::Call { channel_id: channel_id.to_owned(), ringing: false },
            ),
            None => none(),
        },
        Dispatch::VoiceServerUpdate => one(
            Action::VoiceServer {
                guild_id: own(d.at("guild_id").text()),
                endpoint: own(d.at("endpoint").text()),
                token: own(d.at("token").text()),
            },
        ),
        Dispatch::StreamSaid => one(Action::Stream { dispatch: d.copy() }),
        Dispatch::StreamDelete => one(Action::StreamGone { dispatch: d.copy() }),
        Dispatch::PresenceUpdate => match d.at("user").at("id").text() {
            Some(user_id) => one(
                Action::Presence {
                    user_id: user_id.to_owned(),
                    status: text_or(d.at("status"), "offline").to_owned(),
                },
            ),
            None => none(),
        },
        _ => none(),
    }
}

/// A call rings only while it names this account: once it no longer does, or is over, it has
/// stopped.
pub proof fn law_ringing_stops(me: MeV, d: JsonV, channel_id: Seq<char>)
    requires
        d.at("channel_id"@).text() == Some(channel_id),
        !names(d.at("ringing"@).items(), me.user_id),
    ensures
        plain_actions(Dispatch::CallRinging, me, d) == plain_actions(Dispatch::CallDelete, me, d),
{
}

/// This account is never told that it is typing itself.
pub proof fn law_own_typing_is_not_told(known: Map<Seq<char>, KnownV>, me: MeV, d: JsonV)
    requires
        d.at("user_id"@).text() == Some(me.user_id),
    ensures
        typing_started(known, me, d).len() == 0,
{
}

/// An update without the moment of an edit never touches what was written.
pub proof fn law_a_preview_is_no_edit(known: Map<Seq<char>, KnownV>, me: MeV, d: JsonV)
    requires
        d.at("edited_timestamp"@) is Null,
    ensures
        forall|i: int|
            0 <= i < message_updated(known, me, d).len() ==> !(#[trigger] message_updated(
                known,
                me,
                d,
            )[i] is Edited),
{
}

/// Somebody among the relationships is shown by their id, their names, their picture and the status that
/// is known of them.
pub proof fn law_a_friend_is_shown(relationship: JsonV, statuses: Map<Seq<char>, Seq<char>>)
    ensures
        ({
            let user = relationship.at("user"@);
            let r = friend_row(relationship, statuses);
            &&& r is Some <==> user.at("id"@) is Str
            &&& r is Some ==> {
                let id = user.at("id"@)->Str_0;
                &&& r->0.at("userId"@) == user.at("id"@)
                &&& user.at("username"@) is Str ==> r->0.at("username"@) == user.at("username"@)
                &&& !(user.at("username"@) is Str) ==> r->0.at("username"@) == JsonV::Str(
                    "unknown"@,
                )
                &&& r->0.at("globalName"@).text() == user.at("global_name"@).text()
                &&& r->0.at("avatarUrl"@).text() == set_picture(user)
                &&& statuses.contains_key(id) ==> r->0.at("status"@) == JsonV::Str(statuses[id])
                &&& !statuses.contains_key(id) ==> r->0.at("status"@) == JsonV::Str("offline"@)
            }
        }),
{
    broadcast use law_put_then_read;

    reveal_strlit("userId");
    reveal_strlit("username");
    reveal_strlit("globalName");
    reveal_strlit("avatarUrl");
    reveal_strlit("status");
    assert("userId"@.len() == 6);
    assert("username"@.len() == 8);
    assert("globalName"@.len() == 10);
    assert("avatarUrl"@.len() == 9);
    assert("status"@.len() == 6);
    assert("status"@[0] == 's');
    assert("userId"@[0] == 'u');
}

/// Friends are shown, and those who asked and those who were asked; nobody who is blocked is, nor
/// anybody else.
pub proof fn law_the_blocked_are_not_shown(
    relationship: JsonV,
    statuses: Map<Seq<char>, Seq<char>>,
)
    ensures
        ({
            let kind = relationship.at("type"@);
            let shown = kind == JsonV::Int(1) || kind == JsonV::Int(3) || kind == JsonV::Int(4);
            &&& shown ==> shown_friend(relationship, statuses) == friend_row(relationship, statuses)
            &&& !shown ==> shown_friend(relationship, statuses) is None
        }),
{
}

/// Somebody who is taken off a list of friends is off it, and everybody else is on it still.
pub proof fn law_one_friend_is_taken_off(friends: Seq<JsonV>, user_id: Seq<char>, row: JsonV)
    ensures
        collect(friends, but_for(user_id)).contains(row) <==> friends.contains(row) && row.at(
            "userId"@,
        ) != JsonV::Str(user_id),
{
    let left = collect(friends, but_for(user_id));
    if left.contains(row) {
        let k = choose|k: int| 0 <= k < left.len() && left[k] == row;
        crate::json::law_collecting_adds_nothing(friends, but_for(user_id), k);
        let i = choose|i: int|
            0 <= i < friends.len() && but_for(user_id)(#[trigger] friends[i]) == Some(left[k]);
        assert(friends[i] == row);
    }
    if friends.contains(row) && row.at("userId"@) != JsonV::Str(user_id) {
        let i = choose|i: int| 0 <= i < friends.len() && friends[i] == row;
        crate::json::law_collecting_loses_nothing(friends, but_for(user_id), i);
    }
}

/// A new friend comes last, once: what was there of them is gone, and everybody else stays.
pub proof fn law_a_friend_is_listed_once(friends: Seq<JsonV>, relationship: JsonV, row: JsonV)
    requires
        relationship.at("user"@).at("id"@) is Str,
    ensures
        ({
            let id = relationship.at("user"@).at("id"@)->Str_0;
            let after = friends_after(friends, relationship);
            &&& after.len() > 0
            &&& after.last().at("userId"@) == JsonV::Str(id)
            &&& after.drop_last() == collect(friends, but_for(id))
            &&& row.at("userId"@) != JsonV::Str(id) && friends.contains(row) ==> after.contains(row)
            &&& row.at("userId"@) == JsonV::Str(id) && after.contains(row) ==> row == after.last()
        }),
{
    let id = relationship.at("user"@).at("id"@)->Str_0;
    let others = collect(friends, but_for(id));
    let new = friend_row(relationship, Map::empty())->0;
    law_a_friend_is_shown(relationship, Map::empty());
    law_one_friend_is_taken_off(friends, id, row);
    let after = friends_after(friends, relationship);
    assert(after == others.push(new));
    assert(after.drop_last() =~= others);
    if others.contains(row) {
        let k = choose|k: int| 0 <= k < others.len() && others[k] == row;
        assert(after[k] == row);
    }
    if after.contains(row) {
        let k = choose|k: int| 0 <= k < after.len() && after[k] == row;
        if k < others.len() {
            assert(others[k] == row);
        }
    }
}

/// A message that came in and says anything is told of with who wrote it, what it says with its mentions
/// written out, and whether it mentions this account.
pub proof fn law_an_incoming_message_is_told_whole(d: JsonV, me: MeV)
    ensures
        ({
            let r = incoming(d, me);
            let author = d.at("author"@);
            &&& r is Some <==> !says_nothing(d)
            &&& r is Some ==> {
                &&& r->0.from == author_name(author)
                &&& r->0.body == mentions_resolved(
                    body_or_empty(d),
                    d.at("mentions"@).items(),
                    me.user_id,
                    me.display_name,
                )
                &&& r->0.reply_to == reply_in(d)
                &&& r->0.id == d.at("id"@).text()
                &&& r->0.is_mention <==> exists|i: int|
                    0 <= i < d.at("mentions"@).items().len() && (#[trigger] d.at(
                        "mentions"@,
                    ).items()[i]).at("id"@) == JsonV::Str(me.user_id)
                &&& r->0.avatar_url == set_picture(author)
                &&& r->0.embeds == embeds_in(d)
                &&& r->0.attachments == pictures_in(d)
                &&& r->0.author_id == author.at("id"@).text()
            }
        }),
{
    let mentions = d.at("mentions"@).items();
    if is_mentioned(d, me.user_id) {
        let i = choose|i: int|
            0 <= i < mentions.len() && (#[trigger] mentions[i]).at("id"@).text() == Some(me.user_id);
        assert(mentions[i].at("id"@) == JsonV::Str(me.user_id));
    }
    if exists|i: int|
        0 <= i < mentions.len() && (#[trigger] mentions[i]).at("id"@) == JsonV::Str(me.user_id) {
        let i = choose|i: int|
            0 <= i < mentions.len() && (#[trigger] mentions[i]).at("id"@) == JsonV::Str(me.user_id);
        assert(mentions[i].at("id"@).text() == Some(me.user_id));
    }
}

/// A new message in a conversation that is known goes to that conversation; its author's face is
/// remembered where they have one, and its buttons, its poll and its pictures are looked after where it
/// has an id. Nothing is done about a message in no known conversation, nor about one that says nothing.
pub proof fn law_a_new_message_goes_to_its_conversation(
    known: Map<Seq<char>, KnownV>,
    me: MeV,
    d: JsonV,
)
    ensures
        ({
            let channel = d.at("channel_id"@).text_or_empty();
            let actions = message_created(known, me, d);
            let author = d.at("author"@);
            let faced = author.at("id"@) is Str && set_picture(author) is Some;
            let heard = known.contains_key(channel) && !says_nothing(d);
            let id = d.at("id"@);
            &&& !heard ==> actions.len() == 0
            &&& heard ==> {
                let at = if faced {
                    1int
                } else {
                    0
                };
                &&& actions.len() > at
                &&& actions[at] == (ActionV::Message {
                    name: known[channel].name,
                    kind: known[channel].kind,
                    message: incoming(d, me)->0,
                })
                &&& faced ==> actions[0] == (ActionV::RememberAvatar {
                    user_id: author.at("id"@)->Str_0,
                    url: set_picture(author)->0,
                })
                &&& !(id is Str) ==> actions.len() == at + 1
                &&& id is Str ==> {
                    let name = known[channel].name;
                    let message_id = id->Str_0;
                    &&& actions.contains(ActionV::Controls { name, message_id, message: d })
                    &&& actions.contains(ActionV::Poll { name, message_id, message: d })
                    &&& d.at("message_snapshots"@) is List ==> actions.contains(
                        ActionV::NameForward {
                            name,
                            message_id,
                            reference: d.at("message_reference"@),
                        },
                    )
                    &&& message_id.len() > 0 ==> actions.contains(
                        ActionV::CacheThumbnails {
                            name,
                            message_id,
                            attachments: pictures_in(d),
                        },
                    )
                    &&& actions.len() == at + 3 + (if d.at("message_snapshots"@) is List {
                        1int
                    } else {
                        0
                    }) + (if message_id.len() > 0 {
                        1int
                    } else {
                        0
                    })
                }
            }
        }),
{
    let channel = d.at("channel_id"@).text_or_empty();
    let actions = message_created(known, me, d);
    let author = d.at("author"@);
    let id = d.at("id"@);
    if known.contains_key(channel) && !says_nothing(d) && id is Str {
        let name = known[channel].name;
        let message_id = id->Str_0;
        let at = if author.at("id"@) is Str && set_picture(author) is Some {
            1int
        } else {
            0
        };
        let fwd = if d.at("message_snapshots"@) is List {
            1int
        } else {
            0
        };
        if fwd == 1 {
            assert(actions[at + 1] == (ActionV::NameForward {
                name,
                message_id,
                reference: d.at("message_reference"@),
            }));
        }
        assert(actions[at + fwd + 1] == (ActionV::Controls { name, message_id, message: d }));
        assert(actions[at + fwd + 2] == (ActionV::Poll { name, message_id, message: d }));
        if message_id.len() > 0 {
            assert(actions[at + fwd + 3] == (ActionV::CacheThumbnails {
                name,
                message_id,
                attachments: pictures_in(d),
            }));
        }
    }
}

/// A message that was edited is changed where it stands, with what it says now; one without the moment of
/// an edit only gets its previews, where it has any. Its poll is looked at either way.
pub proof fn law_an_edit_changes_its_message(known: Map<Seq<char>, KnownV>, me: MeV, d: JsonV)
    ensures
        ({
            let channel = d.at("channel_id"@).text_or_empty();
            let actions = message_updated(known, me, d);
            let here = known.contains_key(channel) && d.at("id"@) is Str;
            let edited = !(d.at("edited_timestamp"@) is Null);
            &&& !here ==> actions.len() == 0
            &&& here ==> {
                let name = known[channel].name;
                let message_id = d.at("id"@)->Str_0;
                &&& actions.len() >= 1
                &&& actions[0] == (ActionV::Poll { name, message_id, message: d })
                &&& edited ==> actions.len() == 3
                &&& edited ==> actions[1] == (ActionV::Edited {
                    name,
                    message_id,
                    body: mentions_resolved(
                        body_or_empty(d),
                        d.at("mentions"@).items(),
                        me.user_id,
                        me.display_name,
                    ),
                    embeds: embeds_in(d),
                    attachments: pictures_in(d),
                })
                &&& edited ==> actions[2] == (ActionV::Controls { name, message_id, message: d })
                &&& !edited && embeds_in(d).len() > 0 ==> actions.len() == 2 && actions[1] == (
                ActionV::Preview { name, message_id, embeds: embeds_in(d) })
                &&& !edited && embeds_in(d).len() == 0 ==> actions.len() == 1
            }
        }),
{
}

/// Deleted messages are deleted in their conversation: the one that is named, or all of a list.
pub proof fn law_the_named_messages_are_deleted(known: Map<Seq<char>, KnownV>, d: JsonV)
    ensures
        ({
            let channel = d.at("channel_id"@).text_or_empty();
            let one = messages_deleted(known, d, false);
            let many = messages_deleted(known, d, true);
            &&& !known.contains_key(channel) ==> one.len() == 0 && many.len() == 0
            &&& known.contains_key(channel) && d.at("id"@) is Str ==> one == seq![
                ActionV::Deleted {
                    name: known[channel].name,
                    message_ids: seq![d.at("id"@)->Str_0],
                },
            ]
            &&& !(d.at("id"@) is Str) ==> one.len() == 0
            &&& known.contains_key(channel) ==> many == seq![
                ActionV::Deleted {
                    name: known[channel].name,
                    message_ids: collect(d.at("ids"@).items(), |v: JsonV| v.text()),
                },
            ]
        }),
{
}

/// A reaction that came and the same that went differ in nothing but that; each is about its message in
/// its conversation, by its emoji, and says whether it is this account's.
pub proof fn law_a_reaction_comes_and_goes(known: Map<Seq<char>, KnownV>, me: MeV, d: JsonV, added: bool)
    ensures
        ({
            let channel = d.at("channel_id"@).text_or_empty();
            let emoji = d.at("emoji"@);
            let name = if emoji.at("name"@) is Str {
                emoji.at("name"@)->Str_0
            } else {
                "?"@
            };
            let written = if emoji.at("id"@) is Str {
                "<:"@ + name + ":"@ + emoji.at("id"@)->Str_0 + ">"@
            } else {
                name
            };
            let actions = reacted(known, me, d, added);
            let here = known.contains_key(channel) && d.at("message_id"@) is Str;
            &&& !here ==> actions.len() == 0
            &&& here ==> actions == seq![
                ActionV::React {
                    name: known[channel].name,
                    message_id: d.at("message_id"@)->Str_0,
                    emoji: written,
                    is_me: d.at("user_id"@) == JsonV::Str(me.user_id),
                    added,
                },
            ]
        }),
{
}

/// Reactions are cleared of one emoji where one is named and that is what is asked, and else all of
/// them.
pub proof fn law_reactions_are_cleared_of_their_message(
    known: Map<Seq<char>, KnownV>,
    d: JsonV,
    of_one: bool,
)
    ensures
        ({
            let channel = d.at("channel_id"@).text_or_empty();
            let emoji = d.at("emoji"@);
            let actions = reactions_cleared(known, d, of_one);
            let here = known.contains_key(channel) && d.at("message_id"@) is Str;
            let named = of_one && emoji.at("name"@) is Str;
            &&& !here ==> actions.len() == 0
            &&& here && !named ==> actions == seq![
                ActionV::ClearReactions {
                    name: known[channel].name,
                    message_id: d.at("message_id"@)->Str_0,
                    emoji: None,
                },
            ]
            &&& here && named ==> actions == seq![
                ActionV::ClearReactions {
                    name: known[channel].name,
                    message_id: d.at("message_id"@)->Str_0,
                    emoji: Some(emoji_key(emoji, emoji.at("name"@)->Str_0)),
                },
            ]
        }),
{
}

/// Somebody else who is typing in a known conversation is told of there, by the nearest name that came
/// along; a dispatch about anybody else is passed over.
pub proof fn law_others_are_seen_typing(known: Map<Seq<char>, KnownV>, me: MeV, d: JsonV)
    ensures
        ({
            let actions = typing_started(known, me, d);
            let (channel, user) = (d.at("channel_id"@), d.at("user_id"@));
            let seen = channel is Str && user is Str && user->Str_0 != me.user_id
                && known.contains_key(channel->Str_0);
            let member = d.at("member"@);
            let nick = member.at("nick"@).text_or_empty();
            let chosen = member.at("user"@).at("global_name"@).text_or_empty();
            let signed = member.at("user"@).at("username"@).text_or_empty();
            &&& !seen ==> actions.len() == 0
            &&& seen ==> actions == seq![
                ActionV::Typing {
                    name: known[channel->Str_0].name,
                    user_id: user->Str_0,
                    nick: typing_nick(d),
                },
            ]
            &&& nick.len() > 0 ==> typing_nick(d) == Some(nick)
            &&& nick.len() == 0 && chosen.len() > 0 ==> typing_nick(d) == Some(chosen)
            &&& nick.len() == 0 && chosen.len() == 0 && signed.len() > 0 ==> typing_nick(d) == Some(
                signed,
            )
            &&& nick.len() == 0 && chosen.len() == 0 && signed.len() == 0 ==> typing_nick(d) is None
        }),
{
}

/// What is told of somebody who is typing names the account and the conversation, and them by what the
/// dispatch called them, else by what is remembered of them, for ten seconds.
pub proof fn law_typing_is_told_by_name(
    account_id: Seq<char>,
    buffer_id: Seq<char>,
    nick: Option<Seq<char>>,
    remembered: Option<Seq<char>>,
)
    ensures
        ({
            let j = typing_notice(account_id, buffer_id, nick, remembered);
            &&& j.at("accountId"@) == JsonV::Str(account_id)
            &&& j.at("bufferId"@) == JsonV::Str(buffer_id)
            &&& nick is Some ==> j.at("nick"@) == JsonV::Str(nick->0)
            &&& nick is None && remembered is Some ==> j.at("nick"@) == JsonV::Str(remembered->0)
            &&& nick is None && remembered is None ==> j.at("nick"@) == JsonV::Str("Someone"@)
            &&& j.at("expiresInMs"@) == JsonV::Int(10_000)
        }),
{
    broadcast use law_put_then_read;

    reveal_strlit("accountId");
    reveal_strlit("bufferId");
    reveal_strlit("nick");
    reveal_strlit("expiresInMs");
    assert("accountId"@.len() == 9);
    assert("bufferId"@.len() == 8);
    assert("nick"@.len() == 4);
    assert("expiresInMs"@.len() == 11);
}

/// A conversation that was read elsewhere is read here, where it is known.
pub proof fn law_what_was_read_elsewhere_is_read(known: Map<Seq<char>, KnownV>, d: JsonV)
    ensures
        ({
            let channel = d.at("channel_id"@);
            let here = channel is Str && known.contains_key(channel->Str_0);
            &&& here ==> read_elsewhere(known, d) == seq![
                ActionV::Read { name: known[channel->Str_0].name },
            ]
            &&& !here ==> read_elsewhere(known, d).len() == 0
        }),
{
}

/// A change of membership counts where it is this account's own, names its server, and does not wait for
/// the rules any more; the roles are those that it lists.
pub proof fn law_only_the_own_membership_counts(me: MeV, d: JsonV)
    ensures
        ({
            let counts = d.at("guild_id"@) is Str && d.at("user"@).at("id"@) == JsonV::Str(
                me.user_id,
            ) && d.at("pending"@) != JsonV::Bool(true);
            &&& counts ==> own_member_updated(me, d) == seq![
                ActionV::OwnMember {
                    guild_id: d.at("guild_id"@)->Str_0,
                    roles: collect(d.at("roles"@).items(), |v: JsonV| v.text()),
                },
            ]
            &&& !counts ==> own_member_updated(me, d).len() == 0
        }),
{
}

/// This account is renamed and repainted by what is said of itself, and by nobody else's change.
pub proof fn law_only_the_own_user_is_renamed(me: MeV, d: JsonV)
    ensures
        ({
            let actions = user_updated(me, d);
            let own = d.at("id"@) == JsonV::Str(me.user_id);
            let chosen = d.at("global_name"@).text_or_empty();
            let signed = d.at("username"@).text_or_empty();
            let named = chosen.len() > 0 || signed.len() > 0;
            let name = if chosen.len() > 0 {
                chosen
            } else {
                signed
            };
            let url = "https://cdn.discordapp.com/avatars/"@ + me.user_id + "/"@ + d.at(
                "avatar"@,
            ).text_or_empty() + ".png?size=128"@;
            &&& !own ==> actions.len() == 0
            &&& own && named && d.at("avatar"@) is Str ==> actions == seq![
                ActionV::Renamed { name },
                ActionV::Avatar { url },
            ]
            &&& own && named && !(d.at("avatar"@) is Str) ==> actions == seq![
                ActionV::Renamed { name },
            ]
            &&& own && !named && d.at("avatar"@) is Str ==> actions == seq![ActionV::Avatar { url }]
            &&& own && !named && !(d.at("avatar"@) is Str) ==> actions.len() == 0
        }),
{
}

/// A form is told of with the conversation it is for, its ids, its bot, its title and its fields, whether
/// it came by itself or within its dispatch.
pub proof fn law_a_form_is_told_whole(account_id: Seq<char>, buffer_id: Seq<char>, d: JsonV)
    ensures
        ({
            let j = modal_notice(account_id, buffer_id, d);
            let modal = if d.at("modal"@) is Object {
                d.at("modal"@)
            } else {
                d
            };
            &&& j.at("accountId"@) == JsonV::Str(account_id)
            &&& j.at("bufferId"@) == JsonV::Str(buffer_id)
            &&& j.at("id"@) == modal.at("id"@)
            &&& j.at("customId"@) == modal.at("custom_id"@)
            &&& modal.at("application_id"@) is Str ==> j.at("applicationId"@) == modal.at(
                "application_id"@,
            )
            &&& !(modal.at("application_id"@) is Str) ==> j.at("applicationId"@).text() == d.at(
                "application_id"@,
            ).text()
            &&& modal.at("title"@) is Str ==> j.at("title"@) == modal.at("title"@)
            &&& !(modal.at("title"@) is Str) ==> j.at("title"@) == JsonV::Str("Fill this in"@)
            &&& j.at("fields"@) == JsonV::List(form_fields(modal.at("components"@).items()))
        }),
{
    broadcast use law_put_then_read;

    reveal_strlit("accountId");
    reveal_strlit("bufferId");
    reveal_strlit("id");
    reveal_strlit("customId");
    reveal_strlit("applicationId");
    reveal_strlit("title");
    reveal_strlit("fields");
    assert("accountId"@.len() == 9);
    assert("bufferId"@.len() == 8);
    assert("id"@.len() == 2);
    assert("customId"@.len() == 8);
    assert("applicationId"@.len() == 13);
    assert("title"@.len() == 5);
    assert("fields"@.len() == 6);
    assert("bufferId"@[0] == 'b');
    assert("customId"@[0] == 'c');
}

/// Whoever moves in voice is told of with where they are now; this account's own move is taken as its
/// own, with its session, and anybody else's as somebody's who came, unless they left.
pub proof fn law_a_move_in_voice_is_told(me: MeV, d: JsonV)
    ensures
        ({
            let actions = voice_moved(me, d);
            let user = d.at("user_id"@);
            let (guild_id, channel_id) = (d.at("guild_id"@).text(), d.at("channel_id"@).text());
            &&& !(user is Str) ==> actions.len() == 0
            &&& user is Str ==> {
                let user_id = user->Str_0;
                &&& actions.len() >= 1
                &&& actions[0] == (ActionV::Voice {
                    user_id,
                    guild_id,
                    channel_id,
                    name: voice_name(d),
                    avatar: voice_picture(d),
                    dispatch: d,
                })
                &&& user_id == me.user_id ==> actions.len() == 2 && actions[1] == (
                ActionV::OwnVoice { guild_id, channel_id, session_id: d.at("session_id"@).text() })
                &&& user_id != me.user_id && channel_id is Some ==> actions.len() == 2 && actions[1]
                    == (ActionV::OtherVoice { user_id, channel_id: channel_id->0 })
                &&& user_id != me.user_id && channel_id is None ==> actions.len() == 1
            }
        }),
{
}

/// What is said of friends, of those in a group, of pins, members, presences and settings is handed on
/// with what it is about, and passed over where it does not say.
pub proof fn law_what_is_said_of_people_is_handed_on(me: MeV, d: JsonV)
    ensures
        plain_actions(Dispatch::RelationshipAdd, me, d) == seq![
            ActionV::FriendAdded { relationship: d },
        ],
        d.at("id"@) is Str ==> plain_actions(Dispatch::RelationshipRemove, me, d) == seq![
            ActionV::FriendRemoved { user_id: d.at("id"@)->Str_0 },
        ],
        !(d.at("id"@) is Str) ==> plain_actions(Dispatch::RelationshipRemove, me, d).len() == 0,
        d.at("channel_id"@) is Str ==> plain_actions(Dispatch::RecipientAdd, me, d) == seq![
            ActionV::Recipient {
                channel_id: d.at("channel_id"@)->Str_0,
                user: d.at("user"@),
                joined: true,
            },
        ],
        d.at("channel_id"@) is Str ==> plain_actions(Dispatch::RecipientRemove, me, d) == seq![
            ActionV::Recipient {
                channel_id: d.at("channel_id"@)->Str_0,
                user: d.at("user"@),
                joined: false,
            },
        ],
        d.at("channel_id"@) is Str ==> plain_actions(Dispatch::PinsUpdate, me, d) == seq![
            ActionV::Pins { channel_id: d.at("channel_id"@)->Str_0 },
        ],
        !(d.at("channel_id"@) is Str) ==> {
            &&& plain_actions(Dispatch::RecipientAdd, me, d).len() == 0
            &&& plain_actions(Dispatch::RecipientRemove, me, d).len() == 0
            &&& plain_actions(Dispatch::PinsUpdate, me, d).len() == 0
        },
        plain_actions(Dispatch::SettingsUpdate, me, d) == seq![
            ActionV::GuildSettings { settings: d },
        ],
        d.at("guild_id"@) is Str ==> plain_actions(Dispatch::GuildMember, me, d) == seq![
            ActionV::MembersChanged { guild_id: d.at("guild_id"@)->Str_0 },
        ],
        d.at("guild_id"@) is Str ==> plain_actions(Dispatch::MemberListUpdate, me, d) == seq![
            ActionV::MemberList { guild_id: d.at("guild_id"@)->Str_0, dispatch: d },
        ],
        !(d.at("guild_id"@) is Str) ==> {
            &&& plain_actions(Dispatch::GuildMember, me, d).len() == 0
            &&& plain_actions(Dispatch::MemberListUpdate, me, d).len() == 0
        },
        d.at("user"@).at("id"@) is Str && d.at("status"@) is Str ==> plain_actions(
            Dispatch::PresenceUpdate,
            me,
            d,
        ) == seq![
            ActionV::Presence {
                user_id: d.at("user"@).at("id"@)->Str_0,
                status: d.at("status"@)->Str_0,
            },
        ],
        d.at("user"@).at("id"@) is Str && !(d.at("status"@) is Str) ==> plain_actions(
            Dispatch::PresenceUpdate,
            me,
            d,
        ) == seq![
            ActionV::Presence { user_id: d.at("user"@).at("id"@)->Str_0, status: "offline"@ },
        ],
        !(d.at("user"@).at("id"@) is Str) ==> plain_actions(Dispatch::PresenceUpdate, me, d).len()
            == 0,
        plain_actions(Dispatch::GuildMemberUpdate, me, d) == own_member_updated(me, d),
        plain_actions(Dispatch::UserUpdate, me, d) == user_updated(me, d),
{
}

/// A call rings for this account where its list of those it rings for names this account's user, and
/// not where it does not; voice, streams and forms are handed on with what came along.
pub proof fn law_a_call_rings_for_those_listed(me: MeV, d: JsonV)
    ensures
        ({
            let rings = d.at("ringing"@).items().contains(JsonV::Str(me.user_id));
            let call = plain_actions(Dispatch::CallRinging, me, d);
            &&& d.at("channel_id"@) is Str ==> call == seq![
                ActionV::Call { channel_id: d.at("channel_id"@)->Str_0, ringing: rings },
            ]
            &&& !(d.at("channel_id"@) is Str) ==> call.len() == 0
        }),
        d.at("channel_id"@) is Str ==> plain_actions(Dispatch::CallDelete, me, d) == seq![
            ActionV::Call { channel_id: d.at("channel_id"@)->Str_0, ringing: false },
        ],
        plain_actions(Dispatch::VoiceStateUpdate, me, d) == voice_moved(me, d),
        plain_actions(Dispatch::VoiceServerUpdate, me, d) == seq![
            ActionV::VoiceServer {
                guild_id: d.at("guild_id"@).text(),
                endpoint: d.at("endpoint"@).text(),
                token: d.at("token"@).text(),
            },
        ],
        plain_actions(Dispatch::StreamSaid, me, d) == seq![ActionV::Stream { dispatch: d }],
        plain_actions(Dispatch::StreamDelete, me, d) == seq![ActionV::StreamGone { dispatch: d }],
        d.at("modal"@) is Object && d.at("modal"@).at("channel_id"@) is Str ==> plain_actions(
            Dispatch::ModalCreate,
            me,
            d,
        ) == seq![
            ActionV::Modal { channel_id: d.at("modal"@).at("channel_id"@).text(), dispatch: d },
        ],
        !(d.at("modal"@) is Object) ==> plain_actions(Dispatch::ModalCreate, me, d) == seq![
            ActionV::Modal { channel_id: d.at("channel_id"@).text(), dispatch: d },
        ],
        plain_actions(Dispatch::Unknown, me, d).len() == 0,
{
    let list = d.at("ringing"@).items();
    assert(names(list, me.user_id) == list.contains(JsonV::Str(me.user_id))) by {
        if names(list, me.user_id) {
            let i = choose|i: int|
                0 <= i < list.len() && (#[trigger] list[i]).text() == Some(me.user_id);
            assert(list[i] == JsonV::Str(me.user_id));
        }
        if list.contains(JsonV::Str(me.user_id)) {
            let i = choose|i: int| 0 <= i < list.len() && list[i] == JsonV::Str(me.user_id);
            assert(list[i].text() == Some(me.user_id));
        }
    }
}

/// A list of relationships is gone through one by one, and each is shown or not by itself.
pub proof fn law_each_relationship_is_shown_by_itself(
    relationships: Seq<JsonV>,
    last: JsonV,
    statuses: Map<Seq<char>, Seq<char>>,
)
    ensures
        ({
            let before = collect(relationships, friend_reader(statuses));
            let after = collect(relationships.push(last), friend_reader(statuses));
            let shown = shown_friend(last, statuses);
            &&& shown is Some ==> after == before.push(shown->0)
            &&& shown is None ==> after == before
        }),
{
    assert(relationships.push(last).drop_last() =~= relationships);
}

} // verus!
