//! Which channels and threads of a server become conversations, what they are called and where
//! they stand in the list.
use vstd::prelude::*;
use crate::json::{Json, JsonV, i64_or, is_str, text_or, text_or_v};
use crate::text::{holds, maybe, maybe_str, own, texts, views};
use crate::text_map::{TextMap, lemma_map_views_insert, map_views};
use super::guilds::{can_view_channel, sees};

verus! {

/// A conversation that is registered already: its name and its kind.
#[derive(Debug, PartialEq, Eq)]
pub struct Known {
    pub name: String,
    pub kind: String,
}

pub struct KnownV {
    pub name: Seq<char>,
    pub kind: Seq<char>,
}

impl View for Known {
    type V = KnownV;

    open spec fn view(&self) -> KnownV {
        KnownV { name: self.name@, kind: self.kind@ }
    }
}

/// Where a thread hangs: the name of its channel and its place in the list.
#[derive(Debug, PartialEq, Eq)]
pub struct Parent {
    pub name: String,
    pub sort: i128,
}

pub struct ParentV {
    pub name: Seq<char>,
    pub sort: int,
}

impl View for Parent {
    type V = ParentV;

    open spec fn view(&self) -> ParentV {
        ParentV { name: self.name@, sort: self.sort as int }
    }
}

/// A conversation to open: its channel, its name, the heading it is filed under and its place.
#[derive(Debug, PartialEq, Eq)]
pub struct NewChannel {
    pub channel_id: String,
    pub name: String,
    pub category: Option<String>,
    pub sort: i128,
}

pub struct NewChannelV {
    pub channel_id: Seq<char>,
    pub name: Seq<char>,
    pub category: Option<Seq<char>>,
    pub sort: int,
}

impl View for NewChannel {
    type V = NewChannelV;

    open spec fn view(&self) -> NewChannelV {
        NewChannelV {
            channel_id: self.channel_id@,
            name: self.name@,
            category: maybe(self.category),
            sort: self.sort as int,
        }
    }
}

/// What is known of a server while its channels are placed: its id and name, its roles, whose
/// eyes it is seen through, and all of its channels.
pub struct Place {
    pub guild_id: Seq<char>,
    pub guild_name: Seq<char>,
    pub roles: Seq<JsonV>,
    pub is_owner: bool,
    pub mine: Seq<Seq<char>>,
    pub user_id: Seq<char>,
    pub channels: Seq<JsonV>,
}

/// A heading: its name and its own place.
pub struct Category {
    pub name: Seq<char>,
    pub position: int,
}

/// The last category among `channels` that has the id.
pub open spec fn category_in(channels: Seq<JsonV>, id: Seq<char>) -> Option<Category>
    decreases channels.len(),
{
    if channels.len() == 0 {
        None
    } else {
        let last = channels.last();
        if last.at("type"@).as_i64() == Some(4int) && last.at("id"@).text() == Some(id) {
            Some(
                Category {
                    name: text_or_v(last.at("name"@), "category"@),
                    position: i64_or(last.at("position"@), 0),
                },
            )
        } else {
            category_in(channels.drop_last(), id)
        }
    }
}

/// The category that a channel says it belongs to, where there is one.
pub open spec fn category_of(channels: Seq<JsonV>, channel: JsonV) -> Option<Category> {
    match channel.at("parent_id"@).text() {
        Some(id) => category_in(channels, id),
        None => None,
    }
}

/// A channel's place: uncategorised channels come before every heading, and each heading keeps
/// ten thousand places for its own.
pub open spec fn sort_of(channels: Seq<JsonV>, channel: JsonV) -> int {
    let position = i64_or(channel.at("position"@), 0);
    match category_of(channels, channel) {
        Some(category) => (category.position + 1) * 10_000 + position,
        None => position,
    }
}

pub open spec fn heading_of(channels: Seq<JsonV>, channel: JsonV) -> Option<Seq<char>> {
    match category_of(channels, channel) {
        Some(category) => Some(category.name),
        None => None,
    }
}

/// What has been placed so far.
pub struct Placing {
    pub known: Map<Seq<char>, KnownV>,
    pub visible: Set<Seq<char>>,
    pub parents: Map<Seq<char>, ParentV>,
    pub fresh: Seq<NewChannelV>,
}

/// What a conversation in a server is called.
pub open spec fn channel_title(guild_name: Seq<char>, name: Seq<char>) -> Seq<char> {
    guild_name + "/#"@ + name
}

/// Whether a channel is one people talk in: text or announcements.
pub open spec fn is_text_channel(channel: JsonV) -> bool {
    let kind = i64_or(channel.at("type"@), -1);
    kind == 0 || kind == 5
}

/// Whether a channel only holds posts.
pub open spec fn is_forum(channel: JsonV) -> bool {
    let kind = i64_or(channel.at("type"@), -1);
    kind == 15 || kind == 16
}

pub open spec fn seen_in(place: Place, channel: JsonV) -> bool {
    sees(place.is_owner, place.guild_id, place.roles, place.mine, place.user_id, channel)
}

/// A channel that people talk in: visible where it is seen, something that threads can hang under,
/// and a new conversation where it was not known.
pub open spec fn place_text(place: Place, channel: JsonV, before: Placing) -> Placing {
    match channel.at("id"@).text() {
        Some(id) => if is_text_channel(channel) && seen_in(place, channel) {
            let short = text_or_v(channel.at("name"@), "channel"@);
            let sort = sort_of(place.channels, channel);
            let visible = before.visible.insert(id);
            let parents = before.parents.insert(id, ParentV { name: short, sort });
            if before.known.contains_key(id) {
                Placing { visible, parents, ..before }
            } else {
                let name = channel_title(place.guild_name, short);
                Placing {
                    known: before.known.insert(id, KnownV { name, kind: "channel"@ }),
                    visible,
                    parents,
                    fresh: before.fresh.push(
                        NewChannelV {
                            channel_id: id,
                            name,
                            category: heading_of(place.channels, channel),
                            sort,
                        },
                    ),
                }
            }
        } else {
            before
        },
        None => before,
    }
}

/// A forum: visible where it is seen, and only a heading for its posts.
pub open spec fn place_forum(place: Place, channel: JsonV, before: Placing) -> Placing {
    match channel.at("id"@).text() {
        Some(id) => if is_forum(channel) && seen_in(place, channel) {
            Placing {
                visible: before.visible.insert(id),
                parents: before.parents.insert(
                    id,
                    ParentV {
                        name: text_or_v(channel.at("name"@), "forum"@),
                        sort: sort_of(place.channels, channel),
                    },
                ),
                ..before
            }
        } else {
            before
        },
        None => before,
    }
}

pub open spec fn is_thread(thread: JsonV) -> bool {
    let kind = i64_or(thread.at("type"@), -1);
    10 <= kind <= 12
}

/// The id of a thread that hangs under one of `parents`.
pub open spec fn hanging(parents: Map<Seq<char>, ParentV>, thread: JsonV) -> Option<Seq<char>> {
    match (thread.at("id"@).text(), thread.at("parent_id"@).text()) {
        (Some(id), Some(parent_id)) => if is_thread(thread) && parents.contains_key(parent_id) {
            Some(id)
        } else {
            None
        },
        _ => None,
    }
}

/// A thread: a new conversation where it was not known and hangs under something known.
pub open spec fn thread_to_open(
    guild_name: Seq<char>,
    parents: Map<Seq<char>, ParentV>,
    thread: JsonV,
    known: Map<Seq<char>, KnownV>,
) -> Option<NewChannelV> {
    match (thread.at("id"@).text(), thread.at("parent_id"@).text()) {
        (Some(id), Some(parent_id)) => if is_thread(thread) && parents.contains_key(parent_id)
            && !known.contains_key(id) {
            Some(
                NewChannelV {
                    channel_id: id,
                    name: channel_title(guild_name, text_or_v(thread.at("name"@), "thread"@)),
                    category: Some(parents[parent_id].name),
                    sort: parents[parent_id].sort + 1,
                },
            )
        } else {
            None
        },
        _ => None,
    }
}

/// The registered conversations with one more.
pub open spec fn known_with(known: Map<Seq<char>, KnownV>, opened: NewChannelV) -> Map<
    Seq<char>,
    KnownV,
> {
    known.insert(opened.channel_id, KnownV { name: opened.name, kind: "channel"@ })
}

/// A thread: visible where it hangs under something that is seen, and a new conversation where it
/// was not known.
pub open spec fn place_thread(place: Place, thread: JsonV, before: Placing) -> Placing {
    let visible = match hanging(before.parents, thread) {
        Some(id) => before.visible.insert(id),
        None => before.visible,
    };
    match thread_to_open(place.guild_name, before.parents, thread, before.known) {
        Some(opened) => Placing {
            known: known_with(before.known, opened),
            visible,
            fresh: before.fresh.push(opened),
            ..before
        },
        None => Placing { visible, ..before },
    }
}

pub open spec fn place_texts(place: Place, channels: Seq<JsonV>, before: Placing) -> Placing
    decreases channels.len(),
{
    if channels.len() == 0 {
        before
    } else {
        place_text(place, channels.last(), place_texts(place, channels.drop_last(), before))
    }
}

pub open spec fn place_forums(place: Place, channels: Seq<JsonV>, before: Placing) -> Placing
    decreases channels.len(),
{
    if channels.len() == 0 {
        before
    } else {
        place_forum(place, channels.last(), place_forums(place, channels.drop_last(), before))
    }
}

pub open spec fn place_threads(place: Place, threads: Seq<JsonV>, before: Placing) -> Placing
    decreases threads.len(),
{
    if threads.len() == 0 {
        before
    } else {
        place_thread(place, threads.last(), place_threads(place, threads.drop_last(), before))
    }
}

/// Nothing placed yet.
pub open spec fn unplaced(known: Map<Seq<char>, KnownV>) -> Placing {
    Placing { known, visible: Set::empty(), parents: Map::empty(), fresh: Seq::empty() }
}

/// Every channel of a server placed: those people talk in, then forums, then threads.
pub open spec fn placed(
    place: Place,
    threads: Seq<JsonV>,
    known: Map<Seq<char>, KnownV>,
) -> Placing {
    place_threads(
        place,
        threads,
        place_forums(place, place.channels, place_texts(place, place.channels, unplaced(known))),
    )
}

/// The server being placed, as the functions below are handed it.
pub struct Scene<'a> {
    pub guild_id: &'a str,
    pub guild_name: &'a str,
    pub roles: &'a Vec<Json>,
    pub is_owner: bool,
    pub mine: &'a Vec<String>,
    pub user_id: &'a str,
    pub channels: &'a Vec<Json>,
}

impl<'a> View for Scene<'a> {
    type V = Place;

    open spec fn view(&self) -> Place {
        Place {
            guild_id: self.guild_id@,
            guild_name: self.guild_name@,
            roles: views(self.roles@),
            is_owner: self.is_owner,
            mine: texts(self.mine@),
            user_id: self.user_id@,
            channels: views(self.channels@),
        }
    }
}

/// What has been placed so far, as it is built up.
struct Draft {
    visible: Vec<String>,
    parents: TextMap<Parent>,
    fresh: Vec<NewChannel>,
}

impl Draft {
    spec fn placing(&self, known: Map<Seq<char>, Known>) -> Placing {
        Placing {
            known: map_views(known),
            visible: texts(self.visible@).to_set(),
            parents: map_views(self.parents@),
            fresh: views(self.fresh@),
        }
    }

    spec fn bounded(&self) -> bool {
        &&& texts(self.visible@).no_duplicates()
        &&& forall|k: Seq<char>| #[trigger]
            self.parents@.contains_key(k) ==> self.parents@[k].sort < i128::MAX
    }
}

fn find_category<'a>(channels: &'a Vec<Json>, id: &str) -> (r: Option<(&'a str, i64)>)
    ensures
        match r {
            Some(c) => category_in(views(channels@), id@) == Some(
                Category { name: c.0@, position: c.1 as int },
            ),
            None => category_in(views(channels@), id@) is None,
        },
{
    let ghost all = views(channels@);
    let mut i: usize = channels.len();
    assert(all.take(i as int) =~= all);
    while i > 0
        invariant
            i <= channels.len(),
            all == views(channels@),
            category_in(all, id@) == category_in(all.take(i as int), id@),
        decreases i,
    {
        let c = &channels[i - 1];
        assert(all.take(i as int).last() == c@);
        assert(all.take(i as int).drop_last() =~= all.take(i - 1));
        let is_category = match c.at("type").as_i64() {
            Some(n) => n == 4,
            None => false,
        };
        if is_category && is_str(c.at("id"), id) {
            let position: i64 = match c.at("position").as_i64() {
                Some(n) => n,
                None => 0,
            };
            return Some((text_or(c.at("name"), "category"), position));
        }
        i -= 1;
    }
    None
}

/// The heading and the place of a channel.
fn standing<'a>(channels: &'a Vec<Json>, channel: &Json) -> (r: (Option<&'a str>, i128))
    ensures
        crate::text::maybe_str(r.0) == heading_of(views(channels@), channel@),
        r.1 == sort_of(views(channels@), channel@),
        r.1 < i128::MAX,
{
    let position: i64 = match channel.at("position").as_i64() {
        Some(n) => n,
        None => 0,
    };
    let category = match channel.at("parent_id").text() {
        Some(id) => find_category(channels, id),
        None => None,
    };
    match category {
        Some((name, place)) => (Some(name), (place as i128 + 1) * 10_000 + position as i128),
        None => (None, position as i128),
    }
}

fn title(guild_name: &str, name: &str) -> (r: String)
    ensures
        r@ == channel_title(guild_name@, name@),
{
    let mut out = guild_name.to_owned();
    out.append("/#");
    out.append(name);
    out
}

proof fn lemma_to_set_push(list: Seq<Seq<char>>, text: Seq<char>)
    ensures
        list.push(text).to_set() == list.to_set().insert(text),
{
    let pushed = list.push(text);
    assert forall|t: Seq<char>| #[trigger] pushed.contains(t) == (list.contains(t) || t == text) by {
        if list.contains(t) {
            let i = choose|i: int| 0 <= i < list.len() && list[i] == t;
            assert(pushed[i] == t);
        }
        assert(pushed[list.len() as int] == text);
        if pushed.contains(t) {
            let i = choose|i: int| 0 <= i < pushed.len() && pushed[i] == t;
            if i < list.len() {
                assert(list[i] == t);
            }
        }
    }
    assert(pushed.to_set() =~= list.to_set().insert(text));
}

/// Adds a text to a list that holds each once.
pub fn add_once(list: &mut Vec<String>, text: &str)
    requires
        texts(old(list)@).no_duplicates(),
    ensures
        texts(final(list)@).no_duplicates(),
        texts(final(list)@).to_set() == texts(old(list)@).to_set().insert(text@),
{
    if holds(list, text) {
        assert(texts(list@).to_set() =~= texts(list@).to_set().insert(text@));
    } else {
        let ghost before = texts(list@);
        list.push(text.to_owned());
        proof {
            assert(texts(list@) =~= before.push(text@));
            lemma_to_set_push(before, text@);
            assert(texts(list@).no_duplicates());
        }
    }
}

fn add_text(scene: &Scene, channel: &Json, channel_map: &mut TextMap<Known>, draft: &mut Draft)
    requires
        old(draft).bounded(),
    ensures
        final(draft).bounded(),
        final(draft).placing(final(channel_map)@) == place_text(
            scene@,
            channel@,
            old(draft).placing(old(channel_map)@),
        ),
{
    let kind: i64 = match channel.at("type").as_i64() {
        Some(n) => n,
        None => -1,
    };
    if kind != 0 && kind != 5 {
        return;
    }
    let id = match channel.at("id").text() {
        Some(id) => id,
        None => {
            return;
        },
    };
    if !can_view_channel(
        scene.is_owner,
        scene.guild_id,
        scene.roles,
        scene.mine,
        scene.user_id,
        channel,
    ) {
        return;
    }
    add_once(&mut draft.visible, id);
    let short = text_or(channel.at("name"), "channel");
    let (heading, sort) = standing(scene.channels, channel);
    let ghost parents_before = draft.parents@;
    let parent = Parent { name: short.to_owned(), sort };
    draft.parents.insert(id, parent);
    proof {
        lemma_map_views_insert(parents_before, id@, parent);
    }
    if channel_map.contains(id) {
        return;
    }
    let name = title(scene.guild_name, short);
    let ghost known_before = channel_map@;
    let ghost fresh_before = draft.fresh@;
    let entry = Known { name: name.clone(), kind: "channel".to_owned() };
    channel_map.insert(id, entry);
    let opened = NewChannel { channel_id: id.to_owned(), name, category: own(heading), sort };
    draft.fresh.push(opened);
    proof {
        lemma_map_views_insert(known_before, id@, entry);
        assert(views(draft.fresh@) =~= views(fresh_before).push(opened@));
    }
}

fn add_forum(scene: &Scene, channel: &Json, draft: &mut Draft, Ghost(known): Ghost<Map<Seq<char>, Known>>)
    requires
        old(draft).bounded(),
    ensures
        final(draft).bounded(),
        final(draft).placing(known) == place_forum(scene@, channel@, old(draft).placing(known)),
{
    let kind: i64 = match channel.at("type").as_i64() {
        Some(n) => n,
        None => -1,
    };
    if kind != 15 && kind != 16 {
        return;
    }
    let id = match channel.at("id").text() {
        Some(id) => id,
        None => {
            return;
        },
    };
    if !can_view_channel(
        scene.is_owner,
        scene.guild_id,
        scene.roles,
        scene.mine,
        scene.user_id,
        channel,
    ) {
        return;
    }
    add_once(&mut draft.visible, id);
    let (_, sort) = standing(scene.channels, channel);
    let ghost parents_before = draft.parents@;
    let parent = Parent { name: text_or(channel.at("name"), "forum").to_owned(), sort };
    draft.parents.insert(id, parent);
    proof {
        lemma_map_views_insert(parents_before, id@, parent);
    }
}

/// The id of a thread that hangs under one of `parents`.
fn hanging_id<'a>(parents: &TextMap<Parent>, thread: &'a Json) -> (r: Option<&'a str>)
    ensures
        maybe_str(r) == hanging(map_views(parents@), thread@),
{
    let kind: i64 = match thread.at("type").as_i64() {
        Some(n) => n,
        None => -1,
    };
    match (thread.at("id").text(), thread.at("parent_id").text()) {
        (Some(id), Some(parent_id)) => if kind >= 10 && kind <= 12 && parents.contains(parent_id) {
            Some(id)
        } else {
            None
        },
        _ => None,
    }
}

/// Puts one thread on the list, under the channel or forum it belongs to. Nothing comes of one
/// that is registered already, or that hangs under nothing this account sees.
pub fn register_thread(
    guild_name: &str,
    parents: &TextMap<Parent>,
    thread: &Json,
    channel_map: &mut TextMap<Known>,
) -> (r: Option<NewChannel>)
    requires
        forall|k: Seq<char>| #[trigger]
            parents@.contains_key(k) ==> parents@[k].sort < i128::MAX,
    ensures
        match r {
            Some(opened) => {
                &&& thread_to_open(
                    guild_name@,
                    map_views(parents@),
                    thread@,
                    map_views(old(channel_map)@),
                ) == Some(opened@)
                &&& map_views(final(channel_map)@) == known_with(
                    map_views(old(channel_map)@),
                    opened@,
                )
            },
            None => {
                &&& thread_to_open(
                    guild_name@,
                    map_views(parents@),
                    thread@,
                    map_views(old(channel_map)@),
                ) is None
                &&& final(channel_map)@ == old(channel_map)@
            },
        },
{
    let kind: i64 = match thread.at("type").as_i64() {
        Some(n) => n,
        None => -1,
    };
    if kind < 10 || kind > 12 {
        return None;
    }
    let (id, parent_id) = match (thread.at("id").text(), thread.at("parent_id").text()) {
        (Some(id), Some(parent_id)) => (id, parent_id),
        _ => {
            return None;
        },
    };
    let parent = match parents.get(parent_id) {
        Some(parent) => parent,
        None => {
            return None;
        },
    };
    if channel_map.contains(id) {
        return None;
    }
    let name = title(guild_name, text_or(thread.at("name"), "thread"));
    let entry = Known { name: name.clone(), kind: "channel".to_owned() };
    let ghost before = channel_map@;
    channel_map.insert(id, entry);
    proof {
        lemma_map_views_insert(before, id@, entry);
    }
    Some(
        NewChannel {
            channel_id: id.to_owned(),
            name,
            category: Some(parent.name.clone()),
            sort: parent.sort + 1,
        },
    )
}

/// The conversations of a server.
pub struct Registered {
    /// The channels this account sees, each once.
    pub visible: Vec<String>,
    /// The channels that became conversations.
    pub channels: Vec<NewChannel>,
    /// The threads that became conversations.
    pub threads: Vec<NewChannel>,
}

/// Registers the channels of a server that this account sees, and the threads under them.
pub fn register_channels(
    scene: &Scene,
    threads: &Vec<Json>,
    channel_map: &mut TextMap<Known>,
) -> (r: Registered)
    ensures
        texts(r.visible@).no_duplicates(),
        texts(r.visible@).to_set() == placed(
            scene@,
            views(threads@),
            map_views(old(channel_map)@),
        ).visible,
        views(r.channels@) + views(r.threads@) == placed(
            scene@,
            views(threads@),
            map_views(old(channel_map)@),
        ).fresh,
        views(r.channels@) == place_texts(
            scene@,
            views(scene.channels@),
            unplaced(map_views(old(channel_map)@)),
        ).fresh,
        map_views(final(channel_map)@) == placed(
            scene@,
            views(threads@),
            map_views(old(channel_map)@),
        ).known,
{
    let ghost start = unplaced(map_views(channel_map@));
    let ghost all = views(scene.channels@);
    let channels = scene.channels;
    let mut draft = Draft { visible: Vec::new(), parents: TextMap::new(), fresh: Vec::new() };
    proof {
        assert(texts(draft.visible@).to_set() =~= Set::empty());
        assert(map_views(draft.parents@) =~= Map::empty());
        assert(views(draft.fresh@) =~= Seq::empty());
        assert(all.take(0) =~= Seq::empty());
    }
    let mut i: usize = 0;
    while i < channels.len()
        invariant
            i <= channels.len(),
            channels == scene.channels,
            all == views(channels@),
            draft.bounded(),
            draft.placing(channel_map@) == place_texts(scene@, all.take(i as int), start),
        decreases channels.len() - i,
    {
        add_text(scene, &channels[i], channel_map, &mut draft);
        assert(all.take(i + 1).drop_last() =~= all.take(i as int));
        i += 1;
    }
    assert(all.take(i as int) =~= all);
    let ghost middle = place_texts(scene@, all, start);
    let ghost known = channel_map@;
    let mut j: usize = 0;
    assert(all.take(0) =~= Seq::empty());
    while j < channels.len()
        invariant
            j <= channels.len(),
            channels == scene.channels,
            all == views(channels@),
            draft.bounded(),
            known == channel_map@,
            draft.placing(known) == place_forums(scene@, all.take(j as int), middle),
        decreases channels.len() - j,
    {
        add_forum(scene, &channels[j], &mut draft, Ghost(known));
        assert(all.take(j + 1).drop_last() =~= all.take(j as int));
        j += 1;
    }
    assert(all.take(j as int) =~= all);
    let ghost later = place_forums(scene@, all, middle);
    proof {
        lemma_forums_open_nothing(scene@, all, middle);
    }
    let Draft { visible, parents, fresh } = draft;
    let mut visible = visible;
    let mut opened: Vec<NewChannel> = Vec::new();
    let ghost hanging = views(threads@);
    let mut k: usize = 0;
    proof {
        assert(hanging.take(0) =~= Seq::empty());
        assert(views(fresh@) + views(opened@) =~= views(fresh@));
    }
    while k < threads.len()
        invariant
            k <= threads.len(),
            hanging == views(threads@),
            texts(visible@).no_duplicates(),
            forall|p: Seq<char>| #[trigger]
                parents@.contains_key(p) ==> parents@[p].sort < i128::MAX,
            place_threads(scene@, hanging.take(k as int), later) == (Placing {
                known: map_views(channel_map@),
                visible: texts(visible@).to_set(),
                parents: map_views(parents@),
                fresh: views(fresh@) + views(opened@),
            }),
        decreases threads.len() - k,
    {
        let ghost before = opened@;
        let ghost known_before = channel_map@;
        proof {
            assert(hanging.take(k + 1).drop_last() =~= hanging.take(k as int));
            assert(hanging.take(k + 1).last() == threads@[k as int]@);
        }
        match hanging_id(&parents, &threads[k]) {
            Some(id) => {
                add_once(&mut visible, id);
            },
            None => {},
        }
        match register_thread(scene.guild_name, &parents, &threads[k], channel_map) {
            Some(thread) => {
                opened.push(thread);
                assert(views(fresh@) + views(opened@) =~= (views(fresh@) + views(before)).push(
                    thread@,
                ));
            },
            None => {},
        }
        k += 1;
    }
    assert(hanging.take(k as int) =~= hanging);
    Registered { visible, channels: fresh, threads: opened }
}

/// A conversation held for a server, with its channel where that is known.
#[derive(Debug, PartialEq, Eq)]
pub struct Held {
    pub buffer_id: String,
    pub channel_id: Option<String>,
}

pub struct HeldV {
    pub buffer_id: Seq<char>,
    pub channel_id: Option<Seq<char>>,
}

impl View for Held {
    type V = HeldV;

    open spec fn view(&self) -> HeldV {
        HeldV { buffer_id: self.buffer_id@, channel_id: maybe(self.channel_id) }
    }
}

/// Whether a held conversation is about a channel that is no longer seen.
pub open spec fn is_gone(held: HeldV, visible: Set<Seq<char>>) -> bool {
    match held.channel_id {
        Some(id) => !visible.contains(id),
        None => false,
    }
}

/// The conversations to take away, in the order in which they are held.
pub open spec fn gone(held: Seq<HeldV>, visible: Set<Seq<char>>) -> Seq<Seq<char>>
    decreases held.len(),
{
    if held.len() == 0 {
        Seq::empty()
    } else {
        let before = gone(held.drop_last(), visible);
        if is_gone(held.last(), visible) {
            before.push(held.last().buffer_id)
        } else {
            before
        }
    }
}

/// The registered conversations without those that are gone.
pub open spec fn known_without_gone(
    known: Map<Seq<char>, KnownV>,
    held: Seq<HeldV>,
    visible: Set<Seq<char>>,
) -> Map<Seq<char>, KnownV>
    decreases held.len(),
{
    if held.len() == 0 {
        known
    } else {
        let before = known_without_gone(known, held.drop_last(), visible);
        if is_gone(held.last(), visible) {
            before.remove(held.last().channel_id->0)
        } else {
            before
        }
    }
}

/// Takes away what a server used to have and no longer offers: deleted, or no longer ours to
/// read. Returns the conversations to remove.
pub fn drop_gone(held: &Vec<Held>, visible: &Vec<String>, channel_map: &mut TextMap<Known>) -> (r:
    Vec<String>)
    ensures
        texts(r@) == gone(views(held@), texts(visible@).to_set()),
        map_views(final(channel_map)@) == known_without_gone(
            map_views(old(channel_map)@),
            views(held@),
            texts(visible@).to_set(),
        ),
{
    let ghost all = views(held@);
    let ghost seen = texts(visible@).to_set();
    let mut out: Vec<String> = Vec::new();
    let mut i: usize = 0;
    proof {
        assert(all.take(0) =~= Seq::empty());
        assert(texts(out@) =~= Seq::empty());
    }
    while i < held.len()
        invariant
            i <= held.len(),
            all == views(held@),
            seen == texts(visible@).to_set(),
            texts(out@) == gone(all.take(i as int), seen),
            map_views(channel_map@) == known_without_gone(
                map_views(old(channel_map)@),
                all.take(i as int),
                seen,
            ),
        decreases held.len() - i,
    {
        let ghost before = out@;
        let ghost known_before = channel_map@;
        proof {
            assert(all.take(i + 1).drop_last() =~= all.take(i as int));
            assert(all.take(i + 1).last() == held@[i as int]@);
        }
        match &held[i].channel_id {
            Some(id) => {
                if !holds(visible, id.as_str()) {
                    let _ = channel_map.remove(id.as_str());
                    out.push(held[i].buffer_id.clone());
                    proof {
                        assert(texts(out@) =~= texts(before).push(held@[i as int].buffer_id@));
                        assert(map_views(known_before.remove(id@)) =~= map_views(
                            known_before,
                        ).remove(id@));
                    }
                }
            },
            None => {},
        }
        i += 1;
    }
    assert(all.take(i as int) =~= all);
    out
}

/// Whether a channel of a server is one that this account sees and that shows in the list.
pub open spec fn listed(place: Place, channel: JsonV, id: Seq<char>) -> bool {
    channel.at("id"@).text() == Some(id) && (is_text_channel(channel) || is_forum(channel))
        && seen_in(place, channel)
}

/// Whether the id is that of something opened.
pub open spec fn opened_as(fresh: Seq<NewChannelV>, id: Seq<char>) -> bool {
    exists|i: int| 0 <= i < fresh.len() && (#[trigger] fresh[i]).channel_id == id
}

proof fn lemma_texts(place: Place, channels: Seq<JsonV>, before: Placing, id: Seq<char>)
    ensures
        ({
            let after = place_texts(place, channels, before);
            &&& after.visible.contains(id) <==> before.visible.contains(id) || exists|i: int|
                0 <= i < channels.len() && is_text_channel(#[trigger] channels[i]) && seen_in(
                    place,
                    channels[i],
                ) && channels[i].at("id"@).text() == Some(id)
            &&& before.known.contains_key(id) ==> after.known.contains_key(id) && after.known[id]
                == before.known[id]
            &&& after.known.contains_key(id) <==> before.known.contains_key(id) || exists|i: int|
                0 <= i < channels.len() && is_text_channel(#[trigger] channels[i]) && seen_in(
                    place,
                    channels[i],
                ) && channels[i].at("id"@).text() == Some(id)
            &&& after.parents.contains_key(id) <==> before.parents.contains_key(id) || exists|
                i: int,
            |
                0 <= i < channels.len() && is_text_channel(#[trigger] channels[i]) && seen_in(
                    place,
                    channels[i],
                ) && channels[i].at("id"@).text() == Some(id)
            &&& opened_as(after.fresh, id) ==> opened_as(before.fresh, id) || (
            !before.known.contains_key(id) && after.known.contains_key(id)
                && after.visible.contains(id))
        }),
    decreases channels.len(),
{
    if channels.len() > 0 {
        let rest = channels.drop_last();
        lemma_texts(place, rest, before, id);
        let middle = place_texts(place, rest, before);
        let after = place_texts(place, channels, before);
        let last = channels.last();
        assert(channels[channels.len() - 1] == last);
        if exists|i: int|
            0 <= i < rest.len() && is_text_channel(#[trigger] rest[i]) && seen_in(place, rest[i])
                && rest[i].at("id"@).text() == Some(id) {
            let i = choose|i: int|
                0 <= i < rest.len() && is_text_channel(#[trigger] rest[i]) && seen_in(
                    place,
                    rest[i],
                ) && rest[i].at("id"@).text() == Some(id);
            assert(channels[i] == rest[i]);
        }
        if exists|i: int|
            0 <= i < channels.len() && is_text_channel(#[trigger] channels[i]) && seen_in(
                place,
                channels[i],
            ) && channels[i].at("id"@).text() == Some(id) {
            let i = choose|i: int|
                0 <= i < channels.len() && is_text_channel(#[trigger] channels[i]) && seen_in(
                    place,
                    channels[i],
                ) && channels[i].at("id"@).text() == Some(id);
            if i < rest.len() {
                assert(rest[i] == channels[i]);
            }
        }
        if opened_as(after.fresh, id) {
            let i = choose|i: int|
                0 <= i < after.fresh.len() && (#[trigger] after.fresh[i]).channel_id == id;
            if i < middle.fresh.len() {
                assert(middle.fresh[i] == after.fresh[i]);
                assert(opened_as(middle.fresh, id));
            }
        }
    }
}

proof fn lemma_forums(place: Place, channels: Seq<JsonV>, before: Placing, id: Seq<char>)
    ensures
        ({
            let after = place_forums(place, channels, before);
            &&& after.visible.contains(id) <==> before.visible.contains(id) || exists|i: int|
                0 <= i < channels.len() && is_forum(#[trigger] channels[i]) && seen_in(
                    place,
                    channels[i],
                ) && channels[i].at("id"@).text() == Some(id)
            &&& after.parents.contains_key(id) <==> before.parents.contains_key(id) || exists|
                i: int,
            |
                0 <= i < channels.len() && is_forum(#[trigger] channels[i]) && seen_in(
                    place,
                    channels[i],
                ) && channels[i].at("id"@).text() == Some(id)
        }),
    decreases channels.len(),
{
    if channels.len() > 0 {
        let rest = channels.drop_last();
        lemma_forums(place, rest, before, id);
        assert(channels[channels.len() - 1] == channels.last());
        if exists|i: int|
            0 <= i < rest.len() && is_forum(#[trigger] rest[i]) && seen_in(place, rest[i])
                && rest[i].at("id"@).text() == Some(id) {
            let i = choose|i: int|
                0 <= i < rest.len() && is_forum(#[trigger] rest[i]) && seen_in(place, rest[i])
                    && rest[i].at("id"@).text() == Some(id);
            assert(channels[i] == rest[i]);
        }
        if exists|i: int|
            0 <= i < channels.len() && is_forum(#[trigger] channels[i]) && seen_in(
                place,
                channels[i],
            ) && channels[i].at("id"@).text() == Some(id) {
            let i = choose|i: int|
                0 <= i < channels.len() && is_forum(#[trigger] channels[i]) && seen_in(
                    place,
                    channels[i],
                ) && channels[i].at("id"@).text() == Some(id);
            if i < rest.len() {
                assert(rest[i] == channels[i]);
            }
        }
    }
}

proof fn lemma_threads(place: Place, threads: Seq<JsonV>, before: Placing, id: Seq<char>)
    ensures
        ({
            let after = place_threads(place, threads, before);
            &&& after.parents == before.parents
            &&& before.visible.contains(id) ==> after.visible.contains(id)
            &&& after.visible.contains(id) <==> before.visible.contains(id) || exists|i: int|
                0 <= i < threads.len() && hanging(before.parents, #[trigger] threads[i]) == Some(id)
            &&& before.known.contains_key(id) ==> after.known.contains_key(id) && after.known[id]
                == before.known[id]
            &&& opened_as(before.fresh, id) ==> opened_as(after.fresh, id)
            &&& opened_as(after.fresh, id) ==> opened_as(before.fresh, id) || (
            !before.known.contains_key(id) && after.known.contains_key(id)
                && after.visible.contains(id))
        }),
    decreases threads.len(),
{
    if threads.len() > 0 {
        let rest = threads.drop_last();
        lemma_threads(place, rest, before, id);
        let middle = place_threads(place, rest, before);
        let after = place_threads(place, threads, before);
        assert(threads[threads.len() - 1] == threads.last());
        if exists|i: int|
            0 <= i < rest.len() && hanging(before.parents, #[trigger] rest[i]) == Some(id) {
            let i = choose|i: int|
                0 <= i < rest.len() && hanging(before.parents, #[trigger] rest[i]) == Some(id);
            assert(threads[i] == rest[i]);
        }
        if exists|i: int|
            0 <= i < threads.len() && hanging(before.parents, #[trigger] threads[i]) == Some(id) {
            let i = choose|i: int|
                0 <= i < threads.len() && hanging(before.parents, #[trigger] threads[i]) == Some(
                    id,
                );
            if i < rest.len() {
                assert(rest[i] == threads[i]);
            }
        }
        if opened_as(middle.fresh, id) {
            let i = choose|i: int|
                0 <= i < middle.fresh.len() && (#[trigger] middle.fresh[i]).channel_id == id;
            assert(after.fresh[i] == middle.fresh[i]);
        }
        if after.fresh.len() > middle.fresh.len() {
            let last = after.fresh[middle.fresh.len() as int];
            if last.channel_id == id {
                assert(opened_as(after.fresh, id));
            }
        }
        if opened_as(after.fresh, id) {
            let i = choose|i: int|
                0 <= i < after.fresh.len() && (#[trigger] after.fresh[i]).channel_id == id;
            if i < middle.fresh.len() {
                assert(middle.fresh[i] == after.fresh[i]);
                assert(opened_as(middle.fresh, id));
            }
        }
    }
}

/// Whether something of a server shows in the list and is seen: a channel or a forum with this id.
pub open spec fn lists(place: Place, id: Seq<char>) -> bool {
    exists|i: int| 0 <= i < place.channels.len() && listed(place, #[trigger] place.channels[i], id)
}

/// Whether a thread with this id hangs under something that shows in the list and is seen.
pub open spec fn hangs_in(place: Place, thread: JsonV, id: Seq<char>) -> bool {
    &&& is_thread(thread)
    &&& thread.at("id"@).text() == Some(id)
    &&& thread.at("parent_id"@).text() is Some
    &&& lists(place, thread.at("parent_id"@).text()->0)
}

/// Threads hang under exactly what shows in the list and is seen.
proof fn lemma_parents(place: Place, known: Map<Seq<char>, KnownV>, id: Seq<char>)
    ensures
        ({
            let start = unplaced(known);
            let one = place_texts(place, place.channels, start);
            let two = place_forums(place, place.channels, one);
            &&& two.parents.contains_key(id) <==> lists(place, id)
            &&& two.visible.contains(id) <==> lists(place, id)
        }),
{
    let start = unplaced(known);
    let one = place_texts(place, place.channels, start);
    lemma_texts(place, place.channels, start, id);
    lemma_forums(place, place.channels, one, id);
    if exists|i: int|
        0 <= i < place.channels.len() && is_text_channel(#[trigger] place.channels[i]) && seen_in(
            place,
            place.channels[i],
        ) && place.channels[i].at("id"@).text() == Some(id) {
        let i = choose|i: int|
            0 <= i < place.channels.len() && is_text_channel(#[trigger] place.channels[i])
                && seen_in(place, place.channels[i]) && place.channels[i].at("id"@).text() == Some(
                id,
            );
        assert(listed(place, place.channels[i], id));
    }
    if exists|i: int|
        0 <= i < place.channels.len() && is_forum(#[trigger] place.channels[i]) && seen_in(
            place,
            place.channels[i],
        ) && place.channels[i].at("id"@).text() == Some(id) {
        let i = choose|i: int|
            0 <= i < place.channels.len() && is_forum(#[trigger] place.channels[i]) && seen_in(
                place,
                place.channels[i],
            ) && place.channels[i].at("id"@).text() == Some(id);
        assert(listed(place, place.channels[i], id));
    }
    if lists(place, id) {
        let i = choose|i: int|
            0 <= i < place.channels.len() && listed(place, #[trigger] place.channels[i], id);
        assert(is_text_channel(place.channels[i]) || is_forum(place.channels[i]));
    }
}

/// What comes out as visible is every channel that shows in the list and that this account sees,
/// and every thread that hangs under one of those, known or not; nothing else.
pub proof fn law_visible_is_what_is_seen(
    place: Place,
    threads: Seq<JsonV>,
    known: Map<Seq<char>, KnownV>,
    id: Seq<char>,
)
    ensures
        placed(place, threads, known).visible.contains(id) <==> lists(place, id) || exists|i: int|
            0 <= i < threads.len() && hangs_in(place, #[trigger] threads[i], id),
{
    let start = unplaced(known);
    let one = place_texts(place, place.channels, start);
    let two = place_forums(place, place.channels, one);
    lemma_parents(place, known, id);
    lemma_threads(place, threads, two, id);
    assert forall|i: int| 0 <= i < threads.len() implies (hanging(two.parents, #[trigger] threads[i])
        == Some(id) <==> hangs_in(place, threads[i], id)) by {
        match threads[i].at("parent_id"@).text() {
            Some(parent_id) => {
                lemma_parents(place, known, parent_id);
            },
            None => {},
        }
    }
    if exists|i: int|
        0 <= i < threads.len() && hanging(two.parents, #[trigger] threads[i]) == Some(id) {
        let i = choose|i: int|
            0 <= i < threads.len() && hanging(two.parents, #[trigger] threads[i]) == Some(id);
        assert(hangs_in(place, threads[i], id));
    }
    if exists|i: int| 0 <= i < threads.len() && hangs_in(place, #[trigger] threads[i], id) {
        let i = choose|i: int|
            0 <= i < threads.len() && hangs_in(place, #[trigger] threads[i], id);
        assert(hanging(two.parents, threads[i]) == Some(id));
    }
}

proof fn lemma_thread_opens(place: Place, threads: Seq<JsonV>, before: Placing, i: int, id: Seq<char>)
    requires
        0 <= i < threads.len(),
        hanging(before.parents, threads[i]) == Some(id),
        !before.known.contains_key(id),
    ensures
        opened_as(place_threads(place, threads, before).fresh, id),
    decreases threads.len(),
{
    let rest = threads.drop_last();
    let middle = place_threads(place, rest, before);
    let after = place_threads(place, threads, before);
    lemma_threads(place, rest, before, id);
    if i < threads.len() - 1 {
        assert(rest[i] == threads[i]);
        lemma_thread_opens(place, rest, before, i, id);
    } else if middle.known.contains_key(id) {
        lemma_known_is_opened(place, rest, before, id);
    } else {
        assert(after.fresh[middle.fresh.len() as int].channel_id == id);
    }
    if opened_as(middle.fresh, id) {
        let k = choose|k: int|
            0 <= k < middle.fresh.len() && (#[trigger] middle.fresh[k]).channel_id == id;
        assert(after.fresh[k] == middle.fresh[k]);
    }
}

/// What becomes known of threads is what was opened.
proof fn lemma_known_is_opened(place: Place, threads: Seq<JsonV>, before: Placing, id: Seq<char>)
    requires
        !before.known.contains_key(id),
        place_threads(place, threads, before).known.contains_key(id),
    ensures
        opened_as(place_threads(place, threads, before).fresh, id),
    decreases threads.len(),
{
    let rest = threads.drop_last();
    let middle = place_threads(place, rest, before);
    let after = place_threads(place, threads, before);
    if middle.known.contains_key(id) {
        lemma_known_is_opened(place, rest, before, id);
        let k = choose|k: int|
            0 <= k < middle.fresh.len() && (#[trigger] middle.fresh[k]).channel_id == id;
        assert(after.fresh[k] == middle.fresh[k]);
    } else {
        assert(after.fresh[middle.fresh.len() as int].channel_id == id);
    }
}

/// A thread that was not known is opened wherever what it hangs under shows in the list and is seen,
/// whether or not that was known before: one that is started while connected appears.
pub proof fn law_a_new_thread_appears(
    place: Place,
    threads: Seq<JsonV>,
    known: Map<Seq<char>, KnownV>,
    i: int,
    id: Seq<char>,
)
    requires
        0 <= i < threads.len(),
        hangs_in(place, threads[i], id),
        !known.contains_key(id),
    ensures
        opened_as(placed(place, threads, known).fresh, id),
{
    let start = unplaced(known);
    let one = place_texts(place, place.channels, start);
    let two = place_forums(place, place.channels, one);
    lemma_parents(place, known, threads[i].at("parent_id"@).text()->0);
    lemma_forums_open_nothing(place, place.channels, one);
    if one.known.contains_key(id) {
        lemma_text_is_opened(place, place.channels, start, id);
        lemma_threads(place, threads, two, id);
    } else {
        lemma_thread_opens(place, threads, two, i, id);
    }
}

/// What becomes known of channels is what was opened.
proof fn lemma_text_is_opened(place: Place, channels: Seq<JsonV>, before: Placing, id: Seq<char>)
    requires
        !before.known.contains_key(id),
        place_texts(place, channels, before).known.contains_key(id),
    ensures
        opened_as(place_texts(place, channels, before).fresh, id),
    decreases channels.len(),
{
    let rest = channels.drop_last();
    let middle = place_texts(place, rest, before);
    let after = place_texts(place, channels, before);
    if middle.known.contains_key(id) {
        lemma_text_is_opened(place, rest, before, id);
        let k = choose|k: int|
            0 <= k < middle.fresh.len() && (#[trigger] middle.fresh[k]).channel_id == id;
        assert(after.fresh[k] == middle.fresh[k]);
    } else {
        assert(after.fresh[middle.fresh.len() as int].channel_id == id);
    }
}

/// Registering a server forgets and renames nothing, and opens only what was not known; whatever
/// is opened is known from then on.
pub proof fn law_known_only_grows(
    place: Place,
    threads: Seq<JsonV>,
    known: Map<Seq<char>, KnownV>,
    id: Seq<char>,
)
    ensures
        known.contains_key(id) ==> placed(place, threads, known).known.contains_key(id) && placed(
            place,
            threads,
            known,
        ).known[id] == known[id],
        opened_as(placed(place, threads, known).fresh, id) ==> !known.contains_key(id) && placed(
            place,
            threads,
            known,
        ).known.contains_key(id),
{
    let start = unplaced(known);
    let one = place_texts(place, place.channels, start);
    let two = place_forums(place, place.channels, one);
    lemma_texts(place, place.channels, start, id);
    lemma_forums(place, place.channels, one, id);
    lemma_forums_open_nothing(place, place.channels, one);
    lemma_threads(place, threads, two, id);
    assert(!opened_as(start.fresh, id));
}

proof fn lemma_texts_known(place: Place, channels: Seq<JsonV>, before: Placing)
    requires
        forall|i: int|
            0 <= i < channels.len() && is_text_channel(#[trigger] channels[i]) && seen_in(
                place,
                channels[i],
            ) && channels[i].at("id"@).text() is Some ==> before.known.contains_key(
                channels[i].at("id"@).text()->0,
            ),
    ensures
        place_texts(place, channels, before).known == before.known,
        place_texts(place, channels, before).fresh == before.fresh,
    decreases channels.len(),
{
    if channels.len() > 0 {
        let rest = channels.drop_last();
        assert forall|i: int|
            0 <= i < rest.len() && is_text_channel(#[trigger] rest[i]) && seen_in(place, rest[i])
                && rest[i].at("id"@).text() is Some implies before.known.contains_key(
            rest[i].at("id"@).text()->0,
        ) by {
            assert(rest[i] == channels[i]);
        }
        lemma_texts_known(place, rest, before);
        assert(channels[channels.len() - 1] == channels.last());
    }
}

proof fn lemma_threads_again(
    place: Place,
    threads: Seq<JsonV>,
    first: Placing,
    all: Seq<JsonV>,
    second: Placing,
)
    requires
        threads.len() <= all.len(),
        threads == all.take(threads.len() as int),
        second.known == place_threads(place, all, first).known,
        forall|k: Seq<char>| #[trigger]
            second.parents.contains_key(k) ==> first.parents.contains_key(k),
    ensures
        place_threads(place, threads, second).known == second.known,
        place_threads(place, threads, second).fresh == second.fresh,
        place_threads(place, threads, second).parents == second.parents,
    decreases threads.len(),
{
    if threads.len() > 0 {
        let n = threads.len() as int;
        assert(threads.drop_last() =~= all.take(n - 1));
        lemma_threads_again(place, threads.drop_last(), first, all, second);
        let thread = threads.last();
        match thread.at("id"@).text() {
            Some(id) => {
                if is_thread(thread) && thread.at("parent_id"@).text() is Some
                    && second.parents.contains_key(thread.at("parent_id"@).text()->0) {
                    lemma_thread_is_known(place, all, first, n - 1);
                }
            },
            None => {},
        }
    }
}

proof fn lemma_thread_is_known(place: Place, threads: Seq<JsonV>, before: Placing, i: int)
    requires
        0 <= i < threads.len(),
        is_thread(threads[i]),
        threads[i].at("id"@).text() is Some,
        threads[i].at("parent_id"@).text() is Some,
        before.parents.contains_key(threads[i].at("parent_id"@).text()->0),
    ensures
        place_threads(place, threads, before).known.contains_key(threads[i].at("id"@).text()->0),
    decreases threads.len(),
{
    let id = threads[i].at("id"@).text()->0;
    lemma_threads(place, threads.drop_last(), before, id);
    if i < threads.len() - 1 {
        assert(threads.drop_last()[i] == threads[i]);
        lemma_thread_is_known(place, threads.drop_last(), before, i);
    }
}

/// Registering the same server again opens nothing and changes nothing of what is known.
pub proof fn law_registering_again_opens_nothing(
    place: Place,
    threads: Seq<JsonV>,
    known: Map<Seq<char>, KnownV>,
)
    ensures
        placed(place, threads, placed(place, threads, known).known).fresh.len() == 0,
        placed(place, threads, placed(place, threads, known).known).known == placed(
            place,
            threads,
            known,
        ).known,
{
    let channels = place.channels;
    let start = unplaced(known);
    let one = place_texts(place, channels, start);
    let two = place_forums(place, channels, one);
    let first = place_threads(place, threads, two);
    let again = unplaced(first.known);
    lemma_forums_open_nothing(place, channels, one);
    assert forall|i: int|
        0 <= i < channels.len() && is_text_channel(#[trigger] channels[i]) && seen_in(
            place,
            channels[i],
        ) && channels[i].at("id"@).text() is Some implies again.known.contains_key(
        channels[i].at("id"@).text()->0,
    ) by {
        let id = channels[i].at("id"@).text()->0;
        lemma_texts(place, channels, start, id);
        lemma_threads(place, threads, two, id);
    }
    lemma_texts_known(place, channels, again);
    let three = place_texts(place, channels, again);
    lemma_forums_open_nothing(place, channels, three);
    let four = place_forums(place, channels, three);
    assert forall|k: Seq<char>| #[trigger] four.parents.contains_key(k) implies two.parents.contains_key(k) by {
        lemma_texts(place, channels, again, k);
        lemma_texts(place, channels, start, k);
        lemma_forums(place, channels, three, k);
        lemma_forums(place, channels, one, k);
    }
    assert(threads.take(threads.len() as int) =~= threads);
    lemma_threads_again(place, threads, two, threads, four);
}

/// Channels without a heading come before every heading's, and one heading's channels come before
/// those of a heading placed after it.
pub proof fn law_headings_keep_their_channels_together(
    channels: Seq<JsonV>,
    first: JsonV,
    second: JsonV,
)
    requires
        0 <= i64_or(first.at("position"@), 0) < 10_000,
        0 <= i64_or(second.at("position"@), 0) < 10_000,
        category_of(channels, second) is Some,
        category_of(channels, second)->0.position >= 0,
        category_of(channels, first) is None || category_of(channels, first)->0.position
            < category_of(channels, second)->0.position,
    ensures
        sort_of(channels, first) < sort_of(channels, second),
{
}

proof fn lemma_forums_open_nothing(place: Place, channels: Seq<JsonV>, before: Placing)
    ensures
        place_forums(place, channels, before).fresh == before.fresh,
        place_forums(place, channels, before).known == before.known,
    decreases channels.len(),
{
    if channels.len() > 0 {
        lemma_forums_open_nothing(place, channels.drop_last(), before);
    }
}

/// A heading is a channel of the fourth type, by its id: the last of the list that has it, under its name
/// and in its place.
pub proof fn law_a_heading_is_found_by_its_id(channels: Seq<JsonV>, last: JsonV, id: Seq<char>)
    ensures
        category_in(Seq::empty(), id) is None,
        ({
            let r = category_in(channels.push(last), id);
            let place = last.at("position"@).as_i64();
            let found = last.at("type"@) == JsonV::Int(4) && last.at("id"@) == JsonV::Str(id);
            &&& !found ==> r == category_in(channels, id)
            &&& found ==> {
                &&& r is Some
                &&& last.at("name"@) is Str ==> last.at("name"@) == JsonV::Str(r->0.name)
                &&& !(last.at("name"@) is Str) ==> r->0.name == "category"@
                &&& place is Some ==> r->0.position == place->0
                &&& place is None ==> r->0.position == 0
            }
        }),
{
    assert(channels.push(last).drop_last() =~= channels);
}

/// A channel stands under the heading that it names, where there is one, and behind all those of the
/// headings before; a channel that names none stands by its own place alone.
pub proof fn law_a_channel_stands_under_its_heading(channels: Seq<JsonV>, channel: JsonV)
    ensures
        ({
            let parent = channel.at("parent_id"@);
            let heading = if parent is Str {
                category_in(channels, parent->Str_0)
            } else {
                None
            };
            let place = if channel.at("position"@).as_i64() is Some {
                channel.at("position"@)->Int_0
            } else {
                0
            };
            &&& heading is None ==> sort_of(channels, channel) == place && heading_of(
                channels,
                channel,
            ) is None
            &&& heading is Some ==> sort_of(channels, channel) == 10_000 * heading->0.position
                + 10_000 + place && heading_of(channels, channel) == Some(heading->0.name)
        }),
{
}

/// People talk in channels of text and of announcements; forums and their like only hold posts, and
/// threads are of three types.
pub proof fn law_channels_are_told_apart_by_type(channel: JsonV)
    ensures
        is_text_channel(channel) <==> channel.at("type"@) == JsonV::Int(0) || channel.at("type"@)
            == JsonV::Int(5),
        is_forum(channel) <==> channel.at("type"@) == JsonV::Int(15) || channel.at("type"@)
            == JsonV::Int(16),
        is_thread(channel) <==> channel.at("type"@) == JsonV::Int(10) || channel.at("type"@)
            == JsonV::Int(11) || channel.at("type"@) == JsonV::Int(12),
{
}

/// A channel that people talk in and that this account sees becomes visible, something that threads can
/// hang under, and, where it was not known, a conversation: under the names of its server and its own,
/// under its heading and in its place. No other channel changes anything.
pub proof fn law_a_seen_channel_is_placed(place: Place, channel: JsonV, before: Placing)
    ensures
        ({
            let after = place_text(place, channel, before);
            let id = channel.at("id"@);
            let shows = id is Str && (channel.at("type"@) == JsonV::Int(0) || channel.at("type"@)
                == JsonV::Int(5)) && sees(
                place.is_owner,
                place.guild_id,
                place.roles,
                place.mine,
                place.user_id,
                channel,
            );
            let short = if channel.at("name"@) is Str {
                channel.at("name"@)->Str_0
            } else {
                "channel"@
            };
            &&& !shows ==> after == before
            &&& shows ==> {
                let key = id->Str_0;
                &&& after.visible == before.visible.insert(key)
                &&& after.parents.contains_key(key)
                &&& after.parents[key].name == short
                &&& after.parents[key].sort == sort_of(place.channels, channel)
                &&& before.known.contains_key(key) ==> after.known == before.known && after.fresh
                    == before.fresh
                &&& !before.known.contains_key(key) ==> {
                    let name = place.guild_name + "/#"@ + short;
                    &&& after.known.contains_key(key)
                    &&& after.known[key].name == name
                    &&& after.known[key].kind == "channel"@
                    &&& after.fresh.len() == before.fresh.len() + 1
                    &&& after.fresh.drop_last() == before.fresh
                    &&& after.fresh.last().channel_id == key
                    &&& after.fresh.last().name == name
                    &&& after.fresh.last().category == heading_of(place.channels, channel)
                    &&& after.fresh.last().sort == sort_of(place.channels, channel)
                }
            }
        }),
{
    let after = place_text(place, channel, before);
    if after.fresh.len() == before.fresh.len() + 1 {
        assert(after.fresh.drop_last() =~= before.fresh);
    }
}

/// A forum that this account sees becomes visible and something that posts can hang under, and opens
/// nothing.
pub proof fn law_a_seen_forum_is_a_heading(place: Place, channel: JsonV, before: Placing)
    ensures
        ({
            let after = place_forum(place, channel, before);
            let id = channel.at("id"@);
            let shows = id is Str && (channel.at("type"@) == JsonV::Int(15) || channel.at("type"@)
                == JsonV::Int(16)) && sees(
                place.is_owner,
                place.guild_id,
                place.roles,
                place.mine,
                place.user_id,
                channel,
            );
            &&& after.known == before.known && after.fresh == before.fresh
            &&& !shows ==> after == before
            &&& shows ==> {
                let key = id->Str_0;
                &&& after.visible == before.visible.insert(key)
                &&& after.parents.contains_key(key)
                &&& channel.at("name"@) is Str ==> channel.at("name"@) == JsonV::Str(
                    after.parents[key].name,
                )
                &&& !(channel.at("name"@) is Str) ==> after.parents[key].name == "forum"@
                &&& after.parents[key].sort == sort_of(place.channels, channel)
            }
        }),
{
}

/// A thread is opened where it has an id, hangs under something that is placed and is not known yet:
/// under the names of its server and its own, with what it hangs under for a heading, right behind that.
pub proof fn law_a_thread_is_opened_under_its_channel(
    guild_name: Seq<char>,
    parents: Map<Seq<char>, ParentV>,
    thread: JsonV,
    known: Map<Seq<char>, KnownV>,
)
    ensures
        ({
            let r = thread_to_open(guild_name, parents, thread, known);
            let (id, parent) = (thread.at("id"@), thread.at("parent_id"@));
            let hangs = id is Str && parent is Str && is_thread(thread) && parents.contains_key(
                parent->Str_0,
            );
            &&& hanging(parents, thread) == (if hangs {
                Some(id->Str_0)
            } else {
                None
            })
            &&& r is Some <==> hangs && !known.contains_key(id->Str_0)
            &&& r is Some ==> {
                &&& r->0.channel_id == id->Str_0
                &&& thread.at("name"@) is Str ==> r->0.name == guild_name + "/#"@ + thread.at(
                    "name"@,
                )->Str_0
                &&& !(thread.at("name"@) is Str) ==> r->0.name == guild_name + "/#"@ + "thread"@
                &&& r->0.category == Some(parents[parent->Str_0].name)
                &&& r->0.sort == parents[parent->Str_0].sort + 1
                &&& known_with(known, r->0).contains_key(id->Str_0)
                &&& known_with(known, r->0)[id->Str_0].name == r->0.name
                &&& known_with(known, r->0)[id->Str_0].kind == "channel"@
            }
        }),
{
}

/// A thread that hangs under something placed becomes visible, known or not; what it opens comes last.
pub proof fn law_a_hanging_thread_is_placed(place: Place, thread: JsonV, before: Placing)
    ensures
        ({
            let after = place_thread(place, thread, before);
            let opened = thread_to_open(place.guild_name, before.parents, thread, before.known);
            let id = hanging(before.parents, thread);
            &&& after.parents == before.parents
            &&& id is Some ==> after.visible == before.visible.insert(id->0)
            &&& id is None ==> after.visible == before.visible
            &&& opened is None ==> after.known == before.known && after.fresh == before.fresh
            &&& opened is Some ==> {
                &&& after.fresh == before.fresh.push(opened->0)
                &&& after.known.contains_key(opened->0.channel_id)
                &&& after.known[opened->0.channel_id].name == opened->0.name
            }
        }),
{
}

/// The channels of a server are placed one after another, those that people talk in first, then the
/// forums, then the threads.
pub proof fn law_channels_are_placed_in_turn(
    place: Place,
    channels: Seq<JsonV>,
    channel: JsonV,
    before: Placing,
    threads: Seq<JsonV>,
    known: Map<Seq<char>, KnownV>,
)
    ensures
        place_texts(place, Seq::empty(), before) == before,
        place_forums(place, Seq::empty(), before) == before,
        place_threads(place, Seq::empty(), before) == before,
        place_texts(place, channels.push(channel), before) == place_text(
            place,
            channel,
            place_texts(place, channels, before),
        ),
        place_forums(place, channels.push(channel), before) == place_forum(
            place,
            channel,
            place_forums(place, channels, before),
        ),
        place_threads(place, channels.push(channel), before) == place_thread(
            place,
            channel,
            place_threads(place, channels, before),
        ),
        unplaced(known).known == known,
        unplaced(known).visible == Set::<Seq<char>>::empty(),
        unplaced(known).fresh.len() == 0,
        unplaced(known).parents == Map::<Seq<char>, ParentV>::empty(),
        placed(place, threads, known) == place_threads(
            place,
            threads,
            place_forums(place, place.channels, place_texts(place, place.channels, unplaced(known))),
        ),
{
    assert(channels.push(channel).drop_last() =~= channels);
}

/// A conversation is taken away where the channel that it is about is no longer seen, and only there;
/// they are taken away in the order in which they are held.
pub proof fn law_what_is_no_longer_seen_is_taken_away(
    held: Seq<HeldV>,
    last: HeldV,
    visible: Set<Seq<char>>,
    known: Map<Seq<char>, KnownV>,
)
    ensures
        gone(Seq::empty(), visible).len() == 0,
        known_without_gone(known, Seq::empty(), visible) == known,
        ({
            let lost = last.channel_id is Some && !visible.contains(last.channel_id->0);
            &&& lost ==> gone(held.push(last), visible) == gone(held, visible).push(last.buffer_id)
            &&& lost ==> known_without_gone(known, held.push(last), visible) == known_without_gone(
                known,
                held,
                visible,
            ).remove(last.channel_id->0)
            &&& !lost ==> gone(held.push(last), visible) == gone(held, visible)
            &&& !lost ==> known_without_gone(known, held.push(last), visible) == known_without_gone(
                known,
                held,
                visible,
            )
        }),
{
    assert(held.push(last).drop_last() =~= held);
}

/// What is still seen stays registered, whatever is taken away.
pub proof fn law_what_is_seen_stays_registered(
    known: Map<Seq<char>, KnownV>,
    held: Seq<HeldV>,
    visible: Set<Seq<char>>,
    id: Seq<char>,
)
    requires
        known.contains_key(id),
        visible.contains(id),
    ensures
        known_without_gone(known, held, visible).contains_key(id),
        known_without_gone(known, held, visible)[id] == known[id],
    decreases held.len(),
{
    if held.len() > 0 {
        law_what_is_seen_stays_registered(known, held.drop_last(), visible, id);
    }
}

} // verus!
