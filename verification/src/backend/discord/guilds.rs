//! Servers: their channels, their roles, and what this account may do in them.
use vstd::prelude::*;
use crate::json::{Json, JsonV, collect, elements, flag_or, i64_or, is_str, lemma_collect_step, text_or, text_or_v};
use crate::text::{copy_texts, holds, maybe, own, parse_u64, same, texts, u64_of, views};
use crate::text_map::{TextMap, map_views};
use super::channels::{Known, NewChannel, Place, Scene, placed, place_texts, register_channels, unplaced};
use super::http::{Method, Request, RequestV, asking};
use super::people::{filled, first_of, only_filled, or_else, voice_member_avatar, voice_member_name, voice_name, voice_picture};

verus! {

pub const PERM_KICK_MEMBERS: u64 = 1 << 1;

pub const PERM_BAN_MEMBERS: u64 = 1 << 2;

pub const PERM_ADMINISTRATOR: u64 = 1 << 3;

pub const PERM_VIEW_CHANNEL: u64 = 1 << 10;

pub const PERM_MANAGE_ROLES: u64 = 1 << 28;

/// Putting somebody in timeout.
pub const PERM_MODERATE_MEMBERS: u64 = 1 << 40;

/// The permission bits that a value spells out in decimal, none where it does not.
pub open spec fn perm_bits(value: JsonV) -> u64 {
    match value.text() {
        Some(t) => match u64_of(t) {
            Some(n) => n as u64,
            None => 0,
        },
        None => 0,
    }
}

pub fn parse_perm(v: &Json) -> (r: u64)
    ensures
        r == perm_bits(v@),
{
    match v.text() {
        Some(t) => match parse_u64(t) {
            Some(n) => n,
            None => 0,
        },
        None => 0,
    }
}

/// Whether a role counts for a member: it is everybody's, or one of the member's own.
pub open spec fn role_counts(role: JsonV, guild_id: Seq<char>, mine: Seq<Seq<char>>) -> bool {
    let id = role.at("id"@).text_or_empty();
    id == guild_id || mine.contains(id)
}

/// What the roles that count for a member allow between them.
pub open spec fn base_bits(roles: Seq<JsonV>, guild_id: Seq<char>, mine: Seq<Seq<char>>) -> u64
    decreases roles.len(),
{
    if roles.len() == 0 {
        0
    } else {
        let before = base_bits(roles.drop_last(), guild_id, mine);
        if role_counts(roles.last(), guild_id, mine) {
            before | perm_bits(roles.last().at("permissions"@))
        } else {
            before
        }
    }
}

/// One layer of a channel's overwrites: what it denies goes, then what it allows comes.
pub open spec fn layered(bits: u64, deny: u64, allow: u64) -> u64 {
    (bits & !deny) | allow
}

/// The first overwrite of a kind that is about `id`.
pub open spec fn overwrite_for(overwrites: Seq<JsonV>, kind: int, id: Seq<char>) -> Option<JsonV>
    decreases overwrites.len(),
{
    if overwrites.len() == 0 {
        None
    } else if overwrites[0].at("type"@).as_i64() == Some(kind) && overwrites[0].at("id"@).text()
        == Some(id) {
        Some(overwrites[0])
    } else {
        overwrite_for(overwrites.skip(1), kind, id)
    }
}

/// The bits after the one overwrite, where there is one.
pub open spec fn after_overwrite(bits: u64, overwrite: Option<JsonV>) -> u64 {
    match overwrite {
        Some(o) => layered(bits, perm_bits(o.at("deny"@)), perm_bits(o.at("allow"@))),
        None => bits,
    }
}

/// Whether an overwrite is about a role that the member holds, other than everybody's.
pub open spec fn own_role_overwrite(
    overwrite: JsonV,
    guild_id: Seq<char>,
    mine: Seq<Seq<char>>,
) -> bool {
    let id = overwrite.at("id"@).text_or_empty();
    overwrite.at("type"@).as_i64() == Some(0int) && id != guild_id && mine.contains(id)
}

/// What the overwrites for the member's own roles say under `side` ("allow" or "deny").
pub open spec fn role_side(
    overwrites: Seq<JsonV>,
    side: Seq<char>,
    guild_id: Seq<char>,
    mine: Seq<Seq<char>>,
) -> u64
    decreases overwrites.len(),
{
    if overwrites.len() == 0 {
        0
    } else {
        let before = role_side(overwrites.drop_last(), side, guild_id, mine);
        if own_role_overwrite(overwrites.last(), guild_id, mine) {
            before | perm_bits(overwrites.last().at(side))
        } else {
            before
        }
    }
}

/// What a member may do in a channel: the roles' bits, then the overwrite for everybody, then
/// those for the member's roles taken together, then the one for the member.
pub open spec fn channel_bits(
    guild_id: Seq<char>,
    roles: Seq<JsonV>,
    mine: Seq<Seq<char>>,
    user_id: Seq<char>,
    channel: JsonV,
) -> u64 {
    let overwrites = channel.at("permission_overwrites"@).items();
    let everybody = after_overwrite(
        base_bits(roles, guild_id, mine),
        overwrite_for(overwrites, 0, guild_id),
    );
    let by_role = layered(
        everybody,
        role_side(overwrites, "deny"@, guild_id, mine),
        role_side(overwrites, "allow"@, guild_id, mine),
    );
    after_overwrite(by_role, overwrite_for(overwrites, 1, user_id))
}

/// Whether a member sees a channel. The owner and an administrator see every one.
pub open spec fn sees(
    is_owner: bool,
    guild_id: Seq<char>,
    roles: Seq<JsonV>,
    mine: Seq<Seq<char>>,
    user_id: Seq<char>,
    channel: JsonV,
) -> bool {
    is_owner || base_bits(roles, guild_id, mine) & PERM_ADMINISTRATOR != 0 || channel_bits(
        guild_id,
        roles,
        mine,
        user_id,
        channel,
    ) & PERM_VIEW_CHANNEL != 0
}

/// What the roles that count for a member allow between them.
pub fn member_bits(guild_id: &str, roles: &Vec<Json>, mine: &Vec<String>) -> (r: u64)
    ensures
        r == base_bits(views(roles@), guild_id@, texts(mine@)),
{
    let ghost all = views(roles@);
    let mut bits: u64 = 0;
    let mut i: usize = 0;
    while i < roles.len()
        invariant
            i <= roles.len(),
            all == views(roles@),
            bits == base_bits(all.take(i as int), guild_id@, texts(mine@)),
        decreases roles.len() - i,
    {
        let role = &roles[i];
        let id = role.at("id").text_or_empty();
        if same(id, guild_id) || holds(mine, id) {
            bits = bits | parse_perm(role.at("permissions"));
        }
        assert(all.take(i + 1).drop_last() =~= all.take(i as int));
        i += 1;
    }
    assert(all.take(i as int) =~= all);
    bits
}

/// The first overwrite of a kind that is about `id`.
fn find_overwrite<'a>(overwrites: &'a Vec<Json>, kind: i64, id: &str) -> (r: Option<&'a Json>)
    ensures
        match r {
            Some(o) => overwrite_for(views(overwrites@), kind as int, id@) == Some(o@),
            None => overwrite_for(views(overwrites@), kind as int, id@) is None,
        },
{
    let ghost all = views(overwrites@);
    let mut i: usize = 0;
    assert(all.skip(0) =~= all);
    while i < overwrites.len()
        invariant
            i <= overwrites.len(),
            all == views(overwrites@),
            overwrite_for(all, kind as int, id@) == overwrite_for(
                all.skip(i as int),
                kind as int,
                id@,
            ),
        decreases overwrites.len() - i,
    {
        let o = &overwrites[i];
        assert(all.skip(i as int)[0] == o@);
        let of_kind = match o.at("type").as_i64() {
            Some(n) => n == kind,
            None => false,
        };
        if of_kind && is_str(o.at("id"), id) {
            return Some(o);
        }
        assert(all.skip(i as int).skip(1) =~= all.skip(i + 1));
        i += 1;
    }
    None
}

/// The bits after the one overwrite, where there is one.
fn apply_overwrite(bits: u64, overwrite: Option<&Json>) -> (r: u64)
    ensures
        r == after_overwrite(
            bits,
            match overwrite {
                Some(o) => Some(o@),
                None => None,
            },
        ),
{
    match overwrite {
        Some(o) => (bits & !parse_perm(o.at("deny"))) | parse_perm(o.at("allow")),
        None => bits,
    }
}

/// Whether this account sees a channel.
pub fn can_view_channel(
    is_owner: bool,
    guild_id: &str,
    roles: &Vec<Json>,
    member_role_ids: &Vec<String>,
    user_id: &str,
    channel: &Json,
) -> (r: bool)
    ensures
        r == sees(
            is_owner,
            guild_id@,
            views(roles@),
            texts(member_role_ids@),
            user_id@,
            channel@,
        ),
{
    if is_owner {
        return true;
    }
    let base = member_bits(guild_id, roles, member_role_ids);
    if base & PERM_ADMINISTRATOR != 0 {
        return true;
    }
    let empty: Vec<Json> = Vec::new();
    let overwrites = crate::json::elements(channel.at("permission_overwrites"), &empty);
    let ghost all = views(overwrites@);
    let mut perms: u64 = apply_overwrite(base, find_overwrite(overwrites, 0, guild_id));
    let mut role_allow: u64 = 0;
    let mut role_deny: u64 = 0;
    let mut i: usize = 0;
    while i < overwrites.len()
        invariant
            i <= overwrites.len(),
            all == views(overwrites@),
            role_allow == role_side(
                all.take(i as int),
                "allow"@,
                guild_id@,
                texts(member_role_ids@),
            ),
            role_deny == role_side(all.take(i as int), "deny"@, guild_id@, texts(member_role_ids@)),
        decreases overwrites.len() - i,
    {
        let o = &overwrites[i];
        let for_role = match o.at("type").as_i64() {
            Some(n) => n == 0,
            None => false,
        };
        if for_role {
            let id = o.at("id").text_or_empty();
            if !same(id, guild_id) && holds(member_role_ids, id) {
                role_allow = role_allow | parse_perm(o.at("allow"));
                role_deny = role_deny | parse_perm(o.at("deny"));
            }
        }
        assert(all.take(i + 1).drop_last() =~= all.take(i as int));
        i += 1;
    }
    assert(all.take(i as int) =~= all);
    perms = (perms & !role_deny) | role_allow;
    perms = apply_overwrite(perms, find_overwrite(overwrites, 1, user_id));
    perms & PERM_VIEW_CHANNEL != 0
}

/// The owner of a server sees every channel of it, whatever their roles and the overwrites say.
pub proof fn law_owner_sees_everything(
    guild_id: Seq<char>,
    roles: Seq<JsonV>,
    mine: Seq<Seq<char>>,
    user_id: Seq<char>,
    channel: JsonV,
)
    ensures
        sees(true, guild_id, roles, mine, user_id, channel),
{
}

/// A member one of whose roles is an administrator's sees every channel.
pub proof fn law_administrator_sees_everything(
    guild_id: Seq<char>,
    roles: Seq<JsonV>,
    mine: Seq<Seq<char>>,
    user_id: Seq<char>,
    channel: JsonV,
    i: int,
)
    requires
        0 <= i < roles.len(),
        role_counts(roles[i], guild_id, mine),
        perm_bits(roles[i].at("permissions"@)) & PERM_ADMINISTRATOR != 0,
    ensures
        sees(false, guild_id, roles, mine, user_id, channel),
{
    lemma_role_bit_is_kept(roles, guild_id, mine, i, PERM_ADMINISTRATOR);
}

proof fn lemma_role_bit_is_kept(
    roles: Seq<JsonV>,
    guild_id: Seq<char>,
    mine: Seq<Seq<char>>,
    i: int,
    bit: u64,
)
    requires
        0 <= i < roles.len(),
        role_counts(roles[i], guild_id, mine),
        perm_bits(roles[i].at("permissions"@)) & bit != 0,
    ensures
        base_bits(roles, guild_id, mine) & bit != 0,
    decreases roles.len(),
{
    let before = base_bits(roles.drop_last(), guild_id, mine);
    let last = perm_bits(roles.last().at("permissions"@));
    if i == roles.len() - 1 {
        assert((before | last) & bit != 0) by (bit_vector)
            requires
                last & bit != 0,
        ;
    } else {
        assert(roles.drop_last()[i] == roles[i]);
        lemma_role_bit_is_kept(roles.drop_last(), guild_id, mine, i, bit);
        assert((before | last) & bit != 0) by (bit_vector)
            requires
                before & bit != 0,
        ;
    }
}

/// The overwrite for the member has the last word: where it says something of viewing, that is
/// what holds, unless the member is the owner or an administrator.
pub proof fn law_member_overwrite_decides(
    guild_id: Seq<char>,
    roles: Seq<JsonV>,
    mine: Seq<Seq<char>>,
    user_id: Seq<char>,
    channel: JsonV,
    overwrite: JsonV,
)
    requires
        overwrite_for(channel.at("permission_overwrites"@).items(), 1, user_id) == Some(overwrite),
        base_bits(roles, guild_id, mine) & PERM_ADMINISTRATOR == 0,
        (perm_bits(overwrite.at("deny"@)) | perm_bits(overwrite.at("allow"@))) & PERM_VIEW_CHANNEL
            != 0,
    ensures
        sees(false, guild_id, roles, mine, user_id, channel) == (perm_bits(overwrite.at("allow"@))
            & PERM_VIEW_CHANNEL != 0),
{
    let overwrites = channel.at("permission_overwrites"@).items();
    let before = layered(
        after_overwrite(
            base_bits(roles, guild_id, mine),
            overwrite_for(overwrites, 0, guild_id),
        ),
        role_side(overwrites, "deny"@, guild_id, mine),
        role_side(overwrites, "allow"@, guild_id, mine),
    );
    let deny = perm_bits(overwrite.at("deny"@));
    let allow = perm_bits(overwrite.at("allow"@));
    let bit = PERM_VIEW_CHANNEL;
    assert((((before & !deny) | allow) & bit != 0) == (allow & bit != 0)) by (bit_vector)
        requires
            (deny | allow) & bit != 0,
            bit == 1u64 << 10,
    ;
}

proof fn lemma_side_bit_is_kept(
    overwrites: Seq<JsonV>,
    side: Seq<char>,
    guild_id: Seq<char>,
    mine: Seq<Seq<char>>,
    i: int,
    bit: u64,
)
    requires
        0 <= i < overwrites.len(),
        own_role_overwrite(overwrites[i], guild_id, mine),
        perm_bits(overwrites[i].at(side)) & bit != 0,
    ensures
        role_side(overwrites, side, guild_id, mine) & bit != 0,
    decreases overwrites.len(),
{
    let before = role_side(overwrites.drop_last(), side, guild_id, mine);
    let last = perm_bits(overwrites.last().at(side));
    if i == overwrites.len() - 1 {
        assert((before | last) & bit != 0) by (bit_vector)
            requires
                last & bit != 0,
        ;
    } else {
        assert(overwrites.drop_last()[i] == overwrites[i]);
        lemma_side_bit_is_kept(overwrites.drop_last(), side, guild_id, mine, i, bit);
        assert((before | last) & bit != 0) by (bit_vector)
            requires
                before & bit != 0,
        ;
    }
}

/// One role that a channel lets in is enough, whatever it denies the others and everybody; only an
/// overwrite for the member could still shut them out.
pub proof fn law_one_role_is_enough(
    guild_id: Seq<char>,
    roles: Seq<JsonV>,
    mine: Seq<Seq<char>>,
    user_id: Seq<char>,
    channel: JsonV,
    i: int,
)
    requires
        0 <= i < channel.at("permission_overwrites"@).items().len(),
        own_role_overwrite(channel.at("permission_overwrites"@).items()[i], guild_id, mine),
        perm_bits(channel.at("permission_overwrites"@).items()[i].at("allow"@)) & PERM_VIEW_CHANNEL
            != 0,
        overwrite_for(channel.at("permission_overwrites"@).items(), 1, user_id) is None,
    ensures
        sees(false, guild_id, roles, mine, user_id, channel),
{
    let overwrites = channel.at("permission_overwrites"@).items();
    lemma_side_bit_is_kept(overwrites, "allow"@, guild_id, mine, i, PERM_VIEW_CHANNEL);
    let before = after_overwrite(
        base_bits(roles, guild_id, mine),
        overwrite_for(overwrites, 0, guild_id),
    );
    let deny = role_side(overwrites, "deny"@, guild_id, mine);
    let allow = role_side(overwrites, "allow"@, guild_id, mine);
    let bit = PERM_VIEW_CHANNEL;
    assert(((before & !deny) | allow) & bit != 0) by (bit_vector)
        requires
            allow & bit != 0,
    ;
}

/// A channel without overwrites is seen by those whose roles let them view, and by nobody else.
pub proof fn law_no_overwrites(
    guild_id: Seq<char>,
    roles: Seq<JsonV>,
    mine: Seq<Seq<char>>,
    user_id: Seq<char>,
    channel: JsonV,
)
    requires
        channel.at("permission_overwrites"@).items().len() == 0,
    ensures
        sees(false, guild_id, roles, mine, user_id, channel) == (base_bits(roles, guild_id, mine)
            & PERM_ADMINISTRATOR != 0 || base_bits(roles, guild_id, mine) & PERM_VIEW_CHANNEL
            != 0),
{
    let base = base_bits(roles, guild_id, mine);
    assert((base & !0u64) | 0u64 == base) by (bit_vector);
}

/// Whether this account has joined a server but cannot speak in it yet. Nothing said means not.
pub open spec fn is_pending(member: Option<JsonV>) -> bool {
    match member {
        Some(m) => flag_or(m.at("pending"@), false),
        None => false,
    }
}

/// An optional value, by what it is.
pub open spec fn maybe_json(value: Option<&Json>) -> Option<JsonV> {
    match value {
        Some(v) => Some(v@),
        None => None,
    }
}

pub fn member_is_pending(member: Option<&Json>) -> (r: bool)
    ensures
        r == is_pending(maybe_json(member)),
{
    match member {
        Some(m) => match m.at("pending").flag() {
            Some(b) => b,
            None => false,
        },
        None => false,
    }
}

pub open spec fn text_reader() -> spec_fn(JsonV) -> Option<Seq<char>> {
    |v: JsonV| v.text()
}

/// The roles that a member object lists.
pub open spec fn roles_of(member: Option<JsonV>) -> Seq<Seq<char>> {
    match member {
        Some(m) => collect(m.at("roles"@).items(), text_reader()),
        None => Seq::empty(),
    }
}

pub fn member_role_ids(member: Option<&Json>) -> (r: Vec<String>)
    ensures
        texts(r@) == roles_of(maybe_json(member)),
{
    let mut out: Vec<String> = Vec::new();
    match member {
        Some(m) => {
            let empty: Vec<Json> = Vec::new();
            let roles = elements(m.at("roles"), &empty);
            let ghost all = views(roles@);
            let mut i: usize = 0;
            assert(texts(out@) =~= collect(all.take(0), text_reader()));
            while i < roles.len()
                invariant
                    i <= roles.len(),
                    all == views(roles@),
                    texts(out@) == collect(all.take(i as int), text_reader()),
                decreases roles.len() - i,
            {
                let ghost before = out@;
                proof {
                    lemma_collect_step(all, text_reader(), i as int);
                }
                match roles[i].text() {
                    Some(t) => {
                        out.push(t.to_owned());
                        assert(texts(out@) =~= texts(before).push(t@));
                    },
                    None => {},
                }
                i += 1;
            }
            assert(all.take(i as int) =~= all);
        },
        None => {
            assert(texts(out@) =~= Seq::empty());
        },
    }
    out
}

/// Where this account's own membership of a server is to be had.
#[derive(Debug, PartialEq, Eq)]
pub enum OwnMember {
    /// It came with the server.
    Here(Json),
    /// It has to be asked for.
    Ask(Request),
    /// There is no server to ask about.
    Nowhere,
}

pub enum OwnMemberV {
    Here(JsonV),
    Ask(RequestV),
    Nowhere,
}

impl View for OwnMember {
    type V = OwnMemberV;

    open spec fn view(&self) -> OwnMemberV {
        match self {
            OwnMember::Here(m) => OwnMemberV::Here(m@),
            OwnMember::Ask(r) => OwnMemberV::Ask(r@),
            OwnMember::Nowhere => OwnMemberV::Nowhere,
        }
    }
}

/// The first member object that is about a user.
pub open spec fn member_of(members: Seq<JsonV>, user_id: Seq<char>) -> Option<JsonV>
    decreases members.len(),
{
    if members.len() == 0 {
        None
    } else if members[0].at("user"@).at("id"@).text() == Some(user_id) {
        Some(members[0])
    } else {
        member_of(members.skip(1), user_id)
    }
}

pub open spec fn own_member_from(guild: JsonV, user_id: Seq<char>, token: Seq<char>) -> OwnMemberV {
    match member_of(guild.at("members"@).items(), user_id) {
        Some(m) => OwnMemberV::Here(m),
        None => match guild.at("id"@).text() {
            Some(guild_id) => OwnMemberV::Ask(
                asking(Method::Get, "/users/@me/guilds/"@ + guild_id + "/member"@, token),
            ),
            None => OwnMemberV::Nowhere,
        },
    }
}

/// This account's own membership of a server: from the server where it is there, else to be
/// asked for.
pub fn own_member(guild: &Json, user_id: &str, token: &str) -> (r: OwnMember)
    ensures
        r@ == own_member_from(guild@, user_id@, token@),
{
    let empty: Vec<Json> = Vec::new();
    let members = elements(guild.at("members"), &empty);
    let ghost all = views(members@);
    let mut i: usize = 0;
    assert(all.skip(0) =~= all);
    while i < members.len()
        invariant
            i <= members.len(),
            all == views(members@),
            all == guild@.at("members"@).items(),
            member_of(all, user_id@) == member_of(all.skip(i as int), user_id@),
        decreases members.len() - i,
    {
        assert(all.skip(i as int)[0] == members@[i as int]@);
        if is_str(members[i].at("user").at("id"), user_id) {
            return OwnMember::Here(members[i].copy());
        }
        assert(all.skip(i as int).skip(1) =~= all.skip(i + 1));
        i += 1;
    }
    match guild.at("id").text() {
        Some(guild_id) => {
            let mut path = "/users/@me/guilds/".to_owned();
            path.append(guild_id);
            path.append("/member");
            OwnMember::Ask(Request::new(Method::Get, path.as_str(), token))
        },
        None => OwnMember::Nowhere,
    }
}

/// The rail entry of a server, which two accounts in it do not share.
pub open spec fn guild_group(account_id: Seq<char>, guild_id: Seq<char>) -> Seq<char> {
    account_id + "|guild:"@ + guild_id
}

pub fn guild_group_id(account_id: &str, guild_id: &str) -> (r: String)
    ensures
        r@ == guild_group(account_id@, guild_id@),
{
    let mut out = account_id.to_owned();
    out.append("|guild:");
    out.append(guild_id);
    out
}

/// One of a server's own emoji.
#[derive(Debug, PartialEq, Eq)]
pub struct Emoji {
    pub id: String,
    pub name: String,
    pub animated: bool,
}

pub struct EmojiV {
    pub id: Seq<char>,
    pub name: Seq<char>,
    pub animated: bool,
}

impl View for Emoji {
    type V = EmojiV;

    open spec fn view(&self) -> EmojiV {
        EmojiV { id: self.id@, name: self.name@, animated: self.animated }
    }
}

/// An emoji that can be used: not marked unavailable, and with an id and a name.
pub open spec fn usable_emoji(e: JsonV) -> Option<EmojiV> {
    match (e.at("id"@).text(), e.at("name"@).text()) {
        (Some(id), Some(name)) => if flag_or(e.at("available"@), true) {
            Some(EmojiV { id, name, animated: flag_or(e.at("animated"@), false) })
        } else {
            None
        },
        _ => None,
    }
}

pub open spec fn emoji_reader() -> spec_fn(JsonV) -> Option<EmojiV> {
    |e: JsonV| usable_emoji(e)
}

fn read_emoji(e: &Json) -> (r: Option<Emoji>)
    ensures
        match r {
            Some(emoji) => usable_emoji(e@) == Some(emoji@),
            None => usable_emoji(e@) is None,
        },
{
    let available = match e.at("available").flag() {
        Some(b) => b,
        None => true,
    };
    if !available {
        return None;
    }
    match (e.at("id").text(), e.at("name").text()) {
        (Some(id), Some(name)) => {
            let animated = match e.at("animated").flag() {
                Some(b) => b,
                None => false,
            };
            Some(Emoji { id: id.to_owned(), name: name.to_owned(), animated })
        },
        _ => None,
    }
}

fn read_emojis(list: &Vec<Json>) -> (r: Vec<Emoji>)
    ensures
        views(r@) == collect(views(list@), emoji_reader()),
{
    let ghost all = views(list@);
    let mut out: Vec<Emoji> = Vec::new();
    let mut i: usize = 0;
    assert(views(out@) =~= collect(all.take(0), emoji_reader()));
    while i < list.len()
        invariant
            i <= list.len(),
            all == views(list@),
            views(out@) == collect(all.take(i as int), emoji_reader()),
        decreases list.len() - i,
    {
        let ghost before = out@;
        proof {
            lemma_collect_step(all, emoji_reader(), i as int);
        }
        match read_emoji(&list[i]) {
            Some(emoji) => {
                out.push(emoji);
                assert(views(out@) =~= views(before).push(emoji@));
            },
            None => {},
        }
        i += 1;
    }
    assert(all.take(i as int) =~= all);
    out
}

/// A voice channel: its id, its name and how many it holds.
#[derive(Debug, PartialEq, Eq)]
pub struct VoiceChannel {
    pub id: String,
    pub name: String,
    pub user_limit: u64,
}

pub struct VoiceChannelV {
    pub id: Seq<char>,
    pub name: Seq<char>,
    pub user_limit: int,
}

impl View for VoiceChannel {
    type V = VoiceChannelV;

    open spec fn view(&self) -> VoiceChannelV {
        VoiceChannelV { id: self.id@, name: self.name@, user_limit: self.user_limit as int }
    }
}

pub open spec fn voice_channel(c: JsonV) -> Option<VoiceChannelV> {
    match c.at("id"@).text() {
        Some(id) => if c.at("type"@).as_i64() == Some(2int) {
            Some(
                VoiceChannelV {
                    id,
                    name: text_or_v(c.at("name"@), "voice"@),
                    user_limit: match c.at("user_limit"@).as_u64() {
                        Some(n) => n,
                        None => 0,
                    },
                },
            )
        } else {
            None
        },
        None => None,
    }
}

pub open spec fn voice_reader() -> spec_fn(JsonV) -> Option<VoiceChannelV> {
    |c: JsonV| voice_channel(c)
}

fn read_voice(c: &Json) -> (r: Option<VoiceChannel>)
    ensures
        match r {
            Some(v) => voice_channel(c@) == Some(v@),
            None => voice_channel(c@) is None,
        },
{
    let is_voice = match c.at("type").as_i64() {
        Some(n) => n == 2,
        None => false,
    };
    if !is_voice {
        return None;
    }
    match c.at("id").text() {
        Some(id) => {
            let user_limit: u64 = match c.at("user_limit").as_u64() {
                Some(n) => n,
                None => 0,
            };
            Some(
                VoiceChannel {
                    id: id.to_owned(),
                    name: text_or(c.at("name"), "voice").to_owned(),
                    user_limit,
                },
            )
        },
        None => None,
    }
}

fn read_voices(list: &Vec<Json>) -> (r: Vec<VoiceChannel>)
    ensures
        views(r@) == collect(views(list@), voice_reader()),
{
    let ghost all = views(list@);
    let mut out: Vec<VoiceChannel> = Vec::new();
    let mut i: usize = 0;
    assert(views(out@) =~= collect(all.take(0), voice_reader()));
    while i < list.len()
        invariant
            i <= list.len(),
            all == views(list@),
            views(out@) == collect(all.take(i as int), voice_reader()),
        decreases list.len() - i,
    {
        let ghost before = out@;
        proof {
            lemma_collect_step(all, voice_reader(), i as int);
        }
        match read_voice(&list[i]) {
            Some(v) => {
                out.push(v);
                assert(views(out@) =~= views(before).push(v@));
            },
            None => {},
        }
        i += 1;
    }
    assert(all.take(i as int) =~= all);
    out
}

/// Somebody's name in a server.
#[derive(Debug, PartialEq, Eq)]
pub struct Named {
    pub user_id: String,
    pub name: String,
}

pub struct NamedV {
    pub user_id: Seq<char>,
    pub name: Seq<char>,
}

impl View for Named {
    type V = NamedV;

    open spec fn view(&self) -> NamedV {
        NamedV { user_id: self.user_id@, name: self.name@ }
    }
}

/// What a member is called in a server: by nickname, else by display name, else by user name.
pub open spec fn member_name(m: JsonV) -> Option<NamedV> {
    let name = or_else(
        or_else(
            filled(m.at("nick"@).text()),
            filled(m.at("user"@).at("global_name"@).text()),
        ),
        m.at("user"@).at("username"@).text(),
    );
    match (m.at("user"@).at("id"@).text(), name) {
        (Some(user_id), Some(name)) => Some(NamedV { user_id, name }),
        _ => None,
    }
}

pub open spec fn member_name_reader() -> spec_fn(JsonV) -> Option<NamedV> {
    |m: JsonV| member_name(m)
}

pub fn read_member_name(m: &Json) -> (r: Option<Named>)
    ensures
        match r {
            Some(n) => member_name(m@) == Some(n@),
            None => member_name(m@) is None,
        },
{
    let user = m.at("user");
    let name = first_of(
        first_of(only_filled(m.at("nick").text()), only_filled(user.at("global_name").text())),
        user.at("username").text(),
    );
    match (user.at("id").text(), name) {
        (Some(user_id), Some(name)) => Some(
            Named { user_id: user_id.to_owned(), name: name.to_owned() },
        ),
        _ => None,
    }
}

fn read_member_names(list: &Vec<Json>) -> (r: Vec<Named>)
    ensures
        views(r@) == collect(views(list@), member_name_reader()),
{
    let ghost all = views(list@);
    let mut out: Vec<Named> = Vec::new();
    let mut i: usize = 0;
    assert(views(out@) =~= collect(all.take(0), member_name_reader()));
    while i < list.len()
        invariant
            i <= list.len(),
            all == views(list@),
            views(out@) == collect(all.take(i as int), member_name_reader()),
        decreases list.len() - i,
    {
        let ghost before = out@;
        proof {
            lemma_collect_step(all, member_name_reader(), i as int);
        }
        match read_member_name(&list[i]) {
            Some(n) => {
                out.push(n);
                assert(views(out@) =~= views(before).push(n@));
            },
            None => {},
        }
        i += 1;
    }
    assert(all.take(i as int) =~= all);
    out
}

/// Somebody who is in a voice channel, with the state that says so.
#[derive(Debug, PartialEq, Eq)]
pub struct InVoice {
    pub user_id: String,
    pub channel_id: String,
    pub name: Option<String>,
    pub avatar: Option<String>,
    pub state: Json,
}

pub struct InVoiceV {
    pub user_id: Seq<char>,
    pub channel_id: Seq<char>,
    pub name: Option<Seq<char>>,
    pub avatar: Option<Seq<char>>,
    pub state: JsonV,
}

impl View for InVoice {
    type V = InVoiceV;

    open spec fn view(&self) -> InVoiceV {
        InVoiceV {
            user_id: self.user_id@,
            channel_id: self.channel_id@,
            name: maybe(self.name),
            avatar: maybe(self.avatar),
            state: self.state@,
        }
    }
}

pub open spec fn in_voice(vs: JsonV) -> Option<InVoiceV> {
    match (vs.at("user_id"@).text(), vs.at("channel_id"@).text()) {
        (Some(user_id), Some(channel_id)) => Some(
            InVoiceV {
                user_id,
                channel_id,
                name: voice_name(vs),
                avatar: voice_picture(vs),
                state: vs,
            },
        ),
        _ => None,
    }
}

pub open spec fn in_voice_reader() -> spec_fn(JsonV) -> Option<InVoiceV> {
    |vs: JsonV| in_voice(vs)
}

pub fn read_in_voice(vs: &Json) -> (r: Option<InVoice>)
    ensures
        match r {
            Some(v) => in_voice(vs@) == Some(v@),
            None => in_voice(vs@) is None,
        },
{
    match (vs.at("user_id").text(), vs.at("channel_id").text()) {
        (Some(user_id), Some(channel_id)) => Some(
            InVoice {
                user_id: user_id.to_owned(),
                channel_id: channel_id.to_owned(),
                name: own(voice_member_name(vs)),
                avatar: voice_member_avatar(vs),
                state: vs.copy(),
            },
        ),
        _ => None,
    }
}

fn read_in_voices(list: &Vec<Json>) -> (r: Vec<InVoice>)
    ensures
        views(r@) == collect(views(list@), in_voice_reader()),
{
    let ghost all = views(list@);
    let mut out: Vec<InVoice> = Vec::new();
    let mut i: usize = 0;
    assert(views(out@) =~= collect(all.take(0), in_voice_reader()));
    while i < list.len()
        invariant
            i <= list.len(),
            all == views(list@),
            views(out@) == collect(all.take(i as int), in_voice_reader()),
        decreases list.len() - i,
    {
        let ghost before = out@;
        proof {
            lemma_collect_step(all, in_voice_reader(), i as int);
        }
        match read_in_voice(&list[i]) {
            Some(v) => {
                out.push(v);
                assert(views(out@) =~= views(before).push(v@));
            },
            None => {},
        }
        i += 1;
    }
    assert(all.take(i as int) =~= all);
    out
}

/// A list of JSON values of its own.
pub fn copy_list(list: &Vec<Json>) -> (r: Vec<Json>)
    ensures
        views(r@) == views(list@),
{
    let mut out: Vec<Json> = Vec::new();
    let mut i: usize = 0;
    while i < list.len()
        invariant
            i <= list.len(),
            out.len() == i,
            forall|j: int| 0 <= j < i ==> (#[trigger] out@[j])@ == list@[j]@,
        decreases list.len() - i,
    {
        out.push(list[i].copy());
        i += 1;
    }
    assert(views(out@) =~= views(list@));
    out
}

/// What registering a server comes to.
pub struct GuildPlan {
    pub guild_id: String,
    pub group_id: String,
    pub name: String,
    pub icon: Option<String>,
    pub position: i64,
    /// Joined, but not able to speak yet.
    pub pending: bool,
    pub roles: Vec<Json>,
    pub owner_id: Option<String>,
    pub own_roles: Vec<String>,
    /// The emoji that can be used, where the server lists any.
    pub emoji: Option<Vec<Emoji>>,
    pub voice_channels: Vec<VoiceChannel>,
    pub names: Vec<Named>,
    pub in_voice: Vec<InVoice>,
    /// The channels this account sees, each once.
    pub visible: Vec<String>,
    pub channels: Vec<NewChannel>,
    pub threads: Vec<NewChannel>,
}

/// The server as this account sees it: an owner's roles do not matter.
pub open spec fn guild_place(guild: JsonV, user_id: Seq<char>, me: Option<JsonV>) -> Place {
    let is_owner = guild.at("owner_id"@).text() == Some(user_id);
    Place {
        guild_id: guild.at("id"@).text_or_empty(),
        guild_name: text_or_v(guild.at("name"@), "guild"@),
        roles: guild.at("roles"@).items(),
        is_owner,
        mine: if is_owner {
            Seq::empty()
        } else {
            roles_of(me)
        },
        user_id,
        channels: guild.at("channels"@).items(),
    }
}

/// Whether a server says enough to be registered at all.
pub open spec fn is_registrable(guild: JsonV) -> bool {
    guild.at("channels"@) is List && guild.at("id"@) is Str
}

impl GuildPlan {
    /// Whether this is the plan for a server, seen by a user who is the member `me` of it.
    pub open spec fn is_for(
        &self,
        account_id: Seq<char>,
        user_id: Seq<char>,
        guild: JsonV,
        me: Option<JsonV>,
    ) -> bool {
        &&& self.guild_id@ == guild.at("id"@).text_or_empty()
        &&& self.group_id@ == guild_group(account_id, guild.at("id"@).text_or_empty())
        &&& self.name@ == text_or_v(guild.at("name"@), "guild"@)
        &&& maybe(self.icon) == guild.at("icon"@).text()
        &&& self.position == i64_or(guild.at("position"@), 0)
        &&& self.pending == is_pending(me)
        &&& views(self.roles@) == guild.at("roles"@).items()
        &&& maybe(self.owner_id) == guild.at("owner_id"@).text()
        &&& texts(self.own_roles@) == roles_of(me)
        &&& match self.emoji {
            Some(list) => guild.at("emojis"@) is List && views(list@) == collect(
                guild.at("emojis"@).items(),
                emoji_reader(),
            ),
            None => !(guild.at("emojis"@) is List),
        }
        &&& views(self.voice_channels@) == collect(guild.at("channels"@).items(), voice_reader())
        &&& views(self.names@) == collect(guild.at("members"@).items(), member_name_reader())
        &&& views(self.in_voice@) == collect(guild.at("voice_states"@).items(), in_voice_reader())
    }
}

/// Registers the channels of a server: what is to be recorded of the server, which channels this
/// account sees, and which conversations are new. Nothing comes of a server without channels.
pub fn register_guild_channels(
    account_id: &str,
    user_id: &str,
    guild: &Json,
    me: Option<&Json>,
    channel_map: &mut TextMap<Known>,
) -> (r: Option<GuildPlan>)
    ensures
        r is Some <==> is_registrable(guild@),
        r is None ==> final(channel_map)@ == old(channel_map)@,
        match r {
            Some(plan) => {
                let place = guild_place(guild@, user_id@, maybe_json(me));
                let known = map_views(old(channel_map)@);
                let outcome = placed(place, guild@.at("threads"@).items(), known);
                &&& plan.is_for(account_id@, user_id@, guild@, maybe_json(me))
                &&& texts(plan.visible@).no_duplicates()
                &&& texts(plan.visible@).to_set() == outcome.visible
                &&& views(plan.channels@) + views(plan.threads@) == outcome.fresh
                &&& views(plan.channels@) == place_texts(
                    place,
                    place.channels,
                    unplaced(known),
                ).fresh
                &&& map_views(final(channel_map)@) == outcome.known
            },
            None => true,
        },
{
    let channels = match guild.at("channels").list_items() {
        Some(channels) => channels,
        None => {
            return None;
        },
    };
    let guild_id = match guild.at("id").text() {
        Some(id) => id,
        None => {
            return None;
        },
    };
    let empty: Vec<Json> = Vec::new();
    let name = text_or(guild.at("name"), "guild");
    let roles = elements(guild.at("roles"), &empty);
    let is_owner = is_str(guild.at("owner_id"), user_id);
    let own_roles = member_role_ids(me);
    let mine: Vec<String> = if is_owner {
        Vec::new()
    } else {
        copy_texts(&own_roles)
    };
    assert(is_owner ==> texts(mine@) =~= Seq::empty());
    let threads = elements(guild.at("threads"), &empty);
    let scene = Scene { guild_id, guild_name: name, roles, is_owner, mine: &mine, user_id, channels };
    let registered = register_channels(&scene, threads, channel_map);
    let position: i64 = match guild.at("position").as_i64() {
        Some(n) => n,
        None => 0,
    };
    let emoji = match guild.at("emojis").list_items() {
        Some(list) => Some(read_emojis(list)),
        None => None,
    };
    Some(
        GuildPlan {
            guild_id: guild_id.to_owned(),
            group_id: guild_group_id(account_id, guild_id),
            name: name.to_owned(),
            icon: own(guild.at("icon").text()),
            position,
            pending: member_is_pending(me),
            roles: copy_list(roles),
            owner_id: own(guild.at("owner_id").text()),
            own_roles,
            emoji,
            voice_channels: read_voices(channels),
            names: read_member_names(elements(guild.at("members"), &empty)),
            in_voice: read_in_voices(elements(guild.at("voice_states"), &empty)),
            visible: registered.visible,
            channels: registered.channels,
            threads: registered.threads,
        },
    )
}

/// Whether a number that is written out in decimal has the binary digit of the value `digit`.
pub open spec fn spells(value: JsonV, digit: int) -> bool {
    match value {
        JsonV::Str(t) => u64_of(t) is Some && (u64_of(t)->0 / digit) % 2 == 1,
        _ => false,
    }
}

/// Whether one of a member's roles, or everybody's, has the digit among its permissions.
pub open spec fn some_role_spells(
    roles: Seq<JsonV>,
    guild_id: Seq<char>,
    mine: Seq<Seq<char>>,
    digit: int,
) -> bool {
    exists|i: int|
        0 <= i < roles.len() && spells((#[trigger] roles[i]).at("permissions"@), digit) && (
        roles[i].at("id"@).text_or_empty() == guild_id || mine.contains(
            roles[i].at("id"@).text_or_empty(),
        ))
}

/// Whether an overwrite is about a role (0) or a member (1) of the given id.
pub open spec fn is_about(overwrite: JsonV, kind: int, id: Seq<char>) -> bool {
    overwrite.at("type"@) == JsonV::Int(kind) && overwrite.at("id"@) == JsonV::Str(id)
}

/// Whether an overwrite is about one of a member's own roles.
pub open spec fn is_about_own_role(
    overwrite: JsonV,
    guild_id: Seq<char>,
    mine: Seq<Seq<char>>,
) -> bool {
    let id = overwrite.at("id"@).text_or_empty();
    overwrite.at("type"@) == JsonV::Int(0) && id != guild_id && mine.contains(id)
}

proof fn lemma_spelled_bits(value: JsonV)
    ensures
        (perm_bits(value) & PERM_VIEW_CHANNEL != 0) == spells(value, 1024),
        (perm_bits(value) & PERM_ADMINISTRATOR != 0) == spells(value, 8),
{
    let n = perm_bits(value);
    assert((n & (1u64 << 10) != 0) == ((n / 1024) % 2 == 1)) by (bit_vector);
    assert((n & (1u64 << 3) != 0) == ((n / 8) % 2 == 1)) by (bit_vector);
    assert(1u64 << 10 == PERM_VIEW_CHANNEL);
    assert(1u64 << 3 == PERM_ADMINISTRATOR);
}

proof fn lemma_layer(bits: u64, deny: u64, allow: u64)
    ensures
        (layered(bits, deny, allow) & PERM_VIEW_CHANNEL != 0) == (allow & PERM_VIEW_CHANNEL != 0
            || (bits & PERM_VIEW_CHANNEL != 0 && deny & PERM_VIEW_CHANNEL == 0)),
{
    let bit = PERM_VIEW_CHANNEL;
    assert((((bits & !deny) | allow) & bit != 0) == (allow & bit != 0 || (bits & bit != 0 && deny
        & bit == 0))) by (bit_vector)
        requires
            bit == 1u64 << 10,
    ;
}

proof fn lemma_base_spelled(roles: Seq<JsonV>, guild_id: Seq<char>, mine: Seq<Seq<char>>)
    ensures
        (base_bits(roles, guild_id, mine) & PERM_VIEW_CHANNEL != 0) == some_role_spells(
            roles,
            guild_id,
            mine,
            1024,
        ),
        (base_bits(roles, guild_id, mine) & PERM_ADMINISTRATOR != 0) == some_role_spells(
            roles,
            guild_id,
            mine,
            8,
        ),
    decreases roles.len(),
{
    let (v, a) = (PERM_VIEW_CHANNEL, PERM_ADMINISTRATOR);
    if roles.len() == 0 {
        assert(0u64 & v == 0 && 0u64 & a == 0) by (bit_vector);
    } else {
        let rest = roles.drop_last();
        lemma_base_spelled(rest, guild_id, mine);
        let before = base_bits(rest, guild_id, mine);
        let own = perm_bits(roles.last().at("permissions"@));
        lemma_spelled_bits(roles.last().at("permissions"@));
        assert(((before | own) & v != 0) == (before & v != 0 || own & v != 0) && ((before | own) & a
            != 0) == (before & a != 0 || own & a != 0)) by (bit_vector);
        lemma_some_role_spells_step(roles, guild_id, mine, 1024);
        lemma_some_role_spells_step(roles, guild_id, mine, 8);
    }
}

proof fn lemma_some_role_spells_step(
    roles: Seq<JsonV>,
    guild_id: Seq<char>,
    mine: Seq<Seq<char>>,
    digit: int,
)
    requires
        roles.len() > 0,
    ensures
        some_role_spells(roles, guild_id, mine, digit) == (some_role_spells(
            roles.drop_last(),
            guild_id,
            mine,
            digit,
        ) || (role_counts(roles.last(), guild_id, mine) && spells(
            roles.last().at("permissions"@),
            digit,
        ))),
{
    let rest = roles.drop_last();
    if some_role_spells(rest, guild_id, mine, digit) {
        let i = choose|i: int|
            0 <= i < rest.len() && spells((#[trigger] rest[i]).at("permissions"@), digit) && (
            rest[i].at("id"@).text_or_empty() == guild_id || mine.contains(
                rest[i].at("id"@).text_or_empty(),
            ));
        assert(rest[i] == roles[i]);
        assert(some_role_spells(roles, guild_id, mine, digit));
    }
    if some_role_spells(roles, guild_id, mine, digit) {
        let i = choose|i: int|
            0 <= i < roles.len() && spells((#[trigger] roles[i]).at("permissions"@), digit) && (
            roles[i].at("id"@).text_or_empty() == guild_id || mine.contains(
                roles[i].at("id"@).text_or_empty(),
            ));
        if i < rest.len() {
            assert(rest[i] == roles[i]);
        }
    }
    if role_counts(roles.last(), guild_id, mine) && spells(roles.last().at("permissions"@), digit) {
        assert(roles[roles.len() - 1] == roles.last());
    }
}

/// Whether one of the overwrites for a member's own roles has the digit under `side`.
pub open spec fn some_overwrite_spells(
    overwrites: Seq<JsonV>,
    side: Seq<char>,
    guild_id: Seq<char>,
    mine: Seq<Seq<char>>,
    digit: int,
) -> bool {
    exists|i: int|
        0 <= i < overwrites.len() && is_about_own_role(#[trigger] overwrites[i], guild_id, mine)
            && spells(overwrites[i].at(side), digit)
}

proof fn lemma_side_spelled(
    overwrites: Seq<JsonV>,
    side: Seq<char>,
    guild_id: Seq<char>,
    mine: Seq<Seq<char>>,
)
    ensures
        (role_side(overwrites, side, guild_id, mine) & PERM_VIEW_CHANNEL != 0)
            == some_overwrite_spells(overwrites, side, guild_id, mine, 1024),
    decreases overwrites.len(),
{
    let v = PERM_VIEW_CHANNEL;
    if overwrites.len() == 0 {
        assert(0u64 & v == 0) by (bit_vector);
    } else {
        let rest = overwrites.drop_last();
        let last = overwrites.last();
        lemma_side_spelled(rest, side, guild_id, mine);
        let before = role_side(rest, side, guild_id, mine);
        let own = perm_bits(last.at(side));
        lemma_spelled_bits(last.at(side));
        assert(((before | own) & v != 0) == (before & v != 0 || own & v != 0)) by (bit_vector);
        if some_overwrite_spells(rest, side, guild_id, mine, 1024) {
            let i = choose|i: int|
                0 <= i < rest.len() && is_about_own_role(#[trigger] rest[i], guild_id, mine)
                    && spells(rest[i].at(side), 1024);
            assert(rest[i] == overwrites[i]);
            assert(some_overwrite_spells(overwrites, side, guild_id, mine, 1024));
        }
        if some_overwrite_spells(overwrites, side, guild_id, mine, 1024) {
            let i = choose|i: int|
                0 <= i < overwrites.len() && is_about_own_role(
                    #[trigger] overwrites[i],
                    guild_id,
                    mine,
                ) && spells(overwrites[i].at(side), 1024);
            if i < rest.len() {
                assert(rest[i] == overwrites[i]);
            }
        }
        if is_about_own_role(last, guild_id, mine) && spells(last.at(side), 1024) {
            assert(overwrites[overwrites.len() - 1] == last);
            assert(some_overwrite_spells(overwrites, side, guild_id, mine, 1024));
        }
    }
}

proof fn lemma_overwrite_found(overwrites: Seq<JsonV>, kind: int, id: Seq<char>, i: int)
    requires
        i64::MIN <= kind <= i64::MAX,
        0 <= i <= overwrites.len(),
        forall|j: int| 0 <= j < i ==> !is_about(#[trigger] overwrites[j], kind, id),
        i < overwrites.len() ==> is_about(overwrites[i], kind, id),
    ensures
        i < overwrites.len() ==> overwrite_for(overwrites, kind, id) == Some(overwrites[i]),
        i == overwrites.len() ==> overwrite_for(overwrites, kind, id) is None,
    decreases overwrites.len(),
{
    if overwrites.len() > 0 && i > 0 {
        assert(!is_about(overwrites[0], kind, id));
        let rest = overwrites.skip(1);
        assert forall|j: int| 0 <= j < i - 1 implies !is_about(#[trigger] rest[j], kind, id) by {
            assert(rest[j] == overwrites[j + 1]);
        }
        lemma_overwrite_found(rest, kind, id, i - 1);
    }
}

/// The view bit of an overwrite that is found is that of one that is about the id.
proof fn lemma_overwrite_is_about(overwrites: Seq<JsonV>, kind: int, id: Seq<char>)
    requires
        i64::MIN <= kind <= i64::MAX,
    ensures
        overwrite_for(overwrites, kind, id) is Some ==> exists|i: int|
            0 <= i < overwrites.len() && is_about(#[trigger] overwrites[i], kind, id)
                && overwrite_for(overwrites, kind, id) == Some(overwrites[i]),
    decreases overwrites.len(),
{
    if overwrites.len() > 0 && !is_about(overwrites[0], kind, id) {
        let rest = overwrites.skip(1);
        lemma_overwrite_is_about(rest, kind, id);
        if overwrite_for(rest, kind, id) is Some {
            let i = choose|i: int|
                0 <= i < rest.len() && is_about(#[trigger] rest[i], kind, id) && overwrite_for(
                    rest,
                    kind,
                    id,
                ) == Some(rest[i]);
            assert(rest[i] == overwrites[i + 1]);
        }
    }
}

/// What the last layer leaves, where no overwrite for the member speaks of viewing.
proof fn lemma_member_silent(
    guild_id: Seq<char>,
    roles: Seq<JsonV>,
    mine: Seq<Seq<char>>,
    user_id: Seq<char>,
    channel: JsonV,
)
    requires
        ({
            let overwrites = channel.at("permission_overwrites"@).items();
            &&& !some_role_spells(roles, guild_id, mine, 8)
            &&& forall|i: int|
                0 <= i < overwrites.len() && is_about(#[trigger] overwrites[i], 1, user_id)
                    ==> !spells(overwrites[i].at("allow"@), 1024) && !spells(
                    overwrites[i].at("deny"@),
                    1024,
                )
        }),
    ensures
        ({
            let overwrites = channel.at("permission_overwrites"@).items();
            let everybody = after_overwrite(
                base_bits(roles, guild_id, mine),
                overwrite_for(overwrites, 0, guild_id),
            );
            sees(false, guild_id, roles, mine, user_id, channel) == (some_overwrite_spells(
                overwrites,
                "allow"@,
                guild_id,
                mine,
                1024,
            ) || (everybody & PERM_VIEW_CHANNEL != 0 && !some_overwrite_spells(
                overwrites,
                "deny"@,
                guild_id,
                mine,
                1024,
            )))
        }),
{
    let overwrites = channel.at("permission_overwrites"@).items();
    let everybody = after_overwrite(
        base_bits(roles, guild_id, mine),
        overwrite_for(overwrites, 0, guild_id),
    );
    let deny = role_side(overwrites, "deny"@, guild_id, mine);
    let allow = role_side(overwrites, "allow"@, guild_id, mine);
    lemma_base_spelled(roles, guild_id, mine);
    lemma_side_spelled(overwrites, "deny"@, guild_id, mine);
    lemma_side_spelled(overwrites, "allow"@, guild_id, mine);
    lemma_layer(everybody, deny, allow);
    lemma_overwrite_is_about(overwrites, 1, user_id);
    let own = overwrite_for(overwrites, 1, user_id);
    if own is Some {
        lemma_spelled_bits(own->0.at("allow"@));
        lemma_spelled_bits(own->0.at("deny"@));
        lemma_layer(
            layered(everybody, deny, allow),
            perm_bits(own->0.at("deny"@)),
            perm_bits(own->0.at("allow"@)),
        );
    }
}

/// A member whose roles a channel denies viewing does not see it: not where none of their roles is
/// an administrator's, some overwrite for one of their own roles denies it, none for any of their
/// own roles allows it, and no overwrite for the member speaks of it. What their roles allow in the
/// server, and what everybody is allowed in the channel, does not matter then.
pub proof fn law_denied_roles_shut_out(
    guild_id: Seq<char>,
    roles: Seq<JsonV>,
    mine: Seq<Seq<char>>,
    user_id: Seq<char>,
    channel: JsonV,
    denied: int,
)
    requires
        ({
            let overwrites = channel.at("permission_overwrites"@).items();
            &&& !some_role_spells(roles, guild_id, mine, 8)
            &&& 0 <= denied < overwrites.len()
            &&& is_about_own_role(overwrites[denied], guild_id, mine)
            &&& spells(overwrites[denied].at("deny"@), 1024)
            &&& forall|i: int|
                0 <= i < overwrites.len() && is_about_own_role(
                    #[trigger] overwrites[i],
                    guild_id,
                    mine,
                ) ==> !spells(overwrites[i].at("allow"@), 1024)
            &&& forall|i: int|
                0 <= i < overwrites.len() && is_about(#[trigger] overwrites[i], 1, user_id)
                    ==> !spells(overwrites[i].at("allow"@), 1024) && !spells(
                    overwrites[i].at("deny"@),
                    1024,
                )
        }),
    ensures
        !sees(false, guild_id, roles, mine, user_id, channel),
{
    lemma_member_silent(guild_id, roles, mine, user_id, channel);
}

/// A member one of whose own roles a channel lets in sees it, whatever it denies their other roles
/// and everybody, where no overwrite for the member speaks of viewing.
pub proof fn law_an_allowed_role_lets_in(
    guild_id: Seq<char>,
    roles: Seq<JsonV>,
    mine: Seq<Seq<char>>,
    user_id: Seq<char>,
    channel: JsonV,
    allowed: int,
)
    requires
        ({
            let overwrites = channel.at("permission_overwrites"@).items();
            &&& 0 <= allowed < overwrites.len()
            &&& is_about_own_role(overwrites[allowed], guild_id, mine)
            &&& spells(overwrites[allowed].at("allow"@), 1024)
            &&& forall|i: int|
                0 <= i < overwrites.len() && is_about(#[trigger] overwrites[i], 1, user_id)
                    ==> !spells(overwrites[i].at("allow"@), 1024) && !spells(
                    overwrites[i].at("deny"@),
                    1024,
                )
        }),
    ensures
        sees(false, guild_id, roles, mine, user_id, channel),
{
    lemma_base_spelled(roles, guild_id, mine);
    if !some_role_spells(roles, guild_id, mine, 8) {
        lemma_member_silent(guild_id, roles, mine, user_id, channel);
    }
}

/// Where neither the overwrites for a member's own roles nor those for the member speak of viewing,
/// the one for everybody decides: what it allows is seen, and what it denies without allowing it is
/// not.
pub proof fn law_everybodys_overwrite_decides(
    guild_id: Seq<char>,
    roles: Seq<JsonV>,
    mine: Seq<Seq<char>>,
    user_id: Seq<char>,
    channel: JsonV,
    first: int,
)
    requires
        ({
            let overwrites = channel.at("permission_overwrites"@).items();
            &&& !some_role_spells(roles, guild_id, mine, 8)
            &&& 0 <= first < overwrites.len()
            &&& is_about(overwrites[first], 0, guild_id)
            &&& forall|i: int|
                0 <= i < first ==> !is_about(#[trigger] overwrites[i], 0, guild_id)
            &&& spells(overwrites[first].at("allow"@), 1024) || spells(
                overwrites[first].at("deny"@),
                1024,
            )
            &&& forall|i: int|
                0 <= i < overwrites.len() && (is_about_own_role(
                    #[trigger] overwrites[i],
                    guild_id,
                    mine,
                ) || is_about(overwrites[i], 1, user_id)) ==> !spells(
                    overwrites[i].at("allow"@),
                    1024,
                ) && !spells(overwrites[i].at("deny"@), 1024)
        }),
    ensures
        sees(false, guild_id, roles, mine, user_id, channel) == spells(
            channel.at("permission_overwrites"@).items()[first].at("allow"@),
            1024,
        ),
{
    let overwrites = channel.at("permission_overwrites"@).items();
    lemma_member_silent(guild_id, roles, mine, user_id, channel);
    lemma_overwrite_found(overwrites, 0, guild_id, first);
    let o = overwrites[first];
    lemma_spelled_bits(o.at("allow"@));
    lemma_spelled_bits(o.at("deny"@));
    lemma_layer(
        base_bits(roles, guild_id, mine),
        perm_bits(o.at("deny"@)),
        perm_bits(o.at("allow"@)),
    );
}

/// Where no overwrite that concerns a member speaks of viewing, what their roles and everybody's
/// allow in the server decides.
pub proof fn law_the_server_decides_where_the_channel_is_silent(
    guild_id: Seq<char>,
    roles: Seq<JsonV>,
    mine: Seq<Seq<char>>,
    user_id: Seq<char>,
    channel: JsonV,
)
    requires
        ({
            let overwrites = channel.at("permission_overwrites"@).items();
            forall|i: int|
                0 <= i < overwrites.len() && (is_about_own_role(
                    #[trigger] overwrites[i],
                    guild_id,
                    mine,
                ) || is_about(overwrites[i], 1, user_id) || is_about(overwrites[i], 0, guild_id))
                    ==> !spells(overwrites[i].at("allow"@), 1024) && !spells(
                    overwrites[i].at("deny"@),
                    1024,
                )
        }),
    ensures
        sees(false, guild_id, roles, mine, user_id, channel) == (some_role_spells(
            roles,
            guild_id,
            mine,
            1024,
        ) || some_role_spells(roles, guild_id, mine, 8)),
{
    let overwrites = channel.at("permission_overwrites"@).items();
    lemma_base_spelled(roles, guild_id, mine);
    if !some_role_spells(roles, guild_id, mine, 8) {
        lemma_member_silent(guild_id, roles, mine, user_id, channel);
        lemma_overwrite_is_about(overwrites, 0, guild_id);
        let o = overwrite_for(overwrites, 0, guild_id);
        if o is Some {
            lemma_spelled_bits(o->0.at("allow"@));
            lemma_spelled_bits(o->0.at("deny"@));
            lemma_layer(
                base_bits(roles, guild_id, mine),
                perm_bits(o->0.at("deny"@)),
                perm_bits(o->0.at("allow"@)),
            );
        }
    }
}

/// The first overwrite for the member has the last word where it speaks of viewing: what it allows is
/// seen, and what it denies without allowing it is not, whatever the other overwrites and the roles
/// say, unless one of those is an administrator's.
pub proof fn law_the_members_own_overwrite_decides(
    guild_id: Seq<char>,
    roles: Seq<JsonV>,
    mine: Seq<Seq<char>>,
    user_id: Seq<char>,
    channel: JsonV,
    first: int,
)
    requires
        ({
            let overwrites = channel.at("permission_overwrites"@).items();
            &&& !some_role_spells(roles, guild_id, mine, 8)
            &&& 0 <= first < overwrites.len()
            &&& is_about(overwrites[first], 1, user_id)
            &&& forall|i: int| 0 <= i < first ==> !is_about(#[trigger] overwrites[i], 1, user_id)
            &&& spells(overwrites[first].at("allow"@), 1024) || spells(
                overwrites[first].at("deny"@),
                1024,
            )
        }),
    ensures
        sees(false, guild_id, roles, mine, user_id, channel) == spells(
            channel.at("permission_overwrites"@).items()[first].at("allow"@),
            1024,
        ),
{
    let overwrites = channel.at("permission_overwrites"@).items();
    lemma_base_spelled(roles, guild_id, mine);
    lemma_overwrite_found(overwrites, 1, user_id, first);
    let o = overwrites[first];
    lemma_spelled_bits(o.at("allow"@));
    lemma_spelled_bits(o.at("deny"@));
    let everybody = after_overwrite(
        base_bits(roles, guild_id, mine),
        overwrite_for(overwrites, 0, guild_id),
    );
    let by_role = layered(
        everybody,
        role_side(overwrites, "deny"@, guild_id, mine),
        role_side(overwrites, "allow"@, guild_id, mine),
    );
    lemma_layer(by_role, perm_bits(o.at("deny"@)), perm_bits(o.at("allow"@)));
}

/// An administrator of a server sees every channel of it: a member one of whose roles, or
/// everybody's, is one.
pub proof fn law_an_administrators_role_opens_everything(
    guild_id: Seq<char>,
    roles: Seq<JsonV>,
    mine: Seq<Seq<char>>,
    user_id: Seq<char>,
    channel: JsonV,
)
    requires
        some_role_spells(roles, guild_id, mine, 8),
    ensures
        sees(false, guild_id, roles, mine, user_id, channel),
{
    lemma_base_spelled(roles, guild_id, mine);
}

/// A member is pending where their membership says so, and only there.
pub proof fn law_pending_is_what_is_said(member: Option<JsonV>)
    ensures
        is_pending(member) == (member is Some && member->0.at("pending"@) == JsonV::Bool(true)),
{
}

/// The roles of a member are the texts that their membership lists as such; somebody without a
/// membership has none.
pub proof fn law_roles_are_those_listed(member: JsonV, role: Seq<char>)
    ensures
        roles_of(None).len() == 0,
        roles_of(Some(member)).contains(role) <==> member.at("roles"@).items().contains(
            JsonV::Str(role),
        ),
{
    let items = member.at("roles"@).items();
    if items.contains(JsonV::Str(role)) {
        let i = choose|i: int| 0 <= i < items.len() && items[i] == JsonV::Str(role);
        crate::json::law_collecting_loses_nothing(items, text_reader(), i);
    }
    if roles_of(Some(member)).contains(role) {
        let read = collect(items, text_reader());
        let k = choose|k: int| 0 <= k < read.len() && read[k] == role;
        crate::json::law_collecting_adds_nothing(items, text_reader(), k);
        let i = choose|i: int|
            0 <= i < items.len() && text_reader()(#[trigger] items[i]) == Some(read[k]);
        assert(items[i] == JsonV::Str(role));
    }
}

/// This account's membership is the first in the server's list that is about its user; where there
/// is none it is asked for with the token, of the server by its id, and where the server has no id
/// either there is nowhere to ask.
pub proof fn law_own_membership_is_found_or_asked_for(
    guild: JsonV,
    user_id: Seq<char>,
    token: Seq<char>,
    first: int,
)
    requires
        ({
            let members = guild.at("members"@).items();
            &&& 0 <= first <= members.len()
            &&& forall|i: int|
                0 <= i < first ==> (#[trigger] members[i]).at("user"@).at("id"@) != JsonV::Str(
                    user_id,
                )
            &&& first < members.len() ==> members[first].at("user"@).at("id"@) == JsonV::Str(
                user_id,
            )
        }),
    ensures
        ({
            let members = guild.at("members"@).items();
            let found = own_member_from(guild, user_id, token);
            &&& first < members.len() ==> found == OwnMemberV::Here(members[first])
            &&& first == members.len() && guild.at("id"@) is Str ==> {
                &&& found is Ask
                &&& found->Ask_0.method == Method::Get
                &&& found->Ask_0.url == "https://discord.com/api/v10"@ + ("/users/@me/guilds/"@
                    + guild.at("id"@)->Str_0 + "/member"@)
                &&& found->Ask_0.headers.len() == 1
                &&& found->Ask_0.headers[0].value == token
            }
            &&& first == members.len() && !(guild.at("id"@) is Str) ==> found is Nowhere
        }),
{
    lemma_member_found(guild.at("members"@).items(), user_id, first);
}

proof fn lemma_member_found(members: Seq<JsonV>, user_id: Seq<char>, first: int)
    requires
        0 <= first <= members.len(),
        forall|i: int|
            0 <= i < first ==> (#[trigger] members[i]).at("user"@).at("id"@) != JsonV::Str(user_id),
        first < members.len() ==> members[first].at("user"@).at("id"@) == JsonV::Str(user_id),
    ensures
        first < members.len() ==> member_of(members, user_id) == Some(members[first]),
        first == members.len() ==> member_of(members, user_id) is None,
    decreases members.len(),
{
    if members.len() > 0 && first > 0 {
        assert(members[0].at("user"@).at("id"@) != JsonV::Str(user_id));
        let rest = members.skip(1);
        assert forall|i: int| 0 <= i < first - 1 implies (#[trigger] rest[i]).at("user"@).at("id"@)
            != JsonV::Str(user_id) by {
            assert(rest[i] == members[i + 1]);
        }
        lemma_member_found(rest, user_id, first - 1);
    }
}

/// Two accounts do not share the entry of a server, nor two servers that of an account.
pub proof fn law_every_account_has_its_own_entry(
    account: Seq<char>,
    other: Seq<char>,
    guild_id: Seq<char>,
    other_id: Seq<char>,
)
    ensures
        guild_group(account, guild_id) == guild_group(other, guild_id) ==> account == other,
        guild_group(account, guild_id) == guild_group(account, other_id) ==> guild_id == other_id,
        guild_group(account, guild_id) == account + ("|guild:"@ + guild_id),
{
    let tail = "|guild:"@ + guild_id;
    assert(guild_group(account, guild_id) =~= account + tail);
    assert(guild_group(other, guild_id) =~= other + tail);
    if guild_group(account, guild_id) == guild_group(other, guild_id) {
        assert((account + tail).take(account.len() as int) =~= account);
        assert((other + tail).take(other.len() as int) =~= other);
        assert((account + tail).len() == (other + tail).len());
    }
    if guild_group(account, guild_id) == guild_group(account, other_id) {
        let n = (account + "|guild:"@).len() as int;
        assert(guild_group(account, guild_id).skip(n) =~= guild_id);
        assert(guild_group(account, other_id).skip(n) =~= other_id);
    }
}

/// An emoji can be used where it has an id and a name and is not said to be unavailable, and moves
/// where it is said to.
pub proof fn law_emoji_can_be_used_unless_said_otherwise(e: JsonV)
    ensures
        ({
            let r = usable_emoji(e);
            &&& r is Some <==> e.at("id"@) is Str && e.at("name"@) is Str && e.at("available"@)
                != JsonV::Bool(false)
            &&& r is Some ==> {
                &&& e.at("id"@) == JsonV::Str(r->0.id)
                &&& e.at("name"@) == JsonV::Str(r->0.name)
                &&& r->0.animated == (e.at("animated"@) == JsonV::Bool(true))
            }
        }),
{
}

/// A voice channel is a channel of the second type with an id; it goes by its name, and holds as many
/// as it says, without a limit where it says nothing.
pub proof fn law_voice_channels_are_read(c: JsonV)
    ensures
        ({
            let r = voice_channel(c);
            &&& r is Some <==> c.at("type"@) == JsonV::Int(2) && c.at("id"@) is Str
            &&& r is Some ==> {
                &&& c.at("id"@) == JsonV::Str(r->0.id)
                &&& c.at("name"@) is Str ==> c.at("name"@) == JsonV::Str(r->0.name)
                &&& !(c.at("name"@) is Str) ==> r->0.name == "voice"@
                &&& c.at("user_limit"@).as_u64() is Some ==> c.at("user_limit"@) == JsonV::Int(
                    r->0.user_limit,
                )
                &&& c.at("user_limit"@).as_u64() is None ==> r->0.user_limit == 0
            }
        }),
{
}

/// A member goes by their nickname, else by the name they chose, else by the one they signed up with;
/// one without any name, or without an id, is passed over.
pub proof fn law_members_go_by_their_nearest_name(m: JsonV)
    ensures
        ({
            let user = m.at("user"@);
            let nick = m.at("nick"@).text_or_empty();
            let chosen = user.at("global_name"@).text_or_empty();
            let r = member_name(m);
            &&& r is Some <==> user.at("id"@) is Str && (nick.len() > 0 || chosen.len() > 0
                || user.at("username"@) is Str)
            &&& r is Some ==> {
                &&& user.at("id"@) == JsonV::Str(r->0.user_id)
                &&& nick.len() > 0 ==> r->0.name == nick
                &&& nick.len() == 0 && chosen.len() > 0 ==> r->0.name == chosen
                &&& nick.len() == 0 && chosen.len() == 0 ==> user.at("username"@) == JsonV::Str(
                    r->0.name,
                )
            }
        }),
{
}

/// Somebody is in voice where their state names them and a channel, and that state is kept whole.
pub proof fn law_a_voice_state_places_its_user(vs: JsonV)
    ensures
        ({
            let r = in_voice(vs);
            &&& r is Some <==> vs.at("user_id"@) is Str && vs.at("channel_id"@) is Str
            &&& r is Some ==> {
                &&& vs.at("user_id"@) == JsonV::Str(r->0.user_id)
                &&& vs.at("channel_id"@) == JsonV::Str(r->0.channel_id)
                &&& r->0.name == voice_name(vs)
                &&& r->0.avatar == voice_picture(vs)
                &&& r->0.state == vs
            }
        }),
{
}

/// A server is seen with the roles that this account has in it, and by its owner without any.
pub proof fn law_a_server_is_seen_by_its_member(
    guild: JsonV,
    user_id: Seq<char>,
    me: Option<JsonV>,
)
    ensures
        ({
            let place = guild_place(guild, user_id, me);
            &&& guild.at("id"@) is Str ==> guild.at("id"@) == JsonV::Str(place.guild_id)
            &&& guild.at("name"@) is Str ==> guild.at("name"@) == JsonV::Str(place.guild_name)
            &&& !(guild.at("name"@) is Str) ==> place.guild_name == "guild"@
            &&& place.is_owner == (guild.at("owner_id"@) == JsonV::Str(user_id))
            &&& place.is_owner ==> place.mine.len() == 0
            &&& !place.is_owner ==> place.mine == roles_of(me)
            &&& place.user_id == user_id
            &&& place.roles == guild.at("roles"@).items()
            &&& place.channels == guild.at("channels"@).items()
        }),
{
}

/// What the roles that count for a member allow between them has a digit exactly where one of them has
/// it.
pub proof fn lemma_base_spells(
    roles: Seq<JsonV>,
    guild_id: Seq<char>,
    mine: Seq<Seq<char>>,
    bit: u64,
    digit: int,
)
    requires
        0u64 & bit == 0,
        forall|n: u64| (#[trigger] (n & bit) != 0) == ((n as int / digit) % 2 == 1),
    ensures
        (base_bits(roles, guild_id, mine) & bit != 0) == some_role_spells(
            roles,
            guild_id,
            mine,
            digit,
        ),
    decreases roles.len(),
{
    if roles.len() > 0 {
        let rest = roles.drop_last();
        lemma_base_spells(rest, guild_id, mine, bit, digit);
        let before = base_bits(rest, guild_id, mine);
        let own = perm_bits(roles.last().at("permissions"@));
        assert((own & bit != 0) == ((own as int / digit) % 2 == 1));
        assert(((before | own) & bit != 0) == (before & bit != 0 || own & bit != 0)) by (bit_vector);
        lemma_some_role_spells_step(roles, guild_id, mine, digit);
        assert((0u64 as int / digit) % 2 != 1) by {
            assert(!(0u64 & bit != 0));
        }
    }
}

/// What is recorded of a server is what the server says: its id, under the account's own entry, its name
/// and picture, its place, its owner and its roles, the roles of this account there, and everything of its
/// emoji, its voice channels, its members and those in voice that can be read, in their order.
pub proof fn law_a_server_is_recorded_as_it_is(
    plan: GuildPlan,
    account_id: Seq<char>,
    user_id: Seq<char>,
    guild: JsonV,
    me: Option<JsonV>,
)
    requires
        plan.is_for(account_id, user_id, guild, me),
        is_registrable(guild),
    ensures
        guild.at("id"@) == JsonV::Str(plan.guild_id@),
        plan.group_id@ == account_id + "|guild:"@ + plan.guild_id@,
        guild.at("name"@) is Str ==> guild.at("name"@) == JsonV::Str(plan.name@),
        !(guild.at("name"@) is Str) ==> plan.name@ == "guild"@,
        maybe(plan.icon) == guild.at("icon"@).text(),
        guild.at("position"@).as_i64() is Some ==> guild.at("position"@) == JsonV::Int(
            plan.position as int,
        ),
        guild.at("position"@).as_i64() is None ==> plan.position == 0,
        plan.pending <==> me is Some && me->0.at("pending"@) == JsonV::Bool(true),
        views(plan.roles@) == guild.at("roles"@).items(),
        maybe(plan.owner_id) == guild.at("owner_id"@).text(),
        me is Some ==> texts(plan.own_roles@) == collect(
            me->0.at("roles"@).items(),
            |v: JsonV| v.text(),
        ),
        me is None ==> plan.own_roles@.len() == 0,
        plan.emoji is Some <==> guild.at("emojis"@) is List,
        plan.emoji matches Some(list) ==> views(list@) == collect(
            guild.at("emojis"@).items(),
            |e: JsonV| usable_emoji(e),
        ),
        views(plan.voice_channels@) == collect(
            guild.at("channels"@).items(),
            |c: JsonV| voice_channel(c),
        ),
        views(plan.names@) == collect(guild.at("members"@).items(), |m: JsonV| member_name(m)),
        views(plan.in_voice@) == collect(
            guild.at("voice_states"@).items(),
            |vs: JsonV| in_voice(vs),
        ),
{
    if me is None {
        assert(texts(plan.own_roles@).len() == 0);
    }
}

/// A server is registered where it has an id and lists its channels.
pub proof fn law_a_server_is_registered_with_its_channels(guild: JsonV)
    ensures
        is_registrable(guild) <==> guild.at("id"@) is Str && guild.at("channels"@) is List,
{
}

} // verus!
