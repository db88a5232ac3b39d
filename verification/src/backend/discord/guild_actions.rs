//! What can be done in a server: joining and leaving, inviting, moderating, its roles and threads.
use vstd::prelude::*;
use crate::json::{Json, JsonV, elements, flag_or, i64_or, is_str, jopt, jstr, law_put_then_read, nothing, parse, parsed_json, text_or, text_or_v};
use crate::text::{blank, hex_text, hexadecimal, holds, is_blank, is_text, lend, maybe, maybe_str, own, pad_zeros, same, split, split_on, texts, trim, trimmed, views, zero_padded};
use crate::text_map::{TextMap, map_views, lemma_map_views_insert};
use super::channels::{Known, NewChannel, NewChannelV, Parent, ParentV, add_once, channel_title, register_thread, thread_to_open};
use super::guilds::{PERM_ADMINISTRATOR, PERM_BAN_MEMBERS, PERM_KICK_MEMBERS, PERM_MANAGE_ROLES, PERM_MODERATE_MEMBERS, base_bits, lemma_base_spells, maybe_json, member_bits, member_role_ids, roles_of, some_role_spells};
use super::http::{CaptchaAnswer, CaptchaAnswerV, Method, Request, RequestV, answer_of, answer_outcome, answer_view, asking, captcha_added, captcha_sentence, discord_error_text, error_sentence, is_success, need_channel, need_server, need_token, no_channel, no_server, not_connected, reply_of, request_view, result_view, succeeded, with_captcha};

verus! {

/// A text without the slashes at its end.
pub open spec fn without_end_slashes(s: Seq<char>) -> Seq<char>
    decreases s.len(),
{
    if s.len() > 0 && s.last() == '/' {
        without_end_slashes(s.drop_last())
    } else {
        s
    }
}

/// The code of an invite: what follows the last slash of its address.
pub open spec fn invite_code(invite: Seq<char>) -> Seq<char> {
    split_on(without_end_slashes(trimmed(invite)), '/').last()
}

fn read_invite_code(invite: &str) -> (r: String)
    ensures
        r@ == invite_code(invite@),
{
    let trimmed_text = trim(invite);
    let chars = crate::text::chars_of(trimmed_text.as_str());
    let ghost all = chars@;
    let mut to: usize = chars.len();
    assert(all.take(to as int) =~= all);
    while to > 0 && chars[to - 1] == '/'
        invariant
            chars@ == all,
            to <= all.len(),
            without_end_slashes(all) == without_end_slashes(all.take(to as int)),
        decreases to,
    {
        assert(all.take(to as int).drop_last() =~= all.take(to - 1));
        to -= 1;
    }
    let kept = crate::text::slice_text(&chars, 0, to);
    assert(kept@ =~= all.take(to as int));
    let parts = split(kept.as_str(), '/');
    assert(texts(parts@).last() == parts@[parts@.len() - 1]@);
    parts[parts.len() - 1].clone()
}

pub open spec fn join_request(
    token: Option<Seq<char>>,
    invite: Seq<char>,
    captcha: Option<CaptchaAnswerV>,
) -> Result<RequestV, Seq<char>> {
    match token {
        Some(t) => Ok(
            captcha_added(
                asking(Method::Post, "/invites/"@ + invite_code(invite), t).with_body(nothing()),
                captcha,
            ),
        ),
        None => Err(not_connected()),
    }
}

/// Accepts an invite: a bare code or the address of one.
pub fn join_guild(token: Option<&str>, invite: &str, captcha: Option<&CaptchaAnswer>) -> (r: Result<
    Request,
    String,
>)
    ensures
        request_view(r) == join_request(maybe_str(token), invite@, answer_view(captcha)),
{
    match need_token(token) {
        Ok(token) => {
            let code = read_invite_code(invite);
            let path = "/invites/".to_owned().concat(code.as_str());
            Ok(
                with_captcha(
                    Request::new(Method::Post, path.as_str(), token).with_body(Json::object()),
                    captcha,
                ),
            )
        },
        Err(e) => Err(e),
    }
}

pub open spec fn invite_request(
    token: Option<Seq<char>>,
    channel_id: Option<Seq<char>>,
    max_age: i64,
    max_uses: i64,
    temporary: bool,
    captcha: Option<CaptchaAnswerV>,
) -> Result<RequestV, Seq<char>> {
    match (token, channel_id) {
        (None, _) => Err(not_connected()),
        (_, None) => Err(no_channel()),
        (Some(t), Some(c)) => Ok(
            captcha_added(
                asking(Method::Post, "/channels/"@ + c + "/invites"@, t).with_body(
                    nothing().put("max_age"@, JsonV::Int(max_age as int)).put(
                        "max_uses"@,
                        JsonV::Int(max_uses as int),
                    ).put("temporary"@, JsonV::Bool(temporary)),
                ),
                captcha,
            ),
        ),
    }
}

/// Makes an invite to a conversation. Zero means never for the age, and no limit for the uses.
pub fn create_invite(
    token: Option<&str>,
    channel_id: Option<&str>,
    max_age: i64,
    max_uses: i64,
    temporary: bool,
    captcha: Option<&CaptchaAnswer>,
) -> (r: Result<Request, String>)
    ensures
        request_view(r) == invite_request(
            maybe_str(token),
            maybe_str(channel_id),
            max_age,
            max_uses,
            temporary,
            answer_view(captcha),
        ),
{
    let token = match need_token(token) {
        Ok(t) => t,
        Err(e) => {
            return Err(e);
        },
    };
    let channel_id = match need_channel(channel_id) {
        Ok(c) => c,
        Err(e) => {
            return Err(e);
        },
    };
    let mut path = "/channels/".to_owned();
    path.append(channel_id);
    path.append("/invites");
    let body = Json::object().put("max_age", Json::Int(max_age as i128)).put(
        "max_uses",
        Json::Int(max_uses as i128),
    ).put("temporary", Json::Bool(temporary));
    Ok(with_captcha(Request::new(Method::Post, path.as_str(), token).with_body(body), captcha))
}

/// What came of asking for an invite: the link, a question, or a failure.
pub open spec fn invite_outcome(status: u16, reply: JsonV, text: Seq<char>) -> Result<
    JsonV,
    Seq<char>,
> {
    if is_success(status) {
        match reply.at("code"@).text() {
            Some(code) => Ok(nothing().put("invite"@, jstr("https://discord.gg/"@ + code))),
            None => Err("Discord made an invite with no code in it"@),
        }
    } else {
        answer_outcome(status, reply, text, "making an invite"@)
    }
}

/// What came of asking for an invite, given the reply as JSON.
pub fn invite_made(status: u16, reply: &Json, text: &str) -> (r: Result<Json, String>)
    requires
        100 <= status <= 999,
    ensures
        result_view(r) == invite_outcome(status, reply@, text@),
{
    if succeeded(status) {
        match reply.at("code").text() {
            Some(code) => {
                let link = "https://discord.gg/".to_owned().concat(code);
                Ok(Json::object().put("invite", Json::string(link.as_str())))
            },
            None => Err("Discord made an invite with no code in it".to_owned()),
        }
    } else {
        answer_of(status, reply, text, "making an invite")
    }
}

pub open spec fn new_guild_request(token: Option<Seq<char>>, name: Seq<char>) -> Result<
    RequestV,
    Seq<char>,
> {
    match token {
        Some(t) => Ok(
            asking(Method::Post, "/guilds"@, t).with_body(
                nothing().put("name"@, jstr(trimmed(name))),
            ),
        ),
        None => Err(not_connected()),
    }
}

/// Creates a server of this account's own.
pub fn create_guild(token: Option<&str>, name: &str) -> (r: Result<Request, String>)
    ensures
        request_view(r) == new_guild_request(maybe_str(token), name@),
{
    match need_token(token) {
        Ok(token) => {
            let name = trim(name);
            Ok(
                Request::new(Method::Post, "/guilds", token).with_body(
                    Json::object().put("name", Json::string(name.as_str())),
                ),
            )
        },
        Err(e) => Err(e),
    }
}

pub open spec fn rules_request(token: Option<Seq<char>>, guild_id: Seq<char>) -> Result<
    RequestV,
    Seq<char>,
> {
    match token {
        Some(t) => Ok(
            asking(Method::Get, "/guilds/"@ + guild_id + "/member-verification"@, t),
        ),
        None => Err(not_connected()),
    }
}

/// Asks for the rules that a server wants agreed to before letting somebody speak.
pub fn member_verification(token: Option<&str>, guild_id: &str) -> (r: Result<Request, String>)
    ensures
        request_view(r) == rules_request(maybe_str(token), guild_id@),
{
    match need_token(token) {
        Ok(token) => {
            let mut path = "/guilds/".to_owned();
            path.append(guild_id);
            path.append("/member-verification");
            Ok(Request::new(Method::Get, path.as_str(), token))
        },
        Err(e) => Err(e),
    }
}

/// The rules that a reply holds, as they were written.
pub open spec fn rules_outcome(status: u16, parsed: Option<JsonV>, text: Seq<char>) -> Result<
    JsonV,
    Seq<char>,
> {
    if is_success(status) {
        match parsed {
            Some(v) => Ok(v),
            None => Err("parsing this server's rules"@),
        }
    } else {
        Err(
            error_sentence(
                status,
                reply_of(text),
                text,
                captcha_sentence("reading this server's rules"@),
            ),
        )
    }
}

/// The rules that a reply holds.
pub fn rules_read(status: u16, text: &str) -> (r: Result<Json, String>)
    requires
        100 <= status <= 999,
    ensures
        result_view(r) == rules_outcome(status, parsed_json(text@), text@),
{
    if succeeded(status) {
        match parse(text) {
            Some(v) => Ok(v),
            None => Err("parsing this server's rules".to_owned()),
        }
    } else {
        Err(discord_error_text(status, text, "reading this server's rules"))
    }
}

/// The fields of a form, each with its response set.
pub open spec fn agreed_fields(fields: Seq<JsonV>) -> Seq<JsonV> {
    Seq::new(fields.len(), |i: int| fields[i].set("response"@, JsonV::Bool(true)))
}

pub open spec fn agree_request(token: Option<Seq<char>>, guild_id: Seq<char>, form: JsonV) -> Result<
    RequestV,
    Seq<char>,
> {
    match token {
        Some(t) => Ok(
            asking(Method::Put, "/guilds/"@ + guild_id + "/requests/@me"@, t).with_body(
                nothing().put("version"@, form.at("version"@)).put(
                    "form_fields"@,
                    JsonV::List(agreed_fields(form.at("form_fields"@).items())),
                ),
            ),
        ),
        None => Err(not_connected()),
    }
}

/// Whether every field of a form is one that can be answered.
pub open spec fn is_answerable(form: JsonV) -> bool {
    forall|i: int|
        0 <= i < form.at("form_fields"@).items().len() ==> ((
        #[trigger] form.at("form_fields"@).items()[i]) is Object || form.at("form_fields"@).items()[i] is Null)
}

/// Agrees to a server's rules: every field goes back as it came, with its response set.
pub fn accept_member_verification(token: Option<&str>, guild_id: &str, form: &Json) -> (r: Result<
    Request,
    String,
>)
    requires
        is_answerable(form@),
    ensures
        request_view(r) == agree_request(maybe_str(token), guild_id@, form@),
{
    let token = match need_token(token) {
        Ok(t) => t,
        Err(e) => {
            return Err(e);
        },
    };
    let empty: Vec<Json> = Vec::new();
    let fields = elements(form.at("form_fields"), &empty);
    let ghost all = views(fields@);
    let mut out: Vec<Json> = Vec::new();
    let mut i: usize = 0;
    while i < fields.len()
        invariant
            i <= fields.len(),
            all == views(fields@),
            all == form@.at("form_fields"@).items(),
            is_answerable(form@),
            out.len() == i,
            forall|j: int|
                0 <= j < i ==> (#[trigger] out@[j])@ == all[j].set(
                    "response"@,
                    JsonV::Bool(true),
                ),
        decreases fields.len() - i,
    {
        assert(all[i as int] == form@.at("form_fields"@).items()[i as int]);
        out.push(fields[i].copy().set("response", Json::Bool(true)));
        i += 1;
    }
    assert(views(out@) =~= agreed_fields(all));
    let mut path = "/guilds/".to_owned();
    path.append(guild_id);
    path.append("/requests/@me");
    Ok(
        Request::new(Method::Put, path.as_str(), token).with_body(
            Json::object().put("version", form.at("version").copy()).put(
                "form_fields",
                Json::list(out),
            ),
        ),
    )
}

/// What this account may do to other people: everything as the owner or as an administrator,
/// else what its roles allow.
pub open spec fn powers(
    guild_id: Option<Seq<char>>,
    user_id: Option<Seq<char>>,
    owner: Option<Seq<char>>,
    roles: Seq<JsonV>,
    member: Option<JsonV>,
) -> JsonV {
    match (guild_id, user_id) {
        (Some(guild_id), Some(user_id)) => {
            let bits = base_bits(roles, guild_id, roles_of(member));
            let all = owner == Some(user_id) || bits & PERM_ADMINISTRATOR != 0;
            power_list(
                all || bits & PERM_KICK_MEMBERS != 0,
                all || bits & PERM_BAN_MEMBERS != 0,
                all || bits & PERM_MODERATE_MEMBERS != 0,
                all || bits & PERM_MANAGE_ROLES != 0,
            )
        },
        _ => power_list(false, false, false, false),
    }
}

pub open spec fn power_list(kick: bool, ban: bool, mute: bool, assign: bool) -> JsonV {
    nothing().put("canKick"@, JsonV::Bool(kick)).put("canBan"@, JsonV::Bool(ban)).put(
        "canMute"@,
        JsonV::Bool(mute),
    ).put("canAssignRoles"@, JsonV::Bool(assign))
}

fn list_powers(kick: bool, ban: bool, mute: bool, assign: bool) -> (r: Json)
    ensures
        r@ == power_list(kick, ban, mute, assign),
{
    Json::object().put("canKick", Json::Bool(kick)).put("canBan", Json::Bool(ban)).put(
        "canMute",
        Json::Bool(mute),
    ).put("canAssignRoles", Json::Bool(assign))
}

/// What this account may do to other people in a server.
pub fn guild_powers(
    guild_id: Option<&str>,
    user_id: Option<&str>,
    owner: Option<&str>,
    roles: &Vec<Json>,
    member: Option<&Json>,
) -> (r: Json)
    ensures
        r@ == powers(
            maybe_str(guild_id),
            maybe_str(user_id),
            maybe_str(owner),
            views(roles@),
            maybe_json(member),
        ),
{
    let (guild_id, user_id) = match (guild_id, user_id) {
        (Some(g), Some(u)) => (g, u),
        _ => {
            return list_powers(false, false, false, false);
        },
    };
    if is_text(owner, user_id) {
        return list_powers(true, true, true, true);
    }
    let mine = member_role_ids(member);
    let bits: u64 = member_bits(guild_id, roles, &mine);
    let admin = bits & PERM_ADMINISTRATOR != 0;
    list_powers(
        admin || bits & PERM_KICK_MEMBERS != 0,
        admin || bits & PERM_BAN_MEMBERS != 0,
        admin || bits & PERM_MODERATE_MEMBERS != 0,
        admin || bits & PERM_MANAGE_ROLES != 0,
    )
}

/// An entry with the place it is sorted by.
#[derive(Debug, PartialEq, Eq)]
pub struct Ranked {
    pub rank: i64,
    pub value: Json,
}

pub struct RankedV {
    pub rank: int,
    pub value: JsonV,
}

impl View for Ranked {
    type V = RankedV;

    open spec fn view(&self) -> RankedV {
        RankedV { rank: self.rank as int, value: self.value@ }
    }
}

/// A list from the highest place down with one more entry, after those placed as high.
pub open spec fn insert_ranked(list: Seq<RankedV>, item: RankedV) -> Seq<RankedV>
    decreases list.len(),
{
    if list.len() == 0 || list.last().rank >= item.rank {
        list.push(item)
    } else {
        insert_ranked(list.drop_last(), item).push(list.last())
    }
}

proof fn lemma_insert_ranked(list: Seq<RankedV>, item: RankedV, i: int)
    requires
        0 <= i <= list.len(),
        i == 0 || list[i - 1].rank >= item.rank,
        forall|j: int| i <= j < list.len() ==> (#[trigger] list[j]).rank < item.rank,
    ensures
        insert_ranked(list, item) == list.insert(i, item),
    decreases list.len(),
{
    if list.len() == i {
        assert(list.insert(i, item) =~= list.push(item));
    } else {
        assert(list.last() == list[list.len() - 1]);
        lemma_insert_ranked(list.drop_last(), item, i);
        assert(list.drop_last().insert(i, item).push(list.last()) =~= list.insert(i, item));
    }
}

/// How a role is shown in a menu: a role of no colour of its own has none here.
pub open spec fn role_colour(role: JsonV) -> Option<Seq<char>> {
    match role.at("color"@).as_i64() {
        Some(c) => if c > 0 {
            Some("#"@ + zero_padded(hex_text(c as nat), 6))
        } else {
            None
        },
        None => None,
    }
}

/// A role that can be given: not everybody's, and not one that something else manages.
pub open spec fn given_role(role: JsonV, guild_id: Seq<char>) -> Option<RankedV> {
    if role.at("id"@).text() != Some(guild_id) && !flag_or(role.at("managed"@), false) {
        Some(
            RankedV {
                rank: i64_or(role.at("position"@), 0),
                value: nothing().put("id"@, jstr(role.at("id"@).text_or_empty())).put(
                    "name"@,
                    jstr(text_or_v(role.at("name"@), "role"@)),
                ).put("colour"@, jopt(role_colour(role))),
            },
        )
    } else {
        None
    }
}

/// The roles that can be given, the most senior first and otherwise in the order of the server.
pub open spec fn roles_ranked(roles: Seq<JsonV>, guild_id: Seq<char>) -> Seq<RankedV>
    decreases roles.len(),
{
    if roles.len() == 0 {
        Seq::empty()
    } else {
        let before = roles_ranked(roles.drop_last(), guild_id);
        match given_role(roles.last(), guild_id) {
            Some(r) => insert_ranked(before, r),
            None => before,
        }
    }
}

pub open spec fn ranked_values(list: Seq<RankedV>) -> Seq<JsonV> {
    Seq::new(list.len(), |i: int| list[i].value)
}

fn read_role(role: &Json, guild_id: &str) -> (r: Option<Ranked>)
    ensures
        match r {
            Some(x) => given_role(role@, guild_id@) == Some(x@),
            None => given_role(role@, guild_id@) is None,
        },
{
    if is_str(role.at("id"), guild_id) {
        return None;
    }
    let managed = match role.at("managed").flag() {
        Some(b) => b,
        None => false,
    };
    if managed {
        return None;
    }
    let rank: i64 = match role.at("position").as_i64() {
        Some(n) => n,
        None => 0,
    };
    let colour: Option<String> = match role.at("color").as_i64() {
        Some(c) => if c > 0 {
            let hex = pad_zeros(hexadecimal(c as u64), 6);
            Some("#".to_owned().concat(hex.as_str()))
        } else {
            None
        },
        None => None,
    };
    let value = Json::object().put("id", Json::string(role.at("id").text_or_empty())).put(
        "name",
        Json::string(text_or(role.at("name"), "role")),
    ).put("colour", Json::opt(lend(&colour)));
    Some(Ranked { rank, value })
}

/// The roles of a server that somebody can be given.
pub fn assignable_roles(guild_id: Option<&str>, roles: &Vec<Json>) -> (r: Json)
    ensures
        r@ == JsonV::List(
            match guild_id {
                Some(g) => ranked_values(roles_ranked(views(roles@), g@)),
                None => Seq::empty(),
            },
        ),
{
    let guild_id = match guild_id {
        Some(g) => g,
        None => {
            let none: Vec<Json> = Vec::new();
            assert(views(none@) =~= Seq::empty());
            return Json::list(none);
        },
    };
    let ghost all = views(roles@);
    let mut list: Vec<Ranked> = Vec::new();
    let mut i: usize = 0;
    assert(views(list@) =~= roles_ranked(all.take(0), guild_id@));
    while i < roles.len()
        invariant
            i <= roles.len(),
            all == views(roles@),
            views(list@) == roles_ranked(all.take(i as int), guild_id@),
        decreases roles.len() - i,
    {
        proof {
            assert(all.take(i + 1).drop_last() =~= all.take(i as int));
            assert(all.take(i + 1).last() == roles@[i as int]@);
        }
        match read_role(&roles[i], guild_id) {
            Some(item) => {
                let ghost before = list@;
                let mut k: usize = list.len();
                while k > 0 && list[k - 1].rank < item.rank
                    invariant
                        list@ == before,
                        k <= list.len(),
                        forall|j: int| k <= j < list.len() ==> (#[trigger] list@[j]).rank
                            < item.rank,
                    decreases k,
                {
                    k -= 1;
                }
                proof {
                    assert forall|j: int| k <= j < views(before).len() implies (
                    #[trigger] views(before)[j]).rank < item@.rank by {
                        assert(list@[j].rank < item.rank);
                    }
                    if k > 0 {
                        assert(views(before)[k - 1].rank >= item@.rank);
                    }
                    lemma_insert_ranked(views(before), item@, k as int);
                }
                list.insert(k, item);
                assert(views(list@) =~= views(before).insert(k as int, item@));
            },
            None => {},
        }
        i += 1;
    }
    assert(all.take(i as int) =~= all);
    let ghost sorted = views(list@);
    let mut out: Vec<Json> = Vec::new();
    let mut n: usize = 0;
    while n < list.len()
        invariant
            n <= list.len(),
            sorted == views(list@),
            out.len() == n,
            forall|j: int| 0 <= j < n ==> (#[trigger] out@[j])@ == sorted[j].value,
        decreases list.len() - n,
    {
        out.push(list[n].value.copy());
        n += 1;
    }
    assert(views(out@) =~= ranked_values(sorted));
    Json::list(out)
}

proof fn lemma_insert_keeps_order(list: Seq<RankedV>, item: RankedV)
    requires
        forall|i: int, j: int| 0 <= i < j < list.len() ==> (#[trigger] list[i]).rank >= (
        #[trigger] list[j]).rank,
    ensures
        forall|i: int, j: int|
            0 <= i < j < insert_ranked(list, item).len() ==> (#[trigger] insert_ranked(
                list,
                item,
            )[i]).rank >= (#[trigger] insert_ranked(list, item)[j]).rank,
        insert_ranked(list, item).len() == list.len() + 1,
        insert_ranked(list, item).to_multiset() == list.to_multiset().insert(item),
        forall|i: int|
            0 <= i < insert_ranked(list, item).len() ==> (#[trigger] insert_ranked(list, item)[i]
                == item || list.contains(insert_ranked(list, item)[i])),
    decreases list.len(),
{
    broadcast use vstd::seq_lib::group_to_multiset_ensures;

    let r = insert_ranked(list, item);
    if list.len() == 0 || list.last().rank >= item.rank {
        assert(r.to_multiset() =~= list.to_multiset().insert(item));
        assert forall|i: int| 0 <= i < r.len() implies #[trigger] r[i] == item || list.contains(
            r[i],
        ) by {
            if i < list.len() {
                assert(list[i] == r[i]);
            }
        }
    } else {
        let rest = list.drop_last();
        lemma_insert_keeps_order(rest, item);
        let q = insert_ranked(rest, item);
        assert(r == q.push(list.last()));
        assert(list =~= rest.push(list.last()));
        assert(r.to_multiset() =~= list.to_multiset().insert(item));
        assert forall|i: int| 0 <= i < r.len() implies #[trigger] r[i] == item || list.contains(
            r[i],
        ) by {
            if i < q.len() {
                assert(r[i] == q[i]);
                if q[i] != item {
                    let k = choose|k: int| 0 <= k < rest.len() && rest[k] == q[i];
                    assert(list[k] == q[i]);
                }
            } else {
                assert(list[list.len() - 1] == r[i]);
            }
        }
        assert forall|i: int, j: int| 0 <= i < j < r.len() implies (#[trigger] r[i]).rank >= (
        #[trigger] r[j]).rank by {
            if j < q.len() {
                assert(q[i].rank >= q[j].rank);
            } else {
                assert(r[i] == q[i]);
                if q[i] != item {
                    let k = choose|k: int| 0 <= k < rest.len() && rest[k] == q[i];
                    assert(list[k].rank >= list[list.len() - 1].rank);
                }
            }
        }
    }
}

/// The roles on offer come from the highest place down.
pub proof fn law_roles_come_most_senior_first(roles: Seq<JsonV>, guild_id: Seq<char>, i: int, j: int)
    requires
        0 <= i < j < roles_ranked(roles, guild_id).len(),
    ensures
        roles_ranked(roles, guild_id)[i].rank >= roles_ranked(roles, guild_id)[j].rank,
{
    lemma_ranked_order(roles, guild_id);
}

proof fn lemma_ranked_order(roles: Seq<JsonV>, guild_id: Seq<char>)
    ensures
        forall|i: int, j: int|
            0 <= i < j < roles_ranked(roles, guild_id).len() ==> (#[trigger] roles_ranked(
                roles,
                guild_id,
            )[i]).rank >= (#[trigger] roles_ranked(roles, guild_id)[j]).rank,
        roles_ranked(roles, guild_id).to_multiset() == offered(roles, guild_id),
    decreases roles.len(),
{
    broadcast use vstd::seq_lib::group_to_multiset_ensures;

    if roles.len() > 0 {
        lemma_ranked_order(roles.drop_last(), guild_id);
        match given_role(roles.last(), guild_id) {
            Some(r) => {
                lemma_insert_keeps_order(roles_ranked(roles.drop_last(), guild_id), r);
            },
            None => {},
        }
    } else {
        assert(roles_ranked(roles, guild_id).to_multiset() =~= offered(roles, guild_id));
    }
}

/// Every role that can be given, as often as it is listed.
pub open spec fn offered(roles: Seq<JsonV>, guild_id: Seq<char>) -> vstd::multiset::Multiset<RankedV>
    decreases roles.len(),
{
    if roles.len() == 0 {
        vstd::multiset::Multiset::empty()
    } else {
        let before = offered(roles.drop_last(), guild_id);
        match given_role(roles.last(), guild_id) {
            Some(r) => before.insert(r),
            None => before,
        }
    }
}

/// Putting the roles in order neither loses nor doubles one.
pub proof fn law_every_role_is_offered_once(roles: Seq<JsonV>, guild_id: Seq<char>)
    ensures
        roles_ranked(roles, guild_id).to_multiset() == offered(roles, guild_id),
{
    lemma_ranked_order(roles, guild_id);
}

/// The moment so many minutes after another, both in seconds and nanoseconds since the epoch.
pub uninterp spec fn moment_after(seconds: i64, nanos: u32, minutes: i64) -> Option<(i64, u32)>;

/// `chrono::DateTime::checked_add_signed`: the moment `minutes` after the given one, in UTC; nothing
/// where `chrono` has no such moments or no such span. How leap seconds count is left to `chrono`.
#[verifier::external_body]
fn add_minutes(seconds: i64, nanos: u32, minutes: i64) -> (r: Option<(i64, u32)>)
    ensures
        r == moment_after(seconds, nanos, minutes),
{
    let start = chrono::DateTime::<chrono::Utc>::from_timestamp(seconds, nanos)?;
    let end = start.checked_add_signed(chrono::Duration::try_minutes(minutes)?)?;
    Some((end.timestamp(), end.timestamp_subsec_nanos()))
}

/// A moment as RFC 3339 writes it.
pub uninterp spec fn moment_text(seconds: i64, nanos: u32) -> Option<Seq<char>>;

/// `chrono::DateTime::to_rfc3339` of a moment in UTC; nothing where `chrono` has no such moment. What
/// it writes for which moment is left to `chrono`.
#[verifier::external_body]
fn write_moment(seconds: i64, nanos: u32) -> (r: Option<String>)
    ensures
        maybe(r) == moment_text(seconds, nanos),
{
    Some(chrono::DateTime::<chrono::Utc>::from_timestamp(seconds, nanos)?.to_rfc3339())
}

/// How long a timeout lasts where nothing is said, in minutes.
pub const TIMEOUT_MINUTES: i64 = 10;

/// When a timeout that starts at a moment ends, written out; nothing where it is past the end of the
/// calendar.
pub open spec fn timeout_end(seconds: i64, nanos: u32, minutes: Option<i64>) -> Option<Seq<char>> {
    let span = match minutes {
        Some(m) => m,
        None => TIMEOUT_MINUTES,
    };
    match moment_after(seconds, nanos, span) {
        Some(end) => moment_text(end.0, end.1),
        None => None,
    }
}

/// When a timeout that starts now ends: after so many minutes, ten where nothing is said.
pub fn timeout_until(now_seconds: i64, now_nanos: u32, minutes: Option<i64>) -> (r: Option<String>)
    ensures
        maybe(r) == timeout_end(now_seconds, now_nanos, minutes),
{
    let span: i64 = match minutes {
        Some(m) => m,
        None => TIMEOUT_MINUTES,
    };
    match add_minutes(now_seconds, now_nanos, span) {
        Some((seconds, nanos)) => write_moment(seconds, nanos),
        None => None,
    }
}

/// A request, with the words for what it does.
#[derive(Debug, PartialEq, Eq)]
pub struct Deed {
    pub request: Request,
    pub doing: String,
}

pub struct DeedV {
    pub request: RequestV,
    pub doing: Seq<char>,
}

impl View for Deed {
    type V = DeedV;

    open spec fn view(&self) -> DeedV {
        DeedV { request: self.request@, doing: self.doing@ }
    }
}

pub open spec fn deed_view(r: Result<Deed, String>) -> Result<DeedV, Seq<char>> {
    match r {
        Ok(v) => Ok(v@),
        Err(e) => Err(e@),
    }
}

/// What an action against a member is, before its reason is put on it; nothing for an action that
/// is not known.
pub open spec fn bare_deed(
    token: Seq<char>,
    guild_id: Seq<char>,
    user_id: Seq<char>,
    action: Seq<char>,
    until: Seq<char>,
) -> Option<DeedV> {
    let base = "/guilds/"@ + guild_id;
    let member = base + "/members/"@ + user_id;
    let ban = base + "/bans/"@ + user_id;
    if action == "kick"@ {
        Some(
            DeedV {
                request: asking(Method::Delete, member, token),
                doing: "removing them from the server"@,
            },
        )
    } else if action == "ban"@ {
        Some(
            DeedV {
                request: asking(Method::Put, ban, token).with_body(
                    nothing().put("delete_message_seconds"@, JsonV::Int(0)),
                ),
                doing: "banning them"@,
            },
        )
    } else if action == "unban"@ {
        Some(DeedV { request: asking(Method::Delete, ban, token), doing: "lifting the ban"@ })
    } else if action == "mute"@ || action == "timeout"@ {
        Some(
            DeedV {
                request: asking(Method::Patch, member, token).with_body(
                    nothing().put("communication_disabled_until"@, jstr(until)),
                ),
                doing: "putting them in timeout"@,
            },
        )
    } else if action == "unmute"@ {
        Some(
            DeedV {
                request: asking(Method::Patch, member, token).with_body(
                    nothing().put("communication_disabled_until"@, JsonV::Null),
                ),
                doing: "lifting the timeout"@,
            },
        )
    } else {
        None
    }
}

/// A request with its reason on it, where one was given.
pub open spec fn reasoned(request: RequestV, reason: Option<Seq<char>>) -> RequestV {
    match reason {
        Some(r) => if is_blank(r) {
            request
        } else {
            request.with_header("X-Audit-Log-Reason"@, r)
        },
        None => request,
    }
}

pub open spec fn moderation(
    token: Option<Seq<char>>,
    guild_id: Option<Seq<char>>,
    user_id: Seq<char>,
    action: Seq<char>,
    until: Seq<char>,
    reason: Option<Seq<char>>,
) -> Result<DeedV, Seq<char>> {
    match (token, guild_id) {
        (None, _) => Err(not_connected()),
        (_, None) => Err(no_server()),
        (Some(token), Some(guild_id)) => match bare_deed(token, guild_id, user_id, action, until) {
            Some(deed) => Ok(DeedV { request: reasoned(deed.request, reason), ..deed }),
            None => Err(
                "moho does not know how to "@ + action + " somebody on Discord"@,
            ),
        },
    }
}

fn three(a: &str, b: &str, c: &str) -> (r: String)
    ensures
        r@ == a@ + b@ + c@,
{
    let mut out = a.to_owned();
    out.append(b);
    out.append(c);
    out
}

/// Removes somebody from a server, bars them from it, puts them in timeout until a moment, or
/// takes one of these back.
pub fn moderate_member(
    token: Option<&str>,
    guild_id: Option<&str>,
    user_id: &str,
    action: &str,
    until: &str,
    reason: Option<&str>,
) -> (r: Result<Deed, String>)
    ensures
        deed_view(r) == moderation(
            maybe_str(token),
            maybe_str(guild_id),
            user_id@,
            action@,
            until@,
            maybe_str(reason),
        ),
{
    let token = match need_token(token) {
        Ok(t) => t,
        Err(e) => {
            return Err(e);
        },
    };
    let guild_id = match need_server(guild_id) {
        Ok(g) => g,
        Err(e) => {
            return Err(e);
        },
    };
    let base = "/guilds/".to_owned().concat(guild_id);
    let member = three(base.as_str(), "/members/", user_id);
    let ban = three(base.as_str(), "/bans/", user_id);
    let (request, doing) = if same(action, "kick") {
        (
            Request::new(Method::Delete, member.as_str(), token),
            "removing them from the server".to_owned(),
        )
    } else if same(action, "ban") {
        (
            Request::new(Method::Put, ban.as_str(), token).with_body(
                Json::object().put("delete_message_seconds", Json::Int(0)),
            ),
            "banning them".to_owned(),
        )
    } else if same(action, "unban") {
        (Request::new(Method::Delete, ban.as_str(), token), "lifting the ban".to_owned())
    } else if same(action, "mute") || same(action, "timeout") {
        (
            Request::new(Method::Patch, member.as_str(), token).with_body(
                Json::object().put("communication_disabled_until", Json::string(until)),
            ),
            "putting them in timeout".to_owned(),
        )
    } else if same(action, "unmute") {
        (
            Request::new(Method::Patch, member.as_str(), token).with_body(
                Json::object().put("communication_disabled_until", Json::Null),
            ),
            "lifting the timeout".to_owned(),
        )
    } else {
        return Err(three("moho does not know how to ", action, " somebody on Discord"));
    };
    let request = match reason {
        Some(words) => if blank(words) {
            request
        } else {
            request.with_header("X-Audit-Log-Reason", words)
        },
        None => request,
    };
    Ok(Deed { request, doing })
}

pub open spec fn role_deed(
    token: Option<Seq<char>>,
    guild_id: Option<Seq<char>>,
    user_id: Seq<char>,
    role_id: Seq<char>,
    give: bool,
) -> Result<DeedV, Seq<char>> {
    match (token, guild_id) {
        (None, _) => Err(not_connected()),
        (_, None) => Err(no_server()),
        (Some(token), Some(guild_id)) => {
            let path = "/guilds/"@ + guild_id + "/members/"@ + user_id + "/roles/"@ + role_id;
            if give {
                Ok(
                    DeedV {
                        request: asking(Method::Put, path, token).with_body(nothing()),
                        doing: "giving them the role"@,
                    },
                )
            } else {
                Ok(
                    DeedV {
                        request: asking(Method::Delete, path, token),
                        doing: "taking the role away"@,
                    },
                )
            }
        },
    }
}

/// Gives somebody a role, or takes it away.
pub fn set_member_role(
    token: Option<&str>,
    guild_id: Option<&str>,
    user_id: &str,
    role_id: &str,
    give: bool,
) -> (r: Result<Deed, String>)
    ensures
        deed_view(r) == role_deed(
            maybe_str(token),
            maybe_str(guild_id),
            user_id@,
            role_id@,
            give,
        ),
{
    let token = match need_token(token) {
        Ok(t) => t,
        Err(e) => {
            return Err(e);
        },
    };
    let guild_id = match need_server(guild_id) {
        Ok(g) => g,
        Err(e) => {
            return Err(e);
        },
    };
    let mut path = "/guilds/".to_owned();
    path.append(guild_id);
    path.append("/members/");
    path.append(user_id);
    path.append("/roles/");
    path.append(role_id);
    if give {
        Ok(
            Deed {
                request: Request::new(Method::Put, path.as_str(), token).with_body(Json::object()),
                doing: "giving them the role".to_owned(),
            },
        )
    } else {
        Ok(
            Deed {
                request: Request::new(Method::Delete, path.as_str(), token),
                doing: "taking the role away".to_owned(),
            },
        )
    }
}

pub open spec fn leave_request(token: Option<Seq<char>>, guild_id: Seq<char>) -> Result<
    RequestV,
    Seq<char>,
> {
    match token {
        Some(t) => Ok(
            asking(Method::Delete, "/users/@me/guilds/"@ + guild_id, t).with_body(
                nothing().put("lurking"@, JsonV::Bool(false)),
            ),
        ),
        None => Err(not_connected()),
    }
}

/// Leaves a server.
pub fn leave_guild(token: Option<&str>, guild_id: &str) -> (r: Result<Request, String>)
    ensures
        request_view(r) == leave_request(maybe_str(token), guild_id@),
{
    match need_token(token) {
        Ok(token) => {
            let path = "/users/@me/guilds/".to_owned().concat(guild_id);
            Ok(
                Request::new(Method::Delete, path.as_str(), token).with_body(
                    Json::object().put("lurking", Json::Bool(false)),
                ),
            )
        },
        Err(e) => Err(e),
    }
}

/// The requests whose answers together list the threads of a channel: what is live in the server,
/// where there is one, and what has gone quiet in the channel.
pub open spec fn thread_requests(
    token: Option<Seq<char>>,
    channel_id: Option<Seq<char>>,
    guild_id: Option<Seq<char>>,
) -> Result<Seq<RequestV>, Seq<char>> {
    match (token, channel_id) {
        (None, _) => Err(not_connected()),
        (_, None) => Err(no_channel()),
        (Some(t), Some(c)) => {
            let quiet = asking(
                Method::Get,
                "/channels/"@ + c + "/threads/archived/public?limit=25"@,
                t,
            );
            Ok(
                match guild_id {
                    Some(g) => seq![
                        asking(Method::Get, "/guilds/"@ + g + "/threads/active"@, t),
                        quiet,
                    ],
                    None => seq![quiet],
                },
            )
        },
    }
}

pub open spec fn requests_view(r: Result<Vec<Request>, String>) -> Result<
    Seq<RequestV>,
    Seq<char>,
> {
    match r {
        Ok(v) => Ok(views(v@)),
        Err(e) => Err(e@),
    }
}

/// Asks for the threads that a channel or forum holds.
pub fn list_threads(token: Option<&str>, channel_id: Option<&str>, guild_id: Option<&str>) -> (r:
    Result<Vec<Request>, String>)
    ensures
        requests_view(r) == thread_requests(
            maybe_str(token),
            maybe_str(channel_id),
            maybe_str(guild_id),
        ),
{
    let token = match need_token(token) {
        Ok(t) => t,
        Err(e) => {
            return Err(e);
        },
    };
    let channel_id = match need_channel(channel_id) {
        Ok(c) => c,
        Err(e) => {
            return Err(e);
        },
    };
    let mut out: Vec<Request> = Vec::new();
    match guild_id {
        Some(g) => {
            let path = three("/guilds/", g, "/threads/active");
            out.push(Request::new(Method::Get, path.as_str(), token));
        },
        None => {},
    }
    let path = three("/channels/", channel_id, "/threads/archived/public?limit=25");
    out.push(Request::new(Method::Get, path.as_str(), token));
    assert(views(out@) =~= thread_requests(
        Some(token@),
        Some(channel_id@),
        maybe_str(guild_id),
    )->Ok_0);
    Ok(out)
}

/// How a thread is listed.
pub open spec fn thread_row(thread: JsonV, id: Seq<char>) -> JsonV {
    nothing().put("id"@, jstr(id)).put(
        "name"@,
        jstr(text_or_v(thread.at("name"@), "thread"@)),
    ).put(
        "archived"@,
        JsonV::Bool(flag_or(thread.at("thread_metadata"@).at("archived"@), false)),
    ).put("messageCount"@, JsonV::Int(i64_or(thread.at("message_count"@), 0))).put(
        "lastMessageId"@,
        thread.at("last_message_id"@),
    ).put("thread"@, thread)
}

/// The threads listed so far, and whose they are.
pub struct Listing {
    pub rows: Seq<JsonV>,
    pub seen: Set<Seq<char>>,
}

/// One more thread: listed where it hangs under the channel and was not listed before.
pub open spec fn list_thread(channel_id: Seq<char>, thread: JsonV, before: Listing) -> Listing {
    match thread.at("id"@).text() {
        Some(id) => if thread.at("parent_id"@).text() == Some(channel_id) && !before.seen.contains(
            id,
        ) {
            Listing { rows: before.rows.push(thread_row(thread, id)), seen: before.seen.insert(id) }
        } else {
            before
        },
        None => before,
    }
}

pub open spec fn list_all(channel_id: Seq<char>, threads: Seq<JsonV>, before: Listing) -> Listing
    decreases threads.len(),
{
    if threads.len() == 0 {
        before
    } else {
        list_thread(channel_id, threads.last(), list_all(channel_id, threads.drop_last(), before))
    }
}

/// The threads of all the answers, in order.
pub open spec fn list_answers(channel_id: Seq<char>, answers: Seq<JsonV>) -> Listing
    decreases answers.len(),
{
    if answers.len() == 0 {
        Listing { rows: Seq::empty(), seen: Set::empty() }
    } else {
        list_all(
            channel_id,
            answers.last().at("threads"@).items(),
            list_answers(channel_id, answers.drop_last()),
        )
    }
}

fn row_of(thread: &Json, id: &str) -> (r: Json)
    ensures
        r@ == thread_row(thread@, id@),
{
    let archived = match thread.at("thread_metadata").at("archived").flag() {
        Some(b) => b,
        None => false,
    };
    let count: i64 = match thread.at("message_count").as_i64() {
        Some(n) => n,
        None => 0,
    };
    Json::object().put("id", Json::string(id)).put(
        "name",
        Json::string(text_or(thread.at("name"), "thread")),
    ).put("archived", Json::Bool(archived)).put("messageCount", Json::Int(count as i128)).put(
        "lastMessageId",
        thread.at("last_message_id").copy(),
    ).put("thread", thread.copy())
}

/// The list of threads that the answers make: those of the channel, each once.
pub fn threads_listed(channel_id: &str, answers: &Vec<Json>) -> (r: Json)
    ensures
        r@ == nothing().put(
            "threads"@,
            JsonV::List(list_answers(channel_id@, views(answers@)).rows),
        ),
{
    let ghost all = views(answers@);
    let mut rows: Vec<Json> = Vec::new();
    let mut seen: Vec<String> = Vec::new();
    let empty: Vec<Json> = Vec::new();
    let mut i: usize = 0;
    proof {
        assert(all.take(0) =~= Seq::empty());
        assert(views(rows@) =~= Seq::empty());
        assert(texts(seen@).to_set() =~= Set::empty());
    }
    while i < answers.len()
        invariant
            i <= answers.len(),
            empty@.len() == 0,
            all == views(answers@),
            texts(seen@).no_duplicates(),
            list_answers(channel_id@, all.take(i as int)) == (Listing {
                rows: views(rows@),
                seen: texts(seen@).to_set(),
            }),
        decreases answers.len() - i,
    {
        let threads = elements(answers[i].at("threads"), &empty);
        let ghost here = views(threads@);
        let ghost start = list_answers(channel_id@, all.take(i as int));
        proof {
            assert(all.take(i + 1).drop_last() =~= all.take(i as int));
            assert(all.take(i + 1).last() == answers@[i as int]@);
            assert(here.take(0) =~= Seq::empty());
        }
        let mut k: usize = 0;
        while k < threads.len()
            invariant
                k <= threads.len(),
                here == views(threads@),
                texts(seen@).no_duplicates(),
                list_all(channel_id@, here.take(k as int), start) == (Listing {
                    rows: views(rows@),
                    seen: texts(seen@).to_set(),
                }),
            decreases threads.len() - k,
        {
            let thread = &threads[k];
            proof {
                assert(here.take(k + 1).drop_last() =~= here.take(k as int));
                assert(here.take(k + 1).last() == thread@);
            }
            if is_str(thread.at("parent_id"), channel_id) {
                match thread.at("id").text() {
                    Some(id) => {
                        if !holds(&seen, id) {
                            let ghost before = rows@;
                            add_once(&mut seen, id);
                            let row = row_of(thread, id);
                            rows.push(row);
                            assert(views(rows@) =~= views(before).push(row@));
                        }
                    },
                    None => {},
                }
            }
            k += 1;
        }
        assert(here.take(k as int) =~= here);
        i += 1;
    }
    assert(all.take(i as int) =~= all);
    Json::object().put("threads", Json::list(rows))
}

/// The requests that opening a thread makes: joining it, then reading it.
pub open spec fn open_thread_requests(
    token: Option<Seq<char>>,
    guild_id: Option<Seq<char>>,
    thread_id: Seq<char>,
) -> Result<Seq<RequestV>, Seq<char>> {
    match (token, guild_id) {
        (None, _) => Err(not_connected()),
        (_, None) => Err(no_server()),
        (Some(t), Some(_)) => Ok(
            seq![
                asking(Method::Put, "/channels/"@ + thread_id + "/thread-members/@me"@, t),
                asking(Method::Get, "/channels/"@ + thread_id, t),
            ],
        ),
    }
}

/// Opens a thread: joins it, as far as it lets itself be joined, and reads it.
pub fn open_thread(token: Option<&str>, guild_id: Option<&str>, thread_id: &str) -> (r: Result<
    Vec<Request>,
    String,
>)
    ensures
        requests_view(r) == open_thread_requests(
            maybe_str(token),
            maybe_str(guild_id),
            thread_id@,
        ),
{
    let token = match need_token(token) {
        Ok(t) => t,
        Err(e) => {
            return Err(e);
        },
    };
    let guild_id = match need_server(guild_id) {
        Ok(g) => g,
        Err(e) => {
            return Err(e);
        },
    };
    let mut out: Vec<Request> = Vec::new();
    let join_path = three("/channels/", thread_id, "/thread-members/@me");
    out.push(Request::new(Method::Put, join_path.as_str(), token));
    let path = "/channels/".to_owned().concat(thread_id);
    out.push(Request::new(Method::Get, path.as_str(), token));
    assert(views(out@) =~= open_thread_requests(Some(token@), Some(guild_id@), thread_id@)->Ok_0);
    Ok(out)
}

/// The name of the server in a conversation's name: what stands before the first slash.
pub open spec fn guild_in_name(buffer: Option<Seq<char>>) -> Seq<char> {
    match buffer {
        Some(name) => split_on(name, '/')[0],
        None => "guild"@,
    }
}

/// The name of the channel in a conversation's name: what stands after its first number sign.
pub open spec fn channel_in_name(buffer: Option<Seq<char>>) -> Seq<char> {
    match buffer {
        Some(name) => if split_on(name, '#').len() > 1 {
            split_on(name, '#')[1]
        } else {
            "threads"@
        },
        None => "threads"@,
    }
}

/// A thread that was opened by hand: the conversation to open, where there is one, and its name.
#[derive(Debug, PartialEq, Eq)]
pub struct OpenedThread {
    pub conversation: Option<NewChannel>,
    pub name: String,
}

pub open spec fn maybe_channel(c: Option<NewChannel>) -> Option<NewChannelV> {
    match c {
        Some(c) => Some(c@),
        None => None,
    }
}

/// Files a thread that was opened by hand under the conversation it was opened from.
pub fn thread_opened(buffer_name: Option<&str>, parent_id: &str, thread: &Json) -> (r: OpenedThread)
    ensures
        r.name@ == channel_title(
            guild_in_name(maybe_str(buffer_name)),
            text_or_v(thread@.at("name"@), "thread"@),
        ),
        maybe_channel(r.conversation) == thread_to_open(
            guild_in_name(maybe_str(buffer_name)),
            Map::empty().insert(
                parent_id@,
                ParentV { name: channel_in_name(maybe_str(buffer_name)), sort: 0 },
            ),
            thread@,
            Map::empty(),
        ),
{
    let guild_name: String = match buffer_name {
        Some(name) => {
            let parts = split(name, '/');
            assert(texts(parts@)[0] == parts@[0]@);
            parts[0].clone()
        },
        None => "guild".to_owned(),
    };
    let parent_name: String = match buffer_name {
        Some(name) => {
            let parts = split(name, '#');
            assert(texts(parts@).len() == parts@.len());
            if parts.len() > 1 {
                assert(texts(parts@)[1] == parts@[1]@);
                parts[1].clone()
            } else {
                "threads".to_owned()
            }
        },
        None => "threads".to_owned(),
    };
    let mut parents: TextMap<Parent> = TextMap::new();
    let parent = Parent { name: parent_name, sort: 0 };
    parents.insert(parent_id, parent);
    let mut known: TextMap<Known> = TextMap::new();
    proof {
        lemma_map_views_insert(Map::<Seq<char>, Parent>::empty(), parent_id@, parent);
        assert(map_views(Map::<Seq<char>, Parent>::empty()) =~= Map::empty());
        assert(map_views(known@) =~= Map::empty());
    }
    let conversation = register_thread(guild_name.as_str(), &parents, thread, &mut known);
    let mut name = guild_name.clone();
    name.append("/#");
    name.append(text_or(thread.at("name"), "thread"));
    OpenedThread { conversation, name }
}

proof fn lemma_without_end_slashes(s: Seq<char>, n: nat)
    requires
        s.len() > 0 ==> s.last() != '/',
    ensures
        without_end_slashes(s + Seq::new(n, |i: int| '/')) == s,
    decreases n,
{
    let all = s + Seq::new(n, |i: int| '/');
    if n > 0 {
        assert(all.last() == '/');
        assert(all.drop_last() =~= s + Seq::new((n - 1) as nat, |i: int| '/'));
        lemma_without_end_slashes(s, (n - 1) as nat);
    } else {
        assert(all =~= s);
    }
}

proof fn lemma_last_part(front: Seq<char>, tail: Seq<char>, c: char)
    requires
        !tail.contains(c),
    ensures
        split_on(front.push(c) + tail, c).last() == tail,
        split_on(tail, c).last() == tail,
    decreases tail.len(),
{
    let all = front.push(c) + tail;
    if tail.len() == 0 {
        assert(all =~= front.push(c));
        assert(all.last() == c);
        assert(split_on(all, c).last() =~= tail);
        assert(split_on(tail, c).last() =~= tail);
    } else {
        let rest = tail.drop_last();
        assert(tail.contains(tail.last()));
        assert(!rest.contains(c)) by {
            assert forall|i: int| 0 <= i < rest.len() implies rest[i] != c by {
                assert(tail.contains(tail[i]));
            }
        }
        lemma_last_part(front, rest, c);
        assert(all.drop_last() =~= front.push(c) + rest);
        assert(all.last() == tail.last());
        assert(rest.push(tail.last()) =~= tail);
    }
}

/// The code of an invite is what follows the last slash of its address, or the whole of it where it has
/// none; white space around it and slashes at its end do not count.
pub proof fn law_an_invite_is_read_by_its_code(
    invite: Seq<char>,
    front: Seq<char>,
    code: Seq<char>,
    slashes: nat,
)
    requires
        !code.contains('/'),
        code.len() > 0,
    ensures
        trimmed(invite) == front.push('/') + code + Seq::new(slashes, |i: int| '/')
            ==> invite_code(invite) == code,
        trimmed(invite) == code + Seq::new(slashes, |i: int| '/') ==> invite_code(invite) == code,
{
    assert(code.contains(code.last()));
    lemma_without_end_slashes(front.push('/') + code, slashes);
    lemma_without_end_slashes(code, slashes);
    lemma_last_part(front, code, '/');
}

/// An invite is accepted by its code, by a post with the token and, where there is one, the answer to a
/// captcha.
pub proof fn law_an_invite_is_accepted_by_its_code(
    token: Option<Seq<char>>,
    invite: Seq<char>,
    captcha: Option<CaptchaAnswerV>,
)
    ensures
        ({
            let r = join_request(token, invite, captcha);
            &&& r is Ok <==> token is Some
            &&& r is Err ==> r == Err::<RequestV, Seq<char>>(not_connected())
            &&& r is Ok ==> {
                &&& r->Ok_0.method == Method::Post
                &&& r->Ok_0.url == "https://discord.com/api/v10"@ + ("/invites/"@ + invite_code(
                    invite,
                ))
                &&& r->Ok_0.headers[0].value == token->0
                &&& r->Ok_0.body is Some
                &&& captcha is None ==> r->Ok_0.headers.len() == 1
                &&& captcha is Some ==> r->Ok_0.headers.len() >= 2 && r->Ok_0.headers[1].value
                    == captcha->0.key
            }
        }),
{
}

/// An invite is asked for where there is a token and a channel, to that channel, for as long, for as
/// many and for as lasting a stay as was said.
pub proof fn law_an_invite_is_asked_for_as_said(
    token: Option<Seq<char>>,
    channel_id: Option<Seq<char>>,
    max_age: i64,
    max_uses: i64,
    temporary: bool,
    captcha: Option<CaptchaAnswerV>,
)
    ensures
        ({
            let r = invite_request(token, channel_id, max_age, max_uses, temporary, captcha);
            &&& r is Ok <==> token is Some && channel_id is Some
            &&& token is None ==> r == Err::<RequestV, Seq<char>>(not_connected())
            &&& token is Some && channel_id is None ==> r == Err::<RequestV, Seq<char>>(no_channel())
            &&& r is Ok ==> {
                &&& r->Ok_0.method == Method::Post
                &&& r->Ok_0.url == "https://discord.com/api/v10"@ + ("/channels/"@ + channel_id->0
                    + "/invites"@)
                &&& r->Ok_0.headers[0].value == token->0
                &&& r->Ok_0.body->0.at("max_age"@) == JsonV::Int(max_age as int)
                &&& r->Ok_0.body->0.at("max_uses"@) == JsonV::Int(max_uses as int)
                &&& r->Ok_0.body->0.at("temporary"@) == JsonV::Bool(temporary)
            }
        }),
{
    broadcast use law_put_then_read;

    reveal_strlit("max_age");
    reveal_strlit("max_uses");
    reveal_strlit("temporary");
    assert("max_age"@.len() == 7);
    assert("max_uses"@.len() == 8);
    assert("temporary"@.len() == 9);
}

/// An invite that was made is told as the address of its code; one without a code is a failure, and
/// anything but success is told as for any write.
pub proof fn law_an_invite_is_told_as_an_address(status: u16, reply: JsonV, text: Seq<char>)
    ensures
        ({
            let r = invite_outcome(status, reply, text);
            let made = 200 <= status < 300;
            &&& made && reply.at("code"@) is Str ==> r is Ok && r->Ok_0.at("invite"@) == JsonV::Str(
                "https://discord.gg/"@ + reply.at("code"@)->Str_0,
            )
            &&& made && !(reply.at("code"@) is Str) ==> r is Err
            &&& !made ==> r == answer_outcome(status, reply, text, "making an invite"@)
        }),
{
    broadcast use law_put_then_read;

}

/// A server is made under the name that was given, without the white space around it.
pub proof fn law_a_server_is_made_under_its_name(token: Option<Seq<char>>, name: Seq<char>)
    ensures
        ({
            let r = new_guild_request(token, name);
            &&& r is Ok <==> token is Some
            &&& r is Ok ==> {
                &&& r->Ok_0.method == Method::Post
                &&& r->Ok_0.url == "https://discord.com/api/v10"@ + "/guilds"@
                &&& r->Ok_0.headers.len() == 1 && r->Ok_0.headers[0].value == token->0
                &&& r->Ok_0.body->0.at("name"@) == JsonV::Str(trimmed(name))
            }
        }),
{
    broadcast use law_put_then_read;

}

/// The rules of a server are asked for of that server; what comes back is the rules as they are, where
/// it came with success and could be read.
pub proof fn law_rules_are_read_as_they_are(
    token: Option<Seq<char>>,
    guild_id: Seq<char>,
    status: u16,
    parsed: Option<JsonV>,
    text: Seq<char>,
)
    ensures
        ({
            let q = rules_request(token, guild_id);
            &&& q is Ok <==> token is Some
            &&& q is Ok ==> q->Ok_0.method == Method::Get && q->Ok_0.url
                == "https://discord.com/api/v10"@ + ("/guilds/"@ + guild_id
                + "/member-verification"@) && q->Ok_0.headers.len() == 1
                && q->Ok_0.headers[0].value == token->0
        }),
        ({
            let r = rules_outcome(status, parsed, text);
            &&& r is Ok <==> 200 <= status < 300 && parsed is Some
            &&& r is Ok ==> r->Ok_0 == parsed->0
        }),
{
}

/// Rules are agreed to in the version they came in, and every field goes back as it came but for its
/// response, which is yes.
pub proof fn law_every_rule_is_agreed_to(
    token: Option<Seq<char>>,
    guild_id: Seq<char>,
    form: JsonV,
    key: Seq<char>,
    i: int,
)
    requires
        is_answerable(form),
    ensures
        ({
            let r = agree_request(token, guild_id, form);
            let fields = form.at("form_fields"@).items();
            &&& r is Ok <==> token is Some
            &&& r is Ok ==> {
                let sent = r->Ok_0.body->0.at("form_fields"@).items();
                &&& r->Ok_0.method == Method::Put
                &&& r->Ok_0.url == "https://discord.com/api/v10"@ + ("/guilds/"@ + guild_id
                    + "/requests/@me"@)
                &&& r->Ok_0.headers.len() == 1 && r->Ok_0.headers[0].value == token->0
                &&& r->Ok_0.body->0.at("version"@) == form.at("version"@)
                &&& sent.len() == fields.len()
                &&& 0 <= i < fields.len() ==> sent[i].at("response"@) == JsonV::Bool(true)
                &&& 0 <= i < fields.len() && key != "response"@ ==> sent[i].get(key)
                    == fields[i].get(key)
            }
        }),
{
    broadcast use law_put_then_read;

    reveal_strlit("version");
    reveal_strlit("form_fields");
    assert("version"@.len() == 7);
    assert("form_fields"@.len() == 11);
    let fields = form.at("form_fields"@).items();
    if 0 <= i < fields.len() {
        assert(fields[i] is Object || fields[i] is Null);
        crate::json::law_set_then_read(fields[i], "response"@, JsonV::Bool(true), key);
    }
}

proof fn lemma_power_bits()
    ensures
        forall|n: u64| (#[trigger] (n & PERM_ADMINISTRATOR) != 0) == ((n as int / 8) % 2 == 1),
        forall|n: u64| (#[trigger] (n & PERM_KICK_MEMBERS) != 0) == ((n as int / 2) % 2 == 1),
        forall|n: u64| (#[trigger] (n & PERM_BAN_MEMBERS) != 0) == ((n as int / 4) % 2 == 1),
        forall|n: u64|
            (#[trigger] (n & PERM_MODERATE_MEMBERS) != 0) == ((n as int / 1099511627776) % 2 == 1),
        forall|n: u64|
            (#[trigger] (n & PERM_MANAGE_ROLES) != 0) == ((n as int / 268435456) % 2 == 1),
        0u64 & PERM_ADMINISTRATOR == 0,
        0u64 & PERM_KICK_MEMBERS == 0,
        0u64 & PERM_BAN_MEMBERS == 0,
        0u64 & PERM_MODERATE_MEMBERS == 0,
        0u64 & PERM_MANAGE_ROLES == 0,
{
    assert(1u64 << 3 == 8 && 1u64 << 1 == 2 && 1u64 << 2 == 4 && 1u64 << 40 == 1099511627776
        && 1u64 << 28 == 268435456) by (bit_vector);
    assert forall|n: u64|
        ((#[trigger] (n & PERM_ADMINISTRATOR) != 0) == ((n as int / 8) % 2 == 1)) by {
        assert((n & 8 != 0) == ((n / 8) % 2 == 1)) by (bit_vector);
    }
    assert forall|n: u64|
        ((#[trigger] (n & PERM_KICK_MEMBERS) != 0) == ((n as int / 2) % 2 == 1)) by {
        assert((n & 2 != 0) == ((n / 2) % 2 == 1)) by (bit_vector);
    }
    assert forall|n: u64|
        ((#[trigger] (n & PERM_BAN_MEMBERS) != 0) == ((n as int / 4) % 2 == 1)) by {
        assert((n & 4 != 0) == ((n / 4) % 2 == 1)) by (bit_vector);
    }
    assert forall|n: u64|
        ((#[trigger] (n & PERM_MODERATE_MEMBERS) != 0) == ((n as int / 1099511627776) % 2 == 1)) by {
        assert((n & 1099511627776 != 0) == ((n / 1099511627776) % 2 == 1)) by (bit_vector);
    }
    assert forall|n: u64|
        ((#[trigger] (n & PERM_MANAGE_ROLES) != 0) == ((n as int / 268435456) % 2 == 1)) by {
        assert((n & 268435456 != 0) == ((n / 268435456) % 2 == 1)) by (bit_vector);
    }
    assert(0u64 & 8 == 0 && 0u64 & 2 == 0 && 0u64 & 4 == 0 && 0u64 & 1099511627776 == 0 && 0u64
        & 268435456 == 0) by (bit_vector);
}

/// This account may do to others what one of its roles, or everybody's, lets it: everything where one
/// of them is an administrator's or where the server is its own, and nothing where it is in no server.
pub proof fn law_powers_come_from_roles(
    guild_id: Seq<char>,
    user_id: Seq<char>,
    owner: Option<Seq<char>>,
    roles: Seq<JsonV>,
    member: Option<JsonV>,
)
    ensures
        ({
            let r = powers(Some(guild_id), Some(user_id), owner, roles, member);
            let mine = roles_of(member);
            let all = owner == Some(user_id) || some_role_spells(roles, guild_id, mine, 8);
            &&& r.at("canKick"@) == JsonV::Bool(
                all || some_role_spells(roles, guild_id, mine, 2),
            )
            &&& r.at("canBan"@) == JsonV::Bool(all || some_role_spells(roles, guild_id, mine, 4))
            &&& r.at("canMute"@) == JsonV::Bool(
                all || some_role_spells(roles, guild_id, mine, 1099511627776),
            )
            &&& r.at("canAssignRoles"@) == JsonV::Bool(
                all || some_role_spells(roles, guild_id, mine, 268435456),
            )
        }),
{
    broadcast use law_put_then_read;

    reveal_strlit("canKick");
    reveal_strlit("canBan");
    reveal_strlit("canMute");
    reveal_strlit("canAssignRoles");
    assert("canKick"@.len() == 7);
    assert("canBan"@.len() == 6);
    assert("canMute"@.len() == 7);
    assert("canAssignRoles"@.len() == 14);
    assert("canKick"@[3] == 'K');
    assert("canMute"@[3] == 'M');
    let mine = roles_of(member);
    lemma_power_bits();
    lemma_base_spells(roles, guild_id, mine, PERM_ADMINISTRATOR, 8);
    lemma_base_spells(roles, guild_id, mine, PERM_KICK_MEMBERS, 2);
    lemma_base_spells(roles, guild_id, mine, PERM_BAN_MEMBERS, 4);
    lemma_base_spells(roles, guild_id, mine, PERM_MODERATE_MEMBERS, 1099511627776);
    lemma_base_spells(roles, guild_id, mine, PERM_MANAGE_ROLES, 268435456);
}

/// Outside a server, and for nobody, there are no powers.
pub proof fn law_there_are_no_powers_outside_a_server(
    guild_id: Option<Seq<char>>,
    user_id: Option<Seq<char>>,
    owner: Option<Seq<char>>,
    roles: Seq<JsonV>,
    member: Option<JsonV>,
)
    requires
        guild_id is None || user_id is None,
    ensures
        ({
            let r = powers(guild_id, user_id, owner, roles, member);
            &&& r.at("canKick"@) == JsonV::Bool(false)
            &&& r.at("canBan"@) == JsonV::Bool(false)
            &&& r.at("canMute"@) == JsonV::Bool(false)
            &&& r.at("canAssignRoles"@) == JsonV::Bool(false)
        }),
{
    broadcast use law_put_then_read;

    reveal_strlit("canKick");
    reveal_strlit("canBan");
    reveal_strlit("canMute");
    reveal_strlit("canAssignRoles");
    assert("canKick"@.len() == 7);
    assert("canBan"@.len() == 6);
    assert("canMute"@.len() == 7);
    assert("canAssignRoles"@.len() == 14);
    assert("canKick"@[3] == 'K');
    assert("canMute"@[3] == 'M');
}

/// A role can be given unless it is everybody's or something else manages it; it is shown by its id and
/// its name, ranked by its place, and coloured where it has a colour of its own.
pub proof fn law_a_role_is_shown_as_it_is(role: JsonV, guild_id: Seq<char>)
    ensures
        ({
            let r = given_role(role, guild_id);
            let colour = role.at("color"@).as_i64();
            &&& r is Some <==> role.at("id"@) != JsonV::Str(guild_id) && role.at("managed"@)
                != JsonV::Bool(true)
            &&& r is Some ==> {
                &&& r->0.value.at("id"@) == JsonV::Str(role.at("id"@).text_or_empty())
                &&& role.at("name"@) is Str ==> r->0.value.at("name"@) == role.at("name"@)
                &&& !(role.at("name"@) is Str) ==> r->0.value.at("name"@) == JsonV::Str("role"@)
                &&& colour is Some && colour->0 > 0 ==> r->0.value.at("colour"@) == JsonV::Str(
                    "#"@ + zero_padded(hex_text(colour->0 as nat), 6),
                )
                &&& colour is None || colour->0 <= 0 ==> r->0.value.at("colour"@) is Null
                &&& role.at("position"@).as_i64() is Some ==> role.at("position"@) == JsonV::Int(
                    r->0.rank,
                )
                &&& role.at("position"@).as_i64() is None ==> r->0.rank == 0
            }
        }),
{
    broadcast use law_put_then_read;

    reveal_strlit("id");
    reveal_strlit("name");
    reveal_strlit("colour");
    assert("id"@.len() == 2);
    assert("name"@.len() == 4);
    assert("colour"@.len() == 6);
}

/// Each action against a member goes to where it belongs: removing and timeouts to the member, bans to
/// the bans of the server. What is taken back goes where it was put.
pub proof fn law_each_action_goes_where_it_belongs(
    token: Seq<char>,
    guild_id: Seq<char>,
    user_id: Seq<char>,
    until: Seq<char>,
)
    ensures
        ({
            let member = "https://discord.com/api/v10"@ + ("/guilds/"@ + guild_id + "/members/"@
                + user_id);
            let bans = "https://discord.com/api/v10"@ + ("/guilds/"@ + guild_id + "/bans/"@
                + user_id);
            let kick = bare_deed(token, guild_id, user_id, "kick"@, until);
            let ban = bare_deed(token, guild_id, user_id, "ban"@, until);
            let unban = bare_deed(token, guild_id, user_id, "unban"@, until);
            let mute = bare_deed(token, guild_id, user_id, "mute"@, until);
            let timeout = bare_deed(token, guild_id, user_id, "timeout"@, until);
            let unmute = bare_deed(token, guild_id, user_id, "unmute"@, until);
            let silenced = "communication_disabled_until"@;
            &&& kick is Some && kick->0.request.method == Method::Delete && kick->0.request.url
                == member && kick->0.request.body is None
            &&& ban is Some && ban->0.request.method == Method::Put && ban->0.request.url == bans
            &&& ban->0.request.body->0.at("delete_message_seconds"@) == JsonV::Int(0)
            &&& unban is Some && unban->0.request.method == Method::Delete && unban->0.request.url
                == bans && unban->0.request.body is None
            &&& mute is Some && mute->0.request.method == Method::Patch && mute->0.request.url
                == member
            &&& mute->0.request.body->0.at(silenced) == JsonV::Str(until)
            &&& timeout == mute
            &&& unmute is Some && unmute->0.request.method == Method::Patch && unmute->0.request.url
                == member
            &&& unmute->0.request.body->0.get(silenced) == Some(JsonV::Null)
            &&& kick->0.doing == "removing them from the server"@
            &&& ban->0.doing == "banning them"@
            &&& unban->0.doing == "lifting the ban"@
            &&& mute->0.doing == "putting them in timeout"@
            &&& unmute->0.doing == "lifting the timeout"@
        }),
{
    broadcast use law_put_then_read;

    reveal_strlit("kick");
    reveal_strlit("ban");
    reveal_strlit("unban");
    reveal_strlit("mute");
    reveal_strlit("timeout");
    reveal_strlit("unmute");
    assert("kick"@.len() == 4);
    assert("ban"@.len() == 3);
    assert("unban"@.len() == 5);
    assert("mute"@.len() == 4);
    assert("timeout"@.len() == 7);
    assert("unmute"@.len() == 6);
    assert("kick"@[0] == 'k');
    assert("mute"@[0] == 'm');
}

/// An action is taken by an account with a token, in a server, and only where it is one of those known;
/// it is taken with the token, and with the reason that was given where it says anything.
pub proof fn law_only_known_actions_are_taken(
    token: Option<Seq<char>>,
    guild_id: Option<Seq<char>>,
    user_id: Seq<char>,
    action: Seq<char>,
    until: Seq<char>,
    reason: Option<Seq<char>>,
)
    ensures
        ({
            let r = moderation(token, guild_id, user_id, action, until, reason);
            let known = action == "kick"@ || action == "ban"@ || action == "unban"@ || action
                == "mute"@ || action == "timeout"@ || action == "unmute"@;
            &&& r is Ok <==> token is Some && guild_id is Some && known
            &&& token is None ==> r == Err::<DeedV, Seq<char>>(not_connected())
            &&& token is Some && guild_id is None ==> r == Err::<DeedV, Seq<char>>(no_server())
            &&& token is Some && guild_id is Some && !known ==> r == Err::<DeedV, Seq<char>>(
                "moho does not know how to "@ + action + " somebody on Discord"@,
            )
            &&& r is Ok ==> {
                let bare = bare_deed(token->0, guild_id->0, user_id, action, until)->0;
                let q = r->Ok_0.request;
                let says = reason is Some && !is_blank(reason->0);
                &&& r->Ok_0.doing == bare.doing
                &&& q.method == bare.request.method && q.url == bare.request.url && q.body
                    == bare.request.body
                &&& q.headers[0].value == token->0
                &&& says ==> q.headers.len() == 2 && q.headers[1].name == "X-Audit-Log-Reason"@
                    && q.headers[1].value == reason->0
                &&& !says ==> q.headers.len() == 1
            }
        }),
{
}

/// A role is given and taken away at one and the same address: that of the role among the member's.
pub proof fn law_a_role_is_taken_away_where_it_was_given(
    token: Option<Seq<char>>,
    guild_id: Option<Seq<char>>,
    user_id: Seq<char>,
    role_id: Seq<char>,
)
    ensures
        ({
            let give = role_deed(token, guild_id, user_id, role_id, true);
            let take = role_deed(token, guild_id, user_id, role_id, false);
            &&& give is Ok <==> token is Some && guild_id is Some
            &&& take is Ok <==> give is Ok
            &&& token is None ==> give == Err::<DeedV, Seq<char>>(not_connected())
            &&& token is Some && guild_id is None ==> give == Err::<DeedV, Seq<char>>(no_server())
            &&& give is Ok ==> {
                let url = "https://discord.com/api/v10"@ + ("/guilds/"@ + guild_id->0 + "/members/"@
                    + user_id + "/roles/"@ + role_id);
                &&& give->Ok_0.request.method == Method::Put
                &&& take->Ok_0.request.method == Method::Delete
                &&& give->Ok_0.request.url == url && take->Ok_0.request.url == url
                &&& give->Ok_0.request.headers[0].value == token->0
                &&& take->Ok_0.request.headers[0].value == token->0
                &&& give->Ok_0.doing == "giving them the role"@
                &&& take->Ok_0.doing == "taking the role away"@
            }
        }),
{
}

/// A server is left by its id.
pub proof fn law_a_server_is_left_by_its_id(token: Option<Seq<char>>, guild_id: Seq<char>)
    ensures
        ({
            let r = leave_request(token, guild_id);
            &&& r is Ok <==> token is Some
            &&& r is Ok ==> {
                &&& r->Ok_0.method == Method::Delete
                &&& r->Ok_0.url == "https://discord.com/api/v10"@ + ("/users/@me/guilds/"@
                    + guild_id)
                &&& r->Ok_0.headers.len() == 1 && r->Ok_0.headers[0].value == token->0
                &&& r->Ok_0.body->0.at("lurking"@) == JsonV::Bool(false)
            }
        }),
{
    broadcast use law_put_then_read;

}

/// A timeout lasts as many minutes as was said, and ten where nothing was, from the moment it starts.
pub proof fn law_a_timeout_lasts_as_long_as_said(seconds: i64, nanos: u32, minutes: i64)
    ensures
        timeout_end(seconds, nanos, None) == timeout_end(seconds, nanos, Some(10i64)),
        moment_after(seconds, nanos, minutes) matches Some(end) ==> timeout_end(
            seconds,
            nanos,
            Some(minutes),
        ) == moment_text(end.0, end.1),
        moment_after(seconds, nanos, minutes) is None ==> timeout_end(
            seconds,
            nanos,
            Some(minutes),
        ) is None,
{
}

/// The threads of a channel are asked for of its server, where it is in one, and of the channel itself.
pub proof fn law_threads_are_asked_for(
    token: Option<Seq<char>>,
    channel_id: Option<Seq<char>>,
    guild_id: Option<Seq<char>>,
)
    ensures
        ({
            let r = thread_requests(token, channel_id, guild_id);
            &&& r is Ok <==> token is Some && channel_id is Some
            &&& token is None ==> r == Err::<Seq<RequestV>, Seq<char>>(not_connected())
            &&& token is Some && channel_id is None ==> r == Err::<Seq<RequestV>, Seq<char>>(
                no_channel(),
            )
            &&& r is Ok ==> {
                let asked = r->Ok_0;
                &&& asked.len() == (if guild_id is Some {
                    2int
                } else {
                    1
                })
                &&& asked.last().method == Method::Get
                &&& asked.last().url == "https://discord.com/api/v10"@ + ("/channels/"@
                    + channel_id->0 + "/threads/archived/public?limit=25"@)
                &&& guild_id is Some ==> asked[0].method == Method::Get && asked[0].url
                    == "https://discord.com/api/v10"@ + ("/guilds/"@ + guild_id->0
                    + "/threads/active"@)
                &&& forall|i: int|
                    0 <= i < asked.len() ==> (#[trigger] asked[i]).headers.len() == 1
                        && asked[i].headers[0].value == token->0
            }
        }),
{
}

/// A thread is listed by its id and name, as archived where it is said to be, with its count of
/// messages, its last one and itself.
pub proof fn law_a_thread_is_listed_as_it_is(thread: JsonV, id: Seq<char>)
    ensures
        ({
            let r = thread_row(thread, id);
            let count = thread.at("message_count"@).as_i64();
            &&& r.at("id"@) == JsonV::Str(id)
            &&& thread.at("name"@) is Str ==> r.at("name"@) == thread.at("name"@)
            &&& !(thread.at("name"@) is Str) ==> r.at("name"@) == JsonV::Str("thread"@)
            &&& r.at("archived"@) == JsonV::Bool(
                thread.at("thread_metadata"@).at("archived"@) == JsonV::Bool(true),
            )
            &&& count is Some ==> r.at("messageCount"@) == JsonV::Int(count->0)
            &&& count is None ==> r.at("messageCount"@) == JsonV::Int(0)
            &&& r.at("lastMessageId"@) == thread.at("last_message_id"@)
            &&& r.at("thread"@) == thread
        }),
{
    broadcast use law_put_then_read;

    reveal_strlit("id");
    reveal_strlit("name");
    reveal_strlit("archived");
    reveal_strlit("messageCount");
    reveal_strlit("lastMessageId");
    reveal_strlit("thread");
    assert("id"@.len() == 2);
    assert("name"@.len() == 4);
    assert("archived"@.len() == 8);
    assert("messageCount"@.len() == 12);
    assert("lastMessageId"@.len() == 13);
    assert("thread"@.len() == 6);
}

/// A thread is added to the list where it has an id, hangs under the channel and is not listed yet; its
/// row comes last, and it is then listed. No other thread changes the list.
pub proof fn law_a_thread_of_the_channel_is_listed_once(
    channel_id: Seq<char>,
    thread: JsonV,
    before: Listing,
)
    ensures
        ({
            let after = list_thread(channel_id, thread, before);
            let id = thread.at("id"@);
            let new = id is Str && thread.at("parent_id"@) == JsonV::Str(channel_id)
                && !before.seen.contains(id->Str_0);
            &&& !new ==> after == before
            &&& new ==> {
                &&& after.rows.len() == before.rows.len() + 1
                &&& after.rows.drop_last() == before.rows
                &&& after.rows.last().at("id"@) == id
                &&& after.rows.last().at("thread"@) == thread
                &&& after.seen == before.seen.insert(id->Str_0)
                &&& list_thread(channel_id, thread, after) == after
            }
        }),
{
    let id = thread.at("id"@);
    if id is Str {
        law_a_thread_is_listed_as_it_is(thread, id->Str_0);
        let row = thread_row(thread, id->Str_0);
        assert(before.rows.push(row).drop_last() =~= before.rows);
    }
}

/// Answers are gone through in turn, and the threads of each in theirs.
pub proof fn law_answers_are_gone_through_in_turn(
    channel_id: Seq<char>,
    threads: Seq<JsonV>,
    thread: JsonV,
    before: Listing,
    answers: Seq<JsonV>,
    answer: JsonV,
)
    ensures
        list_all(channel_id, Seq::empty(), before) == before,
        list_all(channel_id, threads.push(thread), before) == list_thread(
            channel_id,
            thread,
            list_all(channel_id, threads, before),
        ),
        list_answers(channel_id, Seq::empty()).rows.len() == 0,
        list_answers(channel_id, Seq::empty()).seen == Set::<Seq<char>>::empty(),
        list_answers(channel_id, answers.push(answer)) == list_all(
            channel_id,
            answer.at("threads"@).items(),
            list_answers(channel_id, answers),
        ),
{
    assert(threads.push(thread).drop_last() =~= threads);
    assert(answers.push(answer).drop_last() =~= answers);
}

/// A thread is opened by joining it and then reading it.
pub proof fn law_a_thread_is_joined_and_then_read(
    token: Option<Seq<char>>,
    guild_id: Option<Seq<char>>,
    thread_id: Seq<char>,
)
    ensures
        ({
            let r = open_thread_requests(token, guild_id, thread_id);
            &&& r is Ok <==> token is Some && guild_id is Some
            &&& token is None ==> r == Err::<Seq<RequestV>, Seq<char>>(not_connected())
            &&& token is Some && guild_id is None ==> r == Err::<Seq<RequestV>, Seq<char>>(
                no_server(),
            )
            &&& r is Ok ==> {
                let asked = r->Ok_0;
                &&& asked.len() == 2
                &&& asked[0].method == Method::Put
                &&& asked[0].url == "https://discord.com/api/v10"@ + ("/channels/"@ + thread_id
                    + "/thread-members/@me"@)
                &&& asked[1].method == Method::Get
                &&& asked[1].url == "https://discord.com/api/v10"@ + ("/channels/"@ + thread_id)
                &&& asked[0].headers.len() == 1 && asked[0].headers[0].value == token->0
                &&& asked[1].headers.len() == 1 && asked[1].headers[0].value == token->0
            }
        }),
{
}

proof fn lemma_first_parts(front: Seq<char>, rest: Seq<char>, c: char)
    requires
        !front.contains(c),
    ensures
        split_on(front.push(c) + rest, c)[0] == front,
        split_on(front.push(c) + rest, c).len() > 1,
        split_on(front, c) == seq![front],
    decreases front.len() + rest.len(),
{
    let all = front.push(c) + rest;
    if rest.len() > 0 {
        lemma_first_parts(front, rest.drop_last(), c);
        assert(all.drop_last() =~= front.push(c) + rest.drop_last());
    } else {
        assert(all =~= front.push(c));
        assert(all.drop_last() =~= front);
        if front.len() > 0 {
            let less = front.drop_last();
            assert(!less.contains(c)) by {
                assert forall|i: int| 0 <= i < less.len() implies less[i] != c by {
                    assert(front.contains(front[i]));
                }
            }
            assert(front.contains(front.last()));
            lemma_first_parts(less, rest, c);
            assert(less.push(front.last()) =~= front);
            assert(split_on(front, c) =~= seq![front]);
        } else {
            assert(front =~= Seq::empty());
            assert(split_on(front, c) =~= seq![front]);
        }
    }
    if rest.len() > 0 {
        lemma_first_parts(front, Seq::empty(), c);
    }
}

/// A conversation's name gives its server before the first slash, and its channel behind the first
/// number sign, up to the next one.
pub proof fn law_a_conversations_name_gives_server_and_channel(
    guild: Seq<char>,
    rest: Seq<char>,
    channel: Seq<char>,
)
    requires
        !guild.contains('/'),
        !guild.contains('#'),
        !channel.contains('#'),
    ensures
        guild_in_name(Some(guild.push('/') + rest)) == guild,
        guild_in_name(Some(guild)) == guild,
        guild_in_name(None) == "guild"@,
        channel_in_name(Some(guild.push('#') + channel)) == channel,
        channel_in_name(Some(guild)) == "threads"@,
        channel_in_name(None) == "threads"@,
{
    lemma_first_parts(guild, rest, '/');
    lemma_first_parts(guild, channel, '#');
    lemma_last_part(guild, channel, '#');
    lemma_two_parts(guild, channel, '#');
}

proof fn lemma_two_parts(front: Seq<char>, tail: Seq<char>, c: char)
    requires
        !front.contains(c),
        !tail.contains(c),
    ensures
        split_on(front.push(c) + tail, c).len() == 2,
    decreases tail.len(),
{
    let all = front.push(c) + tail;
    lemma_first_parts(front, tail, c);
    if tail.len() == 0 {
        assert(all =~= front.push(c));
        assert(all.drop_last() =~= front);
    } else {
        let rest = tail.drop_last();
        assert(tail.contains(tail.last()));
        assert(!rest.contains(c)) by {
            assert forall|i: int| 0 <= i < rest.len() implies rest[i] != c by {
                assert(tail.contains(tail[i]));
            }
        }
        assert(all.drop_last() =~= front.push(c) + rest);
        lemma_two_parts(front, rest, c);
    }
}

/// The roles that can be given are offered by what is shown of them, in their order.
pub proof fn law_roles_are_offered_as_they_rank(list: Seq<RankedV>, i: int)
    ensures
        ranked_values(list).len() == list.len(),
        0 <= i < list.len() ==> ranked_values(list)[i] == list[i].value,
{
}

/// Rules are read from a reply that succeeded and is JSON. One that is not JSON says so; one that failed
/// says what reading them met.
pub proof fn law_rules_come_from_a_reply_that_succeeded(
    status: u16,
    parsed: Option<JsonV>,
    text: Seq<char>,
)
    ensures
        ({
            let r = rules_outcome(status, parsed, text);
            let fine = 200 <= status < 300;
            &&& r is Ok <==> fine && parsed is Some
            &&& r is Ok ==> r->Ok_0 == parsed->0
            &&& fine && parsed is None ==> r == Err::<JsonV, Seq<char>>(
                "parsing this server's rules"@,
            )
            &&& !fine ==> r == Err::<JsonV, Seq<char>>(
                error_sentence(
                    status,
                    reply_of(text),
                    text,
                    "Discord asked for a captcha before "@ + "reading this server's rules"@
                        + ", and this action has no way to show one."@,
                ),
            )
        }),
{
}

} // verus!
