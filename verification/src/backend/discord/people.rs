//! What people and direct conversations are called, and which picture stands for them.
use vstd::prelude::*;
use crate::json::{Json, JsonV, collect, lemma_collect_step};
use crate::text::{decimal, decimal_text, join, joined, maybe, maybe_str, own, parse_u64, same, starts_with, texts, u64_of, views};

verus! {

/// A text that is there and not empty.
pub open spec fn filled(text: Option<Seq<char>>) -> Option<Seq<char>> {
    match text {
        Some(t) => if t.len() > 0 {
            Some(t)
        } else {
            None
        },
        None => None,
    }
}

/// The first text, or else the second.
pub open spec fn or_else(first: Option<Seq<char>>, second: Option<Seq<char>>) -> Option<Seq<char>> {
    match first {
        Some(t) => Some(t),
        None => second,
    }
}

/// A text that is there and not empty.
pub fn only_filled(text: Option<&str>) -> (r: Option<&str>)
    ensures
        maybe_str(r) == filled(maybe_str(text)),
{
    match text {
        Some(t) => if t.is_empty() {
            None
        } else {
            Some(t)
        },
        None => None,
    }
}

/// The first text, or else the second.
pub fn first_of<'a>(first: Option<&'a str>, second: Option<&'a str>) -> (r: Option<&'a str>)
    ensures
        maybe_str(r) == or_else(maybe_str(first), maybe_str(second)),
{
    match first {
        Some(t) => Some(t),
        None => second,
    }
}

/// The ending of a picture's address: an animated picture has a hash that says so.
pub open spec fn picture_ending(hash: Seq<char>) -> Seq<char> {
    if "a_"@.is_prefix_of(hash) {
        "gif"@
    } else {
        "png"@
    }
}

fn ending(hash: &str) -> (r: &'static str)
    ensures
        r@ == picture_ending(hash@),
{
    if starts_with(hash, "a_") {
        "gif"
    } else {
        "png"
    }
}

/// The address of the picture that somebody set.
pub open spec fn set_picture(user: JsonV) -> Option<Seq<char>> {
    match (user.at("id"@).text(), user.at("avatar"@).text()) {
        (Some(id), Some(hash)) => Some(
            "https://cdn.discordapp.com/avatars/"@ + id + "/"@ + hash + "."@ + picture_ending(hash),
        ),
        _ => None,
    }
}

/// The address of the picture that somebody set, or nothing.
pub fn author_avatar_url(author: &Json) -> (r: Option<String>)
    ensures
        maybe(r) == set_picture(author@),
{
    match (author.at("id").text(), author.at("avatar").text()) {
        (Some(id), Some(hash)) => {
            let mut url = "https://cdn.discordapp.com/avatars/".to_owned();
            url.append(id);
            url.append("/");
            url.append(hash);
            url.append(".");
            url.append(ending(hash));
            Some(url)
        },
        _ => None,
    }
}

/// Which stock picture stands for somebody: by the discriminator for an account that has one,
/// else by the part of the id that counts up.
pub open spec fn stock_picture_index(user: JsonV) -> Option<int> {
    match user.at("id"@).text() {
        Some(id) => match user.at("discriminator"@).text() {
            Some(d) if d != "0"@ => match u64_of(d) {
                Some(n) => Some(n % 5),
                None => Some(0),
            },
            _ => match u64_of(id) {
                Some(n) => Some((n / 4194304) % 6),
                None => None,
            },
        },
        None => None,
    }
}

pub open spec fn stock_picture(user: JsonV) -> Option<Seq<char>> {
    match stock_picture_index(user) {
        Some(index) => Some(
            "https://cdn.discordapp.com/embed/avatars/"@ + decimal_text(index as nat) + ".png"@,
        ),
        None => None,
    }
}

/// The picture that is served for somebody who has never set one.
pub fn default_avatar_url(user: &Json) -> (r: Option<String>)
    ensures
        maybe(r) == stock_picture(user@),
{
    let id = match user.at("id").text() {
        Some(id) => id,
        None => {
            return None;
        },
    };
    let by_discriminator: Option<u64> = match user.at("discriminator").text() {
        Some(d) => if same(d, "0") {
            None
        } else {
            match parse_u64(d) {
                Some(n) => Some(n % 5),
                None => Some(0),
            }
        },
        None => None,
    };
    let index: u64 = match by_discriminator {
        Some(n) => n,
        None => match parse_u64(id) {
            Some(n) => {
                assert(n >> 22 == n / 4194304) by (bit_vector);
                (n >> 22) % 6
            },
            None => {
                return None;
            },
        },
    };
    let mut url = "https://cdn.discordapp.com/embed/avatars/".to_owned();
    let number = decimal(index);
    url.append(number.as_str());
    url.append(".png");
    Some(url)
}

/// The picture of somebody: the one they set, else the stock one.
pub open spec fn picture(user: JsonV) -> Option<Seq<char>> {
    or_else(set_picture(user), stock_picture(user))
}

fn any_picture(user: &Json) -> (r: Option<String>)
    ensures
        maybe(r) == picture(user@),
{
    match author_avatar_url(user) {
        Some(url) => Some(url),
        None => default_avatar_url(user),
    }
}

/// The picture of a direct conversation: the other person's, where there is exactly one.
pub open spec fn dm_picture(channel: JsonV) -> Option<Seq<char>> {
    let others = channel.at("recipients"@).items();
    if others.len() == 1 {
        picture(others[0])
    } else {
        None
    }
}

pub fn dm_avatar_url(ch: &Json) -> (r: Option<String>)
    ensures
        maybe(r) == dm_picture(ch@),
{
    match ch.at("recipients").list_items() {
        Some(recipients) => if recipients.len() != 1 {
            None
        } else {
            any_picture(&recipients[0])
        },
        None => None,
    }
}

/// What somebody is called: their display name where they have one, else their user name.
pub open spec fn called(user: JsonV) -> Option<Seq<char>> {
    or_else(filled(user.at("global_name"@).text()), user.at("username"@).text())
}

pub fn display_name(user: &Json) -> (r: Option<&str>)
    ensures
        maybe_str(r) == called(user@),
{
    first_of(only_filled(user.at("global_name").text()), user.at("username").text())
}

pub open spec fn called_reader() -> spec_fn(JsonV) -> Option<Seq<char>> {
    |user: JsonV| called(user)
}

/// What a direct conversation is called: by everybody in it, or unknown.
pub open spec fn dm_name(channel: JsonV) -> Seq<char> {
    let names = joined(collect(channel.at("recipients"@).items(), called_reader()), ", "@);
    if names.len() > 0 {
        names
    } else {
        "Unknown"@
    }
}

pub fn dm_channel_name(ch: &Json) -> (r: String)
    ensures
        r@ == dm_name(ch@),
{
    let empty: Vec<Json> = Vec::new();
    let recipients = crate::json::elements(ch.at("recipients"), &empty);
    let ghost all = views(recipients@);
    let mut names: Vec<String> = Vec::new();
    let mut i: usize = 0;
    assert(texts(names@) =~= collect(all.take(0), called_reader()));
    while i < recipients.len()
        invariant
            i <= recipients.len(),
            all == views(recipients@),
            texts(names@) == collect(all.take(i as int), called_reader()),
        decreases recipients.len() - i,
    {
        let ghost before = names@;
        proof {
            lemma_collect_step(all, called_reader(), i as int);
        }
        match display_name(&recipients[i]) {
            Some(name) => {
                names.push(name.to_owned());
                assert(texts(names@) =~= texts(before).push(name@));
            },
            None => {},
        }
        i += 1;
    }
    assert(all.take(i as int) =~= all);
    let name = join(&names, ", ");
    if name.as_str().is_empty() {
        "Unknown".to_owned()
    } else {
        name
    }
}

/// What somebody in a voice channel is called there.
pub open spec fn voice_name(vs: JsonV) -> Option<Seq<char>> {
    let member = vs.at("member"@);
    filled(
        or_else(
            or_else(member.at("nick"@).text(), member.at("user"@).at("global_name"@).text()),
            member.at("user"@).at("username"@).text(),
        ),
    )
}

pub fn voice_member_name(vs: &Json) -> (r: Option<&str>)
    ensures
        maybe_str(r) == voice_name(vs@),
{
    let member = vs.at("member");
    let user = member.at("user");
    only_filled(
        first_of(
            first_of(member.at("nick").text(), user.at("global_name").text()),
            user.at("username").text(),
        ),
    )
}

/// The picture of somebody in a voice channel: the one they have in that server, else their own.
pub open spec fn voice_picture(vs: JsonV) -> Option<Seq<char>> {
    let member = vs.at("member"@);
    match vs.at("user_id"@).text() {
        Some(user_id) => match (member.at("avatar"@).text(), vs.at("guild_id"@).text()) {
            (Some(hash), Some(guild_id)) => Some(
                "https://cdn.discordapp.com/guilds/"@ + guild_id + "/users/"@ + user_id
                    + "/avatars/"@ + hash + "."@ + picture_ending(hash),
            ),
            _ => picture(member.at("user"@)),
        },
        None => None,
    }
}

pub fn voice_member_avatar(vs: &Json) -> (r: Option<String>)
    ensures
        maybe(r) == voice_picture(vs@),
{
    let member = vs.at("member");
    let user_id = match vs.at("user_id").text() {
        Some(user_id) => user_id,
        None => {
            return None;
        },
    };
    match (member.at("avatar").text(), vs.at("guild_id").text()) {
        (Some(hash), Some(guild_id)) => {
            let mut url = "https://cdn.discordapp.com/guilds/".to_owned();
            url.append(guild_id);
            url.append("/users/");
            url.append(user_id);
            url.append("/avatars/");
            url.append(hash);
            url.append(".");
            url.append(ending(hash));
            Some(url)
        },
        _ => any_picture(member.at("user")),
    }
}

/// Somebody is called by the name they chose, where it is not empty, else by the one they signed up
/// with.
pub proof fn law_people_go_by_the_name_they_chose(user: JsonV)
    ensures
        ({
            let chosen = user.at("global_name"@).text_or_empty();
            &&& chosen.len() > 0 ==> called(user) == Some(chosen)
            &&& chosen.len() == 0 ==> called(user) == user.at("username"@).text()
        }),
{
}

/// A picture that was set is at the address of the person's id and the picture's hash, as one that
/// moves where the hash says so.
pub proof fn law_a_set_picture_is_found_by_its_hash(user: JsonV)
    ensures
        ({
            let r = set_picture(user);
            &&& r is Some <==> user.at("id"@) is Str && user.at("avatar"@) is Str
            &&& r is Some ==> {
                let id = user.at("id"@)->Str_0;
                let hash = user.at("avatar"@)->Str_0;
                &&& "a_"@.is_prefix_of(hash) ==> r->0 == "https://cdn.discordapp.com/avatars/"@ + id
                    + "/"@ + hash + "."@ + "gif"@
                &&& !"a_"@.is_prefix_of(hash) ==> r->0 == "https://cdn.discordapp.com/avatars/"@
                    + id + "/"@ + hash + "."@ + "png"@
            }
        }),
{
}

/// Somebody who set no picture has one of five by a discriminator that is not zero, and else one of
/// six by the time that their id was made.
pub proof fn law_a_stock_picture_goes_by_number(user: JsonV)
    ensures
        ({
            let r = stock_picture_index(user);
            let d = user.at("discriminator"@);
            let id = user.at("id"@);
            let by_tag = d is Str && d->Str_0 != "0"@;
            &&& !(id is Str) ==> r is None
            &&& id is Str && by_tag && u64_of(d->Str_0) is Some ==> r == Some(
                u64_of(d->Str_0)->0 % 5,
            )
            &&& id is Str && by_tag && u64_of(d->Str_0) is None ==> r == Some(0int)
            &&& id is Str && !by_tag && u64_of(id->Str_0) is Some ==> r == Some(
                (u64_of(id->Str_0)->0 / 4194304) % 6,
            )
            &&& id is Str && !by_tag && u64_of(id->Str_0) is None ==> r is None
            &&& r is Some ==> 0 <= r->0 < 6
            &&& stock_picture(user) is Some <==> r is Some
            &&& r is Some ==> stock_picture(user)->0 == "https://cdn.discordapp.com/embed/avatars/"@
                + decimal_text(r->0 as nat) + ".png"@
        }),
{
}

/// The picture that somebody set comes before the stock one.
pub proof fn law_a_set_picture_comes_first(user: JsonV)
    ensures
        set_picture(user) is Some ==> picture(user) == set_picture(user),
        set_picture(user) is None ==> picture(user) == stock_picture(user),
{
}

/// A conversation of two has the other person's picture, and a conversation of more has none.
pub proof fn law_a_group_has_no_picture(channel: JsonV)
    ensures
        channel.at("recipients"@).items().len() == 1 ==> dm_picture(channel) == picture(
            channel.at("recipients"@).items()[0],
        ),
        channel.at("recipients"@).items().len() != 1 ==> dm_picture(channel) is None,
{
}

/// A conversation is called by everybody in it who has a name, in their order, and is unknown where
/// nobody has.
pub proof fn law_a_conversation_is_called_by_its_people(channel: JsonV)
    ensures
        ({
            let names = collect(channel.at("recipients"@).items(), |user: JsonV| called(user));
            &&& joined(names, ", "@).len() > 0 ==> dm_name(channel) == joined(names, ", "@)
            &&& joined(names, ", "@).len() == 0 ==> dm_name(channel) == "Unknown"@
            &&& names.len() == 1 && names[0].len() > 0 ==> dm_name(channel) == names[0]
        }),
{
}

/// Somebody in voice goes by their nickname there where it is given, else by the name they chose, else
/// by the one they signed up with; an empty one is no name.
pub proof fn law_in_voice_people_go_by_their_nickname(vs: JsonV)
    ensures
        ({
            let nick = vs.at("member"@).at("nick"@);
            let chosen = vs.at("member"@).at("user"@).at("global_name"@);
            let signed = vs.at("member"@).at("user"@).at("username"@);
            let named = if nick is Str {
                nick
            } else if chosen is Str {
                chosen
            } else {
                signed
            };
            &&& named is Str && named->Str_0.len() > 0 ==> voice_name(vs) == Some(named->Str_0)
            &&& !(named is Str) || named->Str_0.len() == 0 ==> voice_name(vs) is None
        }),
{
}

/// Somebody in voice has the picture they set in that server, else their own.
pub proof fn law_in_voice_people_have_the_servers_picture(vs: JsonV)
    ensures
        ({
            let user_id = vs.at("user_id"@);
            let hash = vs.at("member"@).at("avatar"@);
            let guild_id = vs.at("guild_id"@);
            &&& !(user_id is Str) ==> voice_picture(vs) is None
            &&& user_id is Str && hash is Str && guild_id is Str ==> voice_picture(vs) == Some(
                "https://cdn.discordapp.com/guilds/"@ + guild_id->Str_0 + "/users/"@ + user_id->Str_0
                    + "/avatars/"@ + hash->Str_0 + "."@ + (if "a_"@.is_prefix_of(hash->Str_0) {
                    "gif"@
                } else {
                    "png"@
                }),
            )
            &&& user_id is Str && !(hash is Str && guild_id is Str) ==> voice_picture(vs) == picture(
                vs.at("member"@).at("user"@),
            )
        }),
{
}

/// An empty text counts as none, and the first of two that are there is the one taken.
pub proof fn law_empty_texts_are_none(text: Seq<char>, other: Option<Seq<char>>)
    ensures
        filled(Some(text)) == (if text.len() > 0 {
            Some(text)
        } else {
            None
        }),
        filled(None) is None,
        or_else(Some(text), other) == Some(text),
        or_else(None, other) == other,
{
}

} // verus!
