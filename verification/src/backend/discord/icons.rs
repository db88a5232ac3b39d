//! The pictures of servers, and what is kept of pictures on disk.
use vstd::prelude::*;
use crate::text::maybe;
use super::conversations::BufferGroup;
use super::guilds::{guild_group, guild_group_id};

verus! {

/// How many bytes of server pictures are kept at most.
pub const GUILD_ICON_CACHE_MAX_BYTES: u64 = 16_777_216;

/// How many bytes of small copies are kept at most.
pub const THUMBNAIL_CACHE_MAX_BYTES: u64 = 104_857_600;

/// Under what name the picture of a server is kept: a server that changes it has another.
pub open spec fn icon_file(guild_id: Seq<char>, hash: Seq<char>) -> Seq<char> {
    guild_id + "-"@ + hash + ".png"@
}

pub fn icon_file_name(guild_id: &str, hash: &str) -> (r: String)
    ensures
        r@ == icon_file(guild_id@, hash@),
{
    let mut out = guild_id.to_owned();
    out.append("-");
    out.append(hash);
    out.append(".png");
    out
}

/// Where the picture of a server is loaded from; one that moves is loaded still.
pub open spec fn icon_address(guild_id: Seq<char>, hash: Seq<char>) -> Seq<char> {
    "https://cdn.discordapp.com/icons/"@ + guild_id + "/"@ + hash + ".png?size=128"@
}

pub fn icon_url(guild_id: &str, hash: &str) -> (r: String)
    ensures
        r@ == icon_address(guild_id@, hash@),
{
    let mut out = "https://cdn.discordapp.com/icons/".to_owned();
    out.append(guild_id);
    out.append("/");
    out.append(hash);
    out.append(".png?size=128");
    out
}

/// The address of a file.
pub fn file_url(path: &str) -> (r: String)
    ensures
        r@ == "file://"@ + path@,
{
    "file://".to_owned().concat(path)
}

/// The picture of a server that is on disk already.
pub fn cached_guild_icon(path: &str, has_icon: bool, exists: bool) -> (r: Option<String>)
    ensures
        maybe(r) == (if has_icon && exists {
            Some("file://"@ + path@)
        } else {
            None
        }),
{
    if has_icon && exists {
        Some(file_url(path))
    } else {
        None
    }
}

/// The rail entry of a server once its picture is there. Whether it still waits for its rules to be
/// agreed to is carried over.
pub fn cache_guild_icon(
    account_id: &str,
    guild_id: &str,
    name: &str,
    path: Option<&str>,
    position: i64,
    pending: bool,
) -> (r: BufferGroup)
    ensures
        r.id@ == guild_group(account_id@, guild_id@),
        r.account_id@ == account_id@,
        r.service@ == "discord"@,
        r.kind@ == "guild"@,
        r.name@ == name@,
        maybe(r.icon_url) == (match path {
            Some(p) => Some("file://"@ + p@),
            None => None,
        }),
        r.position == position,
        r.pending == pending,
{
    BufferGroup {
        id: guild_group_id(account_id, guild_id),
        account_id: account_id.to_owned(),
        service: "discord".to_owned(),
        kind: "guild".to_owned(),
        name: name.to_owned(),
        icon_url: match path {
            Some(p) => Some(file_url(p)),
            None => None,
        },
        position,
        pending,
    }
}

/// Whether the small copies that were taken still are to be thrown away: once, which a mark in
/// their directory says.
pub fn retire_still_thumbnails(directory_exists: bool, marked: bool) -> (r: bool)
    ensures
        r == (directory_exists && !marked),
{
    directory_exists && !marked
}

/// The picture of a server is kept under another name once it changes, and loaded from where its server
/// and its hash say.
pub proof fn law_a_changed_picture_is_kept_anew(
    guild_id: Seq<char>,
    hash: Seq<char>,
    other: Seq<char>,
)
    ensures
        icon_file(guild_id, hash) == icon_file(guild_id, other) ==> hash == other,
        icon_file(guild_id, hash) == guild_id + "-"@ + hash + ".png"@,
        icon_address(guild_id, hash) == "https://cdn.discordapp.com/icons/"@ + guild_id + "/"@ + hash
            + ".png?size=128"@,
{
    if icon_file(guild_id, hash) == icon_file(guild_id, other) {
        let front = guild_id + "-"@;
        let n = front.len() as int;
        let (a, b) = (front + hash + ".png"@, front + other + ".png"@);
        assert(a.len() == b.len());
        assert(a.subrange(n, n + hash.len()) =~= hash);
        assert(b.subrange(n, n + other.len()) =~= other);
    }
}

} // verus!
