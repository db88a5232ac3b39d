//! Links that lapse, and small pictures.
use nobilis::backend::discord::attachments::{
    attachment_expired, cache_thumbnails, merge_cached_thumbnails, refresh_attachments, resign_request,
    stale_message_ids, thumbnail_key, thumbnail_source, Resign, Resigning,
};
use nobilis::backend::discord::icons::{
    cache_guild_icon, cached_guild_icon, file_url, icon_file_name, icon_url, retire_still_thumbnails,
};
use nobilis::json::{parse, Json};
use nobilis::model::{Attachment, Message};

fn json(text: &str) -> Json {
    parse(text).expect("JSON")
}

fn attachment(url: Option<&str>, path: Option<&str>) -> Attachment {
    Attachment {
        kind: "image".into(),
        filename: None,
        size: None,
        width: None,
        height: None,
        url: url.map(String::from),
        path: path.map(String::from),
        mimetype: None,
        thumbnail_path: None,
    }
}

fn msg(id: &str, urls: &[&str]) -> Message {
    Message {
        id: id.into(),
        from: "x".into(),
        body: String::new(),
        ts: 0,
        reply_to: None,
        reactions: Vec::new(),
        is_own: false,
        avatar_url: None,
        embeds: Vec::new(),
        attachments: urls.iter().map(|u| attachment(Some(u), None)).collect(),
        sender_id: None,
    }
}

/// A moment in the year 2025.
const NOW: u64 = 1_750_000_000;
const PAST: &str = "https://cdn.discordapp.com/attachments/1/2/a.png?ex=386d4380&is=1&hm=2";
const FUTURE: &str = "https://cdn.discordapp.com/attachments/1/2/a.png?ex=f4143f80&is=1&hm=2";

#[test]
fn only_messages_with_a_lapsed_link_need_re_signing() {
    let page = vec![msg("100", &[FUTURE]), msg("101", &[PAST]), msg("102", &[])];
    assert_eq!(stale_message_ids(&page, NOW), vec!["101"]);
}

#[test]
fn a_message_is_stale_if_any_of_its_attachments_is() {
    let page = vec![msg("100", &[FUTURE, PAST])];
    assert_eq!(stale_message_ids(&page, NOW), vec!["100"]);
}

#[test]
fn stale_ids_come_back_newest_first() {
    // Snowflakes: longer is newer, and equal lengths sort lexically.
    let page = vec![msg("100", &[PAST]), msg("1000", &[PAST]), msg("300", &[PAST])];
    assert_eq!(stale_message_ids(&page, NOW), vec!["1000", "300", "100"]);
}

#[test]
fn locally_cached_media_never_looks_stale() {
    let mut m = msg("100", &[]);
    m.attachments = vec![attachment(None, Some("file:///cache/x.png"))];
    assert!(stale_message_ids(&vec![m], NOW).is_empty());
}

#[test]
fn reads_the_expiry_out_of_a_signed_cdn_link() {
    // ex= is a hex unix timestamp. Year 2000 is long gone; year 2100 is not.
    let past = "https://cdn.discordapp.com/attachments/1/2/a.png?ex=386d4380&is=1&hm=2";
    let future = "https://cdn.discordapp.com/attachments/1/2/a.png?ex=f4143f80&is=1&hm=2";
    assert!(attachment_expired(past, NOW));
    assert!(!attachment_expired(future, NOW));
    // An unsigned link has no expiry to read, so it is never "expired".
    assert!(!attachment_expired("https://example.com/a.png", NOW));
}

#[test]
fn builds_a_proxied_thumbnail_preserving_aspect_ratio() {
    let src = thumbnail_source("https://cdn.discordapp.com/attachments/1/2/a.png?ex=1", 1000, 500)
        .expect("should proxy a Discord link");
    // Resizing goes through the media proxy, not the raw CDN host.
    assert!(src.starts_with("https://media.discordapp.net/"), "{src}");
    assert!(src.contains("width=480"), "{src}");
    assert!(src.contains("height=240"), "{src}");
    // The existing query string is kept, not replaced.
    assert!(src.contains("ex=1"), "{src}");
    // Without this the proxy flattens the animation while resizing.
    assert!(src.contains("animated=true"), "{src}");
}

#[test]
fn taller_than_wide_is_bounded_by_height() {
    let src = thumbnail_source("https://media.discordapp.net/attachments/1/2/a.png", 500, 1000).unwrap();
    assert!(src.contains("width=240"), "{src}");
    assert!(src.contains("height=480"), "{src}");
}

#[test]
fn only_discord_hosted_images_are_proxied() {
    assert!(thumbnail_source("https://example.com/a.png", 10, 10).is_none());
}

#[test]
fn a_thumbnail_is_kept_under_a_digest_of_its_address() {
    let key = thumbnail_key("https://cdn.discordapp.com/attachments/1/2/cat.png?ex=1");
    // The signature lapses; the picture is the same.
    assert_eq!(key, thumbnail_key("https://cdn.discordapp.com/attachments/1/2/cat.png?ex=2"));
    assert_ne!(key, thumbnail_key("https://cdn.discordapp.com/attachments/1/2/dog.png?ex=1"));
    assert_eq!(thumbnail_key("abc").len(), key.len());
    assert!(thumbnail_key("abc").starts_with("ba7816bf8f01cfea"), "{}", thumbnail_key("abc"));
}

#[test]
fn small_pictures_already_fetched_are_kept() {
    let mut had = attachment(Some("https://cdn.discordapp.com/a.png?ex=1"), None);
    had.thumbnail_path = Some("file:///t.png".into());
    let fresh = vec![attachment(Some("https://cdn.discordapp.com/a.png?ex=2"), None)];
    let merged = merge_cached_thumbnails(fresh, Some(&vec![had]));
    assert_eq!(merged[0].thumbnail_path.as_deref(), Some("file:///t.png"));
    assert_eq!(merged[0].url.as_deref(), Some("https://cdn.discordapp.com/a.png?ex=2"));
    let bare = merge_cached_thumbnails(vec![attachment(Some("u"), None)], None);
    assert_eq!(bare[0].thumbnail_path, None);
}

#[test]
fn pictures_get_a_small_copy_once() {
    let mut sized = attachment(Some("https://cdn.discordapp.com/attachments/1/2/a.png"), None);
    sized.width = Some(1000);
    sized.height = Some(500);
    let mut had = attachment(Some("https://cdn.discordapp.com/attachments/1/2/a.png"), None);
    had.thumbnail_path = Some("file:///t.png".into());
    let mut film = attachment(Some("https://cdn.discordapp.com/attachments/1/2/a.mp4"), None);
    film.kind = "video".into();
    let elsewhere = attachment(Some("https://example.com/a.png"), None);
    let sources = cache_thumbnails(&vec![sized, had, film, elsewhere]);
    assert_eq!(sources.len(), 4);
    assert!(sources[0].as_deref().unwrap().contains("width=480"));
    assert!(sources[1].is_none() && sources[2].is_none() && sources[3].is_none());
}

#[test]
fn stale_links_are_fetched_page_by_page() {
    let mut resign = Resign::new(vec!["300".into(), "100".into()]);
    assert_eq!(resign.anchor(), Some("300"));
    let page = vec![json(r#"{ "id": "300", "attachments": [{ "url": "https://cdn/new.png" }] }"#)];
    let (renewed, more) = resign.run_resign(&page);
    assert_eq!(renewed.len(), 1);
    assert_eq!(renewed[0].id, "300");
    assert_eq!(renewed[0].attachments[0].url.as_deref(), Some("https://cdn/new.png"));
    assert!(more);
    assert_eq!(resign.anchor(), Some("100"));
    let asked = resign_request("tok", "5", "100");
    assert!(asked.query.iter().any(|q| q.name == "around" && q.value == "100"));
}

#[test]
fn a_conversation_is_renewed_once_at_a_time() {
    let mut resigning = Resigning::new();
    let page = vec![msg("101", &[PAST])];
    assert_eq!(resigning.resign_stale_attachments("b", &page, NOW), Some(vec!["101".to_string()]));
    assert_eq!(resigning.resign_stale_attachments("b", &page, NOW), None);
    resigning.finished("b");
    assert!(resigning.resign_stale_attachments("b", &page, NOW).is_some());
    assert_eq!(resigning.resign_stale_attachments("c", &vec![msg("1", &[FUTURE])], NOW), None);
}

#[test]
fn one_message_can_be_renewed_by_hand() {
    let page = vec![json(r#"{ "id": "7", "attachments": [{ "url": "https://cdn/new.png" }] }"#)];
    assert_eq!(refresh_attachments(&page, "7", None).unwrap().len(), 1);
    assert!(refresh_attachments(&page, "8", None).is_err());
}

#[test]
fn an_icon_is_cached_by_server_and_hash() {
    assert!(icon_file_name("1", "abc").contains("abc"));
    assert_ne!(icon_file_name("1", "abc"), icon_file_name("1", "abd"));
    assert!(icon_url("1", "abc").starts_with("https://cdn.discordapp.com/icons/1/abc"));
    assert_eq!(file_url("/a/b.png"), "file:///a/b.png");
    assert_eq!(cached_guild_icon("/a/b.png", true, true).as_deref(), Some("file:///a/b.png"));
    assert_eq!(cached_guild_icon("/a/b.png", true, false), None);
    assert_eq!(cached_guild_icon("/a/b.png", false, true), None);
    let group = cache_guild_icon("discord:me", "1", "A server", Some("/a/b.png"), 3, false);
    assert_eq!(group.id, "discord:me|guild:1");
    assert_eq!(group.icon_url.as_deref(), Some("file:///a/b.png"));
    assert_eq!(group.position, 3);
    assert!(retire_still_thumbnails(true, false));
    assert!(!retire_still_thumbnails(true, true));
    assert!(!retire_still_thumbnails(false, false));
}
