//! Names and faces.
use nobilis::backend::discord::people::{
    author_avatar_url, default_avatar_url, display_name, dm_avatar_url, dm_channel_name, voice_member_avatar,
    voice_member_name,
};
use nobilis::json::{parse, Json};

fn json(text: &str) -> Json {
    parse(text).expect("JSON")
}

#[test]
fn everyone_has_a_face_even_without_an_avatar() {
    // A conversation list is a list of faces; one entry showing a letter
    // instead reads as broken rather than as a person with no picture.
    let modern = json(r#"{ "id": "1339667204756475924", "discriminator": "0" }"#);
    let url = default_avatar_url(&modern).expect("a modern account still has a default");
    assert!(url.starts_with("https://cdn.discordapp.com/embed/avatars/"), "unexpected: {url}");
    let index: u64 = url
        .trim_start_matches("https://cdn.discordapp.com/embed/avatars/")
        .trim_end_matches(".png")
        .parse()
        .unwrap();
    assert!(index < 6, "modern accounts pick one of six, got {index}");
    assert_eq!(index, (1339667204756475924u64 >> 22) % 6);

    // The old scheme derives it from the discriminator instead.
    let legacy = json(r#"{ "id": "80351110224678912", "discriminator": "0007" }"#);
    let url = default_avatar_url(&legacy).unwrap();
    assert!(url.ends_with("/2.png"), "0007 % 5 is 2, got {url}");
}

#[test]
fn a_direct_message_is_headed_by_the_other_person() {
    // And a group has no single face, so it gets none rather than an
    // arbitrary one of several.
    let one = json(r#"{ "recipients": [{ "id": "1", "avatar": "abc", "discriminator": "0" }] }"#);
    assert_eq!(dm_avatar_url(&one).as_deref(), Some("https://cdn.discordapp.com/avatars/1/abc.png"));
    let group = json(r#"{ "recipients": [{ "id": "1", "avatar": "a" }, { "id": "2", "avatar": "b" }] }"#);
    assert!(dm_avatar_url(&group).is_none(), "a group DM was given one member's face");
}

#[test]
fn a_name_is_the_one_people_chose() {
    assert_eq!(display_name(&json(r#"{ "username": "alice", "global_name": "Alice" }"#)), Some("Alice"));
    assert_eq!(display_name(&json(r#"{ "username": "alice", "global_name": "" }"#)), Some("alice"));
    assert_eq!(display_name(&json("{}")), None);
    assert_eq!(
        dm_channel_name(&json(r#"{ "recipients": [{ "username": "alice" }, { "username": "bob" }] }"#)),
        "alice, bob"
    );
    assert_eq!(dm_channel_name(&json(r#"{ "recipients": [] }"#)), "Unknown");
    assert!(author_avatar_url(&json(r#"{ "id": "1", "avatar": "abc" }"#)).unwrap().contains("/1/abc"));
}

#[test]
fn somebody_in_a_call_has_a_name_and_a_face() {
    let vs = json(r#"{ "user_id": "1", "member": { "nick": "Al", "user": { "id": "1", "username": "alice", "avatar": "abc" } } }"#);
    assert_eq!(voice_member_name(&vs), Some("Al"));
    assert!(voice_member_avatar(&vs).unwrap().contains("/1/abc"));
    // A face of their own in a server comes before the one they have everywhere.
    let here = json(r#"{ "user_id": "1", "guild_id": "9", "member": { "avatar": "a_x", "user": { "id": "1" } } }"#);
    assert_eq!(
        voice_member_avatar(&here).as_deref(),
        Some("https://cdn.discordapp.com/guilds/9/users/1/avatars/a_x.gif")
    );
    assert_eq!(voice_member_name(&json("{}")), None);
}
