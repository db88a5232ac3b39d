//! Direct conversations, writing, reacting, calling, and what can be done in a server.
use nobilis::backend::discord::calls::{
    accept_call, announce_call, announce_voice_flags, decline_call, join_voice, leave_voice, must_leave, ring,
    InChannel, VoiceOptions,
};
use nobilis::backend::discord::conversations::{
    ack_read, add_friend, close_dm, delete_message, dm_group_id, dm_opened, edit_message, ensure_dm_group, list_pinned,
    message_link, open_dm, open_dm_with, pins_listed, profile, profile_request, reaction_path_segment, send_message,
    set_pinned, toggle_reaction, write_payload, KnownMember, GROUP_DM_MAX_OTHERS,
};
use nobilis::backend::discord::guild_actions::{
    assignable_roles, create_guild, create_invite, guild_powers, invite_made, join_guild, list_threads,
    moderate_member, open_thread, rules_read, set_member_role, thread_opened, threads_listed, timeout_until,
};
use nobilis::backend::discord::http::Method;
use nobilis::backend::discord::mentions::Candidate;
use nobilis::json::{parse, Json};

fn json(text: &str) -> Json {
    parse(text).expect("JSON")
}

#[test]
fn unwraps_a_static_custom_emoji() {
    assert_eq!(reaction_path_segment("<:pepege:123456789>"), "pepege:123456789");
}

#[test]
fn unwraps_an_animated_custom_emoji() {
    assert_eq!(reaction_path_segment("<a:vibing:987654321>"), "vibing:987654321");
}

#[test]
fn leaves_a_plain_unicode_emoji_unchanged() {
    assert_eq!(reaction_path_segment("🔥"), "🔥");
}

#[test]
fn a_reaction_is_escaped_in_its_address() {
    let on = toggle_reaction("tok", Some("5"), "100", "🔥", true).unwrap();
    assert_eq!(on.method, Method::Put);
    assert!(on.url.contains("%F0%9F%94%A5"), "{}", on.url);
    assert!(on.url.ends_with("/@me"), "{}", on.url);
    let off = toggle_reaction("tok", Some("5"), "100", "<:a:1>", false).unwrap();
    assert_eq!(off.method, Method::Delete);
    assert!(toggle_reaction("tok", None, "100", "🔥", true).is_err());
}

#[test]
fn a_conversation_is_opened_with_somebody_or_a_few() {
    assert!(open_dm(None, "5").is_err());
    assert!(open_dm(Some("tok"), "5").is_ok());
    assert!(open_dm_with(Some("tok"), &vec![]).is_err());
    let many: Vec<String> = (0..GROUP_DM_MAX_OTHERS + 1).map(|i| i.to_string()).collect();
    assert!(open_dm_with(Some("tok"), &many).is_err());
    let opened = dm_opened(&json(r#"{ "id": "50", "type": 1, "recipients": [{ "id": "5", "username": "alice" }] }"#));
    assert_eq!(opened.unwrap().name, "alice");
    assert!(dm_opened(&json("{}")).is_err());
    assert_eq!(ensure_dm_group("discord:1").id, dm_group_id("discord:1"));
    assert_eq!(close_dm(Some("tok"), "50").unwrap().method, Method::Delete);
    assert!(add_friend(Some("tok"), "alice").unwrap().body.unwrap().write().contains("alice"));
}

#[test]
fn what_is_written_mentions_and_answers() {
    let people = vec![Candidate { name: "alice".into(), id: "3".into() }];
    let sent = send_message("tok", Some("5"), "hi @alice", people, Some("9")).unwrap();
    let body = sent.body.unwrap();
    assert_eq!(body.at("content").text(), Some("hi <@3>"));
    assert_eq!(body.at("message_reference").at("message_id").text(), Some("9"));
    assert!(write_payload("x", None).get("message_reference").is_none());
    assert!(send_message("tok", None, "hi", vec![], None).is_err());
    assert_eq!(edit_message("tok", Some("5"), "9", "new").unwrap().method, Method::Patch);
    assert_eq!(delete_message("tok", Some("5"), "9").unwrap().method, Method::Delete);
    assert_eq!(ack_read("tok", Some("5"), None).unwrap(), None);
    assert!(ack_read("tok", Some("5"), Some("9")).unwrap().is_some());
    assert!(ack_read("tok", None, Some("9")).is_err());
}

#[test]
fn a_message_has_a_link() {
    assert_eq!(message_link("5", Some("9"), "100"), "https://discord.com/channels/9/5/100");
    assert_eq!(message_link("5", None, "100"), "https://discord.com/channels/@me/5/100");
}

#[test]
fn pins_are_listed_and_set() {
    assert!(list_pinned(Some("tok"), Some("5")).is_ok());
    let rows = pins_listed(
        &vec![json(r#"{ "id": "7", "content": "pinned", "author": { "username": "alice" } }"#), json("{}")],
        "b",
        "1",
        None,
    );
    assert_eq!(rows.len(), 1);
    assert_eq!(set_pinned(Some("tok"), Some("5"), "7", true).unwrap().request.method, Method::Put);
    assert_eq!(set_pinned(Some("tok"), Some("5"), "7", false).unwrap().request.method, Method::Delete);
}

#[test]
fn a_profile_prefers_what_the_member_list_said() {
    let known = KnownMember {
        member: json(r#"{ "nick": "Al", "joined_at": "1970-01-01T00:00:09+00:00", "user": { "id": "5", "username": "alice" } }"#),
        role_names: vec!["mods".into()],
        moderates: true,
    };
    let shown = profile("5", "alice", Some(3), Some(known), None);
    assert_eq!(shown.joined_ts, Some(9));
    assert_eq!(shown.roles, vec!["mods".to_string()]);
    assert_eq!(shown.is_moderator, Some(true));
    let bare = profile("5", "alice", None, None, None);
    assert_eq!(bare.name, "alice");
    assert_eq!(bare.is_moderator, None);
    let asked = profile_request("tok", "5", Some("discord:1|guild:9"));
    assert!(asked.url.ends_with("/users/5/profile?with_mutual_guilds=false&guild_id=9"), "{}", asked.url);
}

#[test]
fn a_call_is_joined_and_left() {
    let options = VoiceOptions { solo: false, transmit: true };
    let joined = join_voice(true, true, 3, Some("9"), "92", options).unwrap();
    assert_eq!(joined.at("op").as_u64(), Some(4));
    assert_eq!(joined.at("d").at("channel_id").text(), Some("92"));
    assert!(join_voice(false, true, 0, Some("9"), "92", options).is_err());
    assert!(join_voice(true, false, 0, Some("9"), "92", options).is_err());
    let alone = VoiceOptions { solo: true, transmit: false };
    assert!(join_voice(true, true, 1, Some("9"), "92", alone).is_err(), "solo refuses company");
    assert!(join_voice(true, true, 0, Some("9"), "92", alone).is_ok());
    assert!(must_leave(Some("92"), Some("92"), true));
    assert!(!must_leave(Some("92"), Some("92"), false));
    assert!(!must_leave(Some("92"), Some("93"), true));
    let here = InChannel { guild_id: Some("9".into()), channel_id: "92".into() };
    let (left, from) = leave_voice(Some(&here));
    assert!(left.at("d").at("channel_id").is_null());
    assert_eq!(from, None);
    // Hanging up a direct call stops its ringing.
    let call = InChannel { guild_id: None, channel_id: "50".into() };
    assert_eq!(leave_voice(Some(&call)).1.as_deref(), Some("50"));
    assert!(announce_voice_flags(None, true, false).is_none());
    let flags = announce_voice_flags(Some(&here), true, false).unwrap();
    assert_eq!(flags.at("d").at("self_mute").flag(), Some(true));
}

#[test]
fn a_call_rings_and_is_answered() {
    assert!(accept_call(true, true, "50").is_ok());
    assert!(ring(Some("tok"), "50").is_ok());
    assert!(decline_call(None, "1", "50").is_err());
    assert!(decline_call(Some("tok"), "1", "50").unwrap().body.unwrap().write().contains("1"));
    assert!(announce_call("discord:1", Some("b"), true, "50", true).is_some());
    assert!(announce_call("discord:1", Some("b"), false, "50", true).is_none());
    assert!(announce_call("discord:1", None, true, "50", true).is_none());
}

#[test]
fn a_server_is_joined_by_its_invite() {
    let joined = join_guild(Some("tok"), "https://discord.gg/abc", None).unwrap();
    assert!(joined.url.ends_with("/invites/abc"), "{}", joined.url);
    assert!(join_guild(Some("tok"), " abc ", None).unwrap().url.ends_with("/invites/abc"));
    assert!(join_guild(None, "abc", None).is_err());
    assert!(create_guild(Some("tok"), "Club").unwrap().body.unwrap().write().contains("Club"));
    assert!(create_invite(Some("tok"), Some("5"), 0, 0, false, None).is_ok());
    let made = invite_made(200, &json(r#"{ "code": "xyz" }"#), "").unwrap();
    assert!(made.write().contains("xyz"));
    assert!(invite_made(403, &json(r#"{ "message": "no" }"#), "").is_err());
    assert!(rules_read(200, r#"{ "form_fields": [] }"#).is_ok());
}

#[test]
fn powers_come_from_roles_or_from_owning() {
    let roles = vec![
        json(r#"{ "id": "9", "permissions": "0", "position": 0, "name": "@everyone" }"#),
        json(r#"{ "id": "77", "permissions": "2", "position": 1, "name": "mods" }"#),
    ];
    let member = json(r#"{ "roles": ["77"] }"#);
    let powers = guild_powers(Some("9"), Some("1"), Some("2"), &roles, Some(&member));
    assert_eq!(powers.at("canKick").flag(), Some(true));
    assert_eq!(powers.at("canBan").flag(), Some(false));
    let owner = guild_powers(Some("9"), Some("1"), Some("1"), &roles, None);
    assert_eq!(owner.at("canBan").flag(), Some(true));
    assert!(assignable_roles(Some("9"), &roles).write().contains("mods"));
}

#[test]
fn members_are_moderated() {
    let until = timeout_until(0, 0, Some(10)).expect("a moment");
    assert!(until.starts_with("1970-01-01T00:10:00"), "{until}");
    let timed = moderate_member(Some("tok"), Some("9"), "5", "timeout", &until, Some("spam")).unwrap();
    assert_eq!(timed.request.method, Method::Patch);
    let banned = moderate_member(Some("tok"), Some("9"), "5", "ban", "", None).unwrap();
    assert_eq!(banned.request.method, Method::Put);
    let kicked = moderate_member(Some("tok"), Some("9"), "5", "kick", "", None).unwrap();
    assert_eq!(kicked.request.method, Method::Delete);
    assert!(moderate_member(Some("tok"), Some("9"), "5", "hug", "", None).is_err());
    assert!(moderate_member(Some("tok"), None, "5", "ban", "", None).is_err());
    assert_eq!(set_member_role(Some("tok"), Some("9"), "5", "77", true).unwrap().request.method, Method::Put);
    assert_eq!(set_member_role(Some("tok"), Some("9"), "5", "77", false).unwrap().request.method, Method::Delete);
}

#[test]
fn threads_are_listed_and_opened() {
    assert!(!list_threads(Some("tok"), Some("5"), Some("9")).unwrap().is_empty());
    let answers = vec![
        json(r#"{ "threads": [{ "id": "1", "name": "a", "parent_id": "5" }, { "id": "2", "name": "b", "parent_id": "6" }] }"#),
        json(r#"{ "threads": [{ "id": "1", "name": "a", "parent_id": "5" }] }"#),
    ];
    let listed = threads_listed("5", &answers);
    assert_eq!(listed.at("threads").list_items().unwrap().len(), 1, "{}", listed.write());
    assert!(!open_thread(Some("tok"), Some("9"), "1").unwrap().is_empty());
    let opened = thread_opened(Some("Club ▸ general"), "5", &json(r#"{ "id": "1", "name": "a" }"#));
    assert!(opened.name.contains('a'));
}
