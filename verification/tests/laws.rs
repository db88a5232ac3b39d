//! What holds of several calls taken together, on concrete values.
use nobilis::accounts::config::{DiscordAccountConfig, KickAccountConfig};
use nobilis::accounts::store::{AccountStore, AccountsFile};
use nobilis::audio::{MicRead, MicSource, Playback, Speakers};
use nobilis::backend::discord::actions::Action;
use nobilis::backend::discord::channels::Known;
use nobilis::backend::discord::commands::nonce_at;
use nobilis::backend::discord::conversations::{profile, KnownMember};
use nobilis::backend::discord::dave::{read_binary, write_binary};
use nobilis::backend::discord::dispatches::Me;
use nobilis::backend::discord::gateway::GatewaySession;
use nobilis::backend::discord::guild_actions::assignable_roles;
use nobilis::backend::discord::guilds::{can_view_channel, register_guild_channels};
use nobilis::backend::discord::history::{missing_messages, newer_read, rate_limited, refill_read, RefillFault};
use nobilis::backend::discord::login::finish_login;
use nobilis::backend::discord::members::{
    apply_member_op, sort_rows, tell_roster, update_presence_in_rosters, Learned, Roster,
};
use nobilis::bytes::decode_standard;
use nobilis::json::{parse, Json};
use nobilis::text::replace;
use nobilis::text_map::TextMap;

fn json(text: &str) -> Json {
    parse(text).expect("JSON")
}

fn me() -> Me {
    Me { account_id: "discord:1".into(), user_id: "1".into(), display_name: None }
}

fn roles() -> Vec<Json> {
    vec![
        json(r#"{ "id": "9", "permissions": "0" }"#),
        json(r#"{ "id": "70", "permissions": "1024" }"#),
        json(r#"{ "id": "71", "permissions": "8" }"#),
    ]
}

fn sees(owner: bool, mine: &[&str], channel: &str) -> bool {
    let mine: Vec<String> = mine.iter().map(|r| r.to_string()).collect();
    can_view_channel(owner, "9", &roles(), &mine, "1", &json(channel))
}

#[test]
fn who_sees_a_channel() {
    let shut = r#"{ "permission_overwrites": [{ "id": "9", "type": 0, "allow": "0", "deny": "1024" }] }"#;
    assert!(sees(true, &[], shut), "the owner");
    assert!(sees(false, &["71"], shut), "an administrator");
    assert!(!sees(false, &["70"], shut), "everybody else is kept out");
    // Without overwrites the roles decide.
    assert!(sees(false, &["70"], "{}"));
    assert!(!sees(false, &[], "{}"));
    // One role that is let in is enough.
    let for_role = r#"{ "permission_overwrites": [
        { "id": "9", "type": 0, "allow": "0", "deny": "1024" },
        { "id": "70", "type": 0, "allow": "1024", "deny": "0" },
        { "id": "72", "type": 0, "allow": "0", "deny": "1024" }
    ] }"#;
    assert!(sees(false, &["70", "72"], for_role));
    // The overwrite for the member has the last word.
    let for_member = r#"{ "permission_overwrites": [
        { "id": "70", "type": 0, "allow": "1024", "deny": "0" },
        { "id": "1", "type": 1, "allow": "0", "deny": "1024" }
    ] }"#;
    assert!(!sees(false, &["70"], for_member));
    let let_in = r#"{ "permission_overwrites": [{ "id": "1", "type": 1, "allow": "1024", "deny": "0" }] }"#;
    assert!(sees(false, &[], let_in));
}

const GUILD: &str = r#"{
    "id": "9", "name": "Club", "owner_id": "1", "roles": [],
    "channels": [
        { "id": "94", "type": 4, "name": "Later", "position": 5 },
        { "id": "93", "type": 4, "name": "First", "position": 1 },
        { "id": "90", "type": 0, "name": "loose", "position": 9 },
        { "id": "91", "type": 0, "name": "b", "position": 3, "parent_id": "94" },
        { "id": "92", "type": 0, "name": "a", "position": 8, "parent_id": "93" }
    ]
}"#;

#[test]
fn a_server_is_registered_once_and_keeps_its_headings_together() {
    let mut known: TextMap<Known> = TextMap::new();
    let plan = register_guild_channels("discord:1", "1", &json(GUILD), None, &mut known).expect("a server");
    let mut opened: Vec<(&str, i128)> = plan.channels.iter().map(|c| (c.channel_id.as_str(), c.sort)).collect();
    opened.sort_by_key(|(_, sort)| *sort);
    let order: Vec<&str> = opened.iter().map(|(id, _)| *id).collect();
    assert_eq!(order, ["90", "92", "91"], "what has no heading comes first, then heading by heading");
    for id in ["90", "91", "92"] {
        assert!(known.contains(id));
        assert!(plan.visible.iter().any(|v| v == id));
    }
    // Again: nothing is opened, nothing is forgotten.
    let again = register_guild_channels("discord:1", "1", &json(GUILD), None, &mut known).expect("a server");
    assert!(again.channels.is_empty());
    assert_eq!(known.len(), 3);
}

#[test]
fn a_thread_started_while_connected_appears() {
    let mut known: TextMap<Known> = TextMap::new();
    register_guild_channels("discord:1", "1", &json(GUILD), None, &mut known).expect("a server");
    let thread = r#"{ "id": "200", "type": 11, "name": "later", "parent_id": "91" }"#;
    let with = GUILD.replace("\"roles\": []", &format!("\"roles\": [], \"threads\": [{thread}]"));
    let plan = register_guild_channels("discord:1", "1", &json(&with), None, &mut known).expect("a server");
    assert!(plan.channels.is_empty());
    assert_eq!(plan.threads.len(), 1);
    assert_eq!(plan.threads[0].channel_id, "200");
    assert_eq!(plan.threads[0].category.as_deref(), Some("b"));
    assert_eq!(plan.threads[0].sort, 60_004);
    // Known by now, it is still seen.
    let again = register_guild_channels("discord:1", "1", &json(&with), None, &mut known).expect("a server");
    assert!(again.threads.is_empty());
    assert!(again.visible.iter().any(|v| v == "200"));
}

#[test]
fn what_was_recovered_is_counted_once() {
    let page = r#"[
        { "id": "3", "content": "three", "author": { "id": "5", "username": "a" } },
        { "id": "2", "content": "", "author": { "id": "5", "username": "a" } },
        { "id": "1", "content": "one", "author": { "id": "5", "username": "a" } },
        { "id": "0", "content": "zero", "author": { "id": "5", "username": "a" } }
    ]"#;
    let mut stored = vec!["0".to_string()];
    let (messages, count) = refill_read(200, page, &stored, "1", None).expect("a page");
    assert_eq!(messages.iter().map(|m| m.id.as_str()).collect::<Vec<_>>(), ["1", "3"]);
    assert_eq!(count, 2);
    stored.extend(messages.into_iter().map(|m| m.id));
    assert_eq!(refill_read(200, page, &stored, "1", None).map(|found| found.1), Ok(0));
    assert_eq!(refill_read(429, "{}", &stored, "1", None), Err(RefillFault::RateLimited));
    assert_eq!(rate_limited("2.5"), "rate limited, retry after 2.5s");
    assert_eq!(
        refill_read(403, "{}", &stored, "1", None),
        Err(RefillFault::Refused("Discord refused the request (403 Forbidden)".into()))
    );
    assert_eq!(
        refill_read(200, "{}", &stored, "1", None),
        Err(RefillFault::Refused("parsing re-read history".into()))
    );
    let (newer, count) = newer_read(200, page, "1", None).expect("a page");
    assert_eq!(newer.iter().map(|m| m.id.as_str()).collect::<Vec<_>>(), ["0", "1", "3"]);
    assert_eq!(count, 3);
    assert_eq!(newer_read(200, "[]", "1", None).map(|found| found.1), Ok(0));
    assert!(newer_read(500, "oops", "1", None).is_err());
    assert_eq!(newer_read(200, "{}", "1", None), Err("reading the rest of the channel".to_string()));
}

#[test]
fn an_interaction_is_numbered_by_its_moment() {
    assert_eq!(nonce_at(0), "0");
    assert_eq!(nonce_at(1_420_070_400_001), "4194304");
}

#[test]
fn taking_out_what_was_put_in_gives_the_list_back() {
    let entry = |nick: &str| {
        format!(r#"{{ "member": {{ "user": {{ "id": "{nick}", "username": "{nick}" }} }} }}"#)
    };
    let mut learned: Vec<Learned> = Vec::new();
    let mut window: Vec<Json> = Vec::new();
    let sync = format!(r#"{{ "op": "SYNC", "items": [{}, {}] }}"#, entry("a"), entry("b"));
    assert!(apply_member_op(&mut window, &json(&sync), &mut learned));
    let before: Vec<Json> = window.iter().map(|row| row.copy()).collect();
    let insert = format!(r#"{{ "op": "INSERT", "index": 1, "item": {} }}"#, entry("c"));
    assert!(apply_member_op(&mut window, &json(&insert), &mut learned));
    assert_eq!(window.len(), 3);
    assert!(apply_member_op(&mut window, &json(r#"{ "op": "DELETE", "index": 1 }"#), &mut learned));
    assert_eq!(window, before);
    // Shown in order, nobody is lost.
    let shown = sort_rows(&before, false);
    assert_eq!(shown.len(), before.len());
    assert!(before.iter().all(|row| shown.contains(row)));
}

#[test]
fn a_status_reaches_the_lists_that_have_the_person() {
    let rosters = vec![
        Roster { buffer_id: "a".into(), members: json(r#"[{ "userId": "5", "status": "online" }, { "userId": "6" }]"#) },
        Roster { buffer_id: "b".into(), members: json(r#"[{ "userId": "6", "status": "online" }]"#) },
    ];
    let changed = update_presence_in_rosters(&rosters, "5", "offline");
    assert_eq!(changed.len(), 1);
    assert_eq!(changed[0].buffer_id, "a");
    let rows = changed[0].members.list_items().unwrap();
    assert_eq!(rows[0].at("away").flag(), Some(true));
    assert_eq!(rows[1], json(r#"{ "userId": "6" }"#));
    assert_eq!(tell_roster(&changed[0]).at("bufferId").text(), Some("a"));
}

#[test]
fn what_waits_for_the_speakers_is_bounded() {
    let mut playback = Playback::new();
    let speakers = Speakers { muted: false };
    for _ in 0..30 {
        playback.push(&speakers, &vec![1; 4800]);
    }
    assert_eq!(playback.queued(), 48_000);
}

#[test]
fn what_was_captured_is_read_once_and_in_order() {
    let mut source = MicSource::new();
    source.push(&[1, 2, 3, 4, 5]);
    assert_eq!(source.read(3, 0), MicRead::Bytes(vec![1, 2, 3]));
    assert_eq!(source.read(3, 0), MicRead::Bytes(vec![4, 5]));
    assert_eq!(source.buffered(), 0);
}

#[test]
fn different_bytes_are_encoded_differently() {
    assert_eq!(decode_standard("AAE="), Some(vec![0, 1]));
    assert_eq!(decode_standard("AAEC"), Some(vec![0, 1, 2]));
    assert_ne!(decode_standard("AAE="), decode_standard("AAEC"));
}

#[test]
fn the_member_list_says_when_somebody_joined() {
    let known = || KnownMember {
        member: json(r#"{ "joined_at": "1970-01-01T00:00:09+00:00" }"#),
        role_names: vec![],
        moderates: false,
    };
    let reply = json(r#"{ "guild_member": { "joined_at": "1970-01-01T00:01:00+00:00" }, "user": { "username": "a" } }"#);
    assert_eq!(profile("5", "a", None, Some(known()), Some(&reply)).joined_ts, Some(9));
    assert_eq!(profile("5", "a", None, None, Some(&reply)).joined_ts, Some(60));
}

#[test]
fn nothing_that_is_stored_is_missing() {
    let page = vec![json(r#"{ "id": "1" }"#), json(r#"{ "id": "2" }"#)];
    assert!(missing_messages(&page, &vec!["2".to_string(), "1".to_string()]).is_empty());
}

#[test]
fn every_message_is_counted() {
    let mut session = GatewaySession::new();
    let ready = json(r#"{ "op": 0, "s": 1, "t": "READY", "d": { "session_id": "sess" } }"#);
    session.run_gateway(&me(), &ready).unwrap();
    assert!(session.run_gateway(&me(), &json(r#"{ "op": 0, "s": 41, "t": "SOMETHING_NEW" }"#)).unwrap().is_empty());
    assert_eq!(session.greet("tok", "online").at("d").at("seq").as_u64(), Some(41));
}

#[test]
fn a_call_rings_while_it_names_this_account() {
    let mut session = GatewaySession::new();
    let said = |kind: &str, d: &str| json(&format!(r#"{{ "op": 0, "t": "{kind}", "d": {d} }}"#));
    let rings = said("CALL_CREATE", r#"{ "channel_id": "50", "ringing": ["1"] }"#);
    assert_eq!(
        session.run_gateway(&me(), &rings),
        Ok(vec![Action::Call { channel_id: "50".into(), ringing: true }])
    );
    for over in [
        said("CALL_UPDATE", r#"{ "channel_id": "50", "ringing": ["5"] }"#),
        said("CALL_DELETE", r#"{ "channel_id": "50" }"#),
    ] {
        assert_eq!(
            session.run_gateway(&me(), &over),
            Ok(vec![Action::Call { channel_id: "50".into(), ringing: false }])
        );
    }
}

#[test]
fn a_preview_does_not_touch_what_was_written() {
    let mut session = GatewaySession::new();
    let ready = json(
        r#"{ "op": 0, "s": 1, "t": "READY", "d": {
            "private_channels": [{ "id": "50", "type": 1, "recipients": [{ "id": "5", "username": "alice" }] }]
        } }"#,
    );
    session.run_gateway(&me(), &ready).unwrap();
    let update = json(
        r#"{ "op": 0, "t": "MESSAGE_UPDATE", "d": {
            "id": "100", "channel_id": "50", "embeds": [{ "title": "A page" }]
        } }"#,
    );
    let actions = session.run_gateway(&me(), &update).unwrap();
    assert!(actions.iter().any(|a| matches!(a, Action::Preview { .. })));
    assert!(!actions.iter().any(|a| matches!(a, Action::Edited { .. })));
}

#[test]
fn roles_are_offered_from_the_top_and_each_once() {
    let roles = vec![
        json(r#"{ "id": "9", "name": "@everyone", "position": 0 }"#),
        json(r#"{ "id": "70", "name": "low", "position": 1 }"#),
        json(r#"{ "id": "71", "name": "high", "position": 7, "color": 255 }"#),
    ];
    let offered = assignable_roles(Some("9"), &roles);
    let names: Vec<&str> = offered.list_items().unwrap().iter().map(|r| r.at("name").text().unwrap()).collect();
    assert_eq!(names, ["high", "low"]);
    assert_eq!(offered.list_items().unwrap()[0].at("colour").text(), Some("#0000ff"));
}

#[test]
fn signing_in_again_leaves_the_other_accounts_alone() {
    let mut accounts = AccountStore::open(AccountsFile {
        irc: vec![],
        discord: vec![
            DiscordAccountConfig { user_id: "5".into(), token: "old".into(), ..Default::default() },
            DiscordAccountConfig { user_id: "6".into(), token: "other".into(), ..Default::default() },
        ],
        sneedchat: vec![],
        matrix: vec![],
        kick: vec![KickAccountConfig { username: "k".into(), ..Default::default() }],
    });
    let me = json(r#"{ "id": "5", "username": "alice" }"#);
    finish_login(&mut accounts, &me, "new", Some("discord:5")).expect("the same account");
    assert_eq!(accounts.get_discord("discord:5").unwrap().token, "new");
    assert_eq!(accounts.get_discord("discord:6").unwrap().token, "other");
    assert!(accounts.get_kick("kick:k").is_some());
    // Renaming is about one account too.
    assert!(accounts.set_display_name("discord:5", "You"));
    assert_eq!(accounts.display_name_override("discord:6"), None);
    assert_eq!(accounts.display_name_override("kick:k"), None);
}

#[test]
fn a_frame_is_read_back() {
    let mut wire = vec![0, 7];
    wire.extend(write_binary(28, &[1, 2, 3]));
    let frame = read_binary(&wire).expect("a frame");
    assert_eq!(frame.opcode, 28);
    assert_eq!(frame.payload, &[1, 2, 3]);
}

#[test]
fn replacing_what_is_not_there_changes_nothing() {
    assert_eq!(replace("hello", "x", "y"), "hello");
}
