//! A gateway session, from the first frame to the next connection.
use nobilis::backend::discord::actions::Action;
use nobilis::backend::discord::channels::Held;
use nobilis::backend::discord::dispatches::{
    friends_with, friends_without, list_friends, on_message_create, tell_read, tell_typing, Me,
};
use nobilis::backend::discord::channels::Known;
use nobilis::backend::discord::gateway::{
    heartbeat_interval, next_json, put_guild_together, resync_requests, Afterwards, Ending, Frame, GatewaySession,
    Heard, Heartbeat, Retries,
};
use nobilis::backend::discord::history::{
    catch_up_channel, context_moment, extend_history, load_context, missing_messages, read_page, refill_history,
    refused,
};
use nobilis::json::{parse, Json};
use nobilis::text_map::TextMap;

fn json(text: &str) -> Json {
    parse(text).expect("JSON")
}

fn me() -> Me {
    Me { account_id: "discord:1".into(), user_id: "1".into(), display_name: Some("Me".into()) }
}

fn ready() -> Json {
    json(
        r#"{
            "op": 0, "s": 1, "t": "READY",
            "d": {
                "session_id": "sess", "resume_gateway_url": "wss://resume.example",
                "user": { "id": "1", "username": "me", "global_name": "Me" },
                "relationships": [{ "id": "5", "type": 1, "user": { "id": "5", "username": "alice" } }],
                "private_channels": [{ "id": "50", "type": 1, "recipients": [{ "id": "5", "username": "alice" }] }],
                "guilds": [{ "id": "9", "name": "Club", "channels": [], "roles": [] }]
            }
        }"#,
    )
}

fn ready_session() -> GatewaySession {
    let mut session = GatewaySession::new();
    session.run_gateway(&me(), &ready()).expect("a session starts");
    session
}

fn dispatch(kind: &str, d: &str) -> Json {
    json(&format!(r#"{{ "op": 0, "s": 2, "t": "{kind}", "d": {d} }}"#))
}

#[test]
fn frames_are_told_apart() {
    assert_eq!(next_json(&Frame::Text(r#"{"op":11}"#.into())), Heard::Message(json(r#"{"op":11}"#)));
    assert_eq!(next_json(&Frame::Text("not json".into())), Heard::Lost("parsing gateway JSON".into()));
    assert_eq!(next_json(&Frame::Close(Some(4004), "".into())), Heard::AuthFailed);
    assert!(matches!(next_json(&Frame::Close(Some(1000), "bye".into())), Heard::Lost(_)));
    assert!(matches!(next_json(&Frame::End), Heard::Lost(_)));
    assert_eq!(next_json(&Frame::Other), Heard::Nothing);
}

#[test]
fn a_session_starts_and_is_taken_up_again() {
    let mut session = GatewaySession::new();
    let fresh = session.greet("tok", "online");
    assert_eq!(fresh.at("op").as_u64(), Some(2));
    assert_eq!(fresh.at("d").at("token").text(), Some("tok"));
    let plain = session.connect_url();
    let actions = session.run_gateway(&me(), &ready()).expect("a session starts");
    assert!(actions.contains(&Action::Session { session_id: "sess".into() }));
    assert!(actions.contains(&Action::Connected));
    assert!(actions.iter().any(|a| matches!(a, Action::OpenDms { plans } if plans.len() == 1)));
    assert!(actions.iter().any(|a| matches!(a, Action::RegisterGuilds { guilds } if guilds.len() == 1)));
    assert_eq!(session.dm_channels(), vec!["50".to_string()]);

    // From now on the session can be resumed, where the service said.
    assert_ne!(session.connect_url(), plain);
    assert!(session.connect_url().starts_with("wss://resume.example"));
    let resume = session.greet("tok", "online");
    assert_eq!(resume.at("op").as_u64(), Some(6));
    assert_eq!(resume.at("d").at("session_id").text(), Some("sess"));
    assert_eq!(resume.at("d").at("seq").as_u64(), Some(1));
}

#[test]
fn a_reconnect_keeps_the_session_and_an_invalid_one_ends_it() {
    let mut session = ready_session();
    assert!(session.run_gateway(&me(), &json(r#"{ "op": 7 }"#)).is_err());
    assert_eq!(session.greet("tok", "online").at("op").as_u64(), Some(6));
    assert!(session.run_gateway(&me(), &json(r#"{ "op": 9, "d": false }"#)).is_err());
    assert_eq!(session.greet("tok", "online").at("op").as_u64(), Some(2));
}

#[test]
fn an_acknowledged_heartbeat_keeps_the_connection() {
    let mut session = GatewaySession::new();
    assert_eq!(session.run_gateway(&me(), &json(r#"{ "op": 11 }"#)), Ok(vec![Action::Acked]));
    let mut beat = Heartbeat::new();
    assert!(beat.tick().is_ok());
    assert!(beat.tick().is_err(), "the last one was never answered");
    beat.acked();
    assert!(beat.tick().is_ok());
    assert_eq!(heartbeat_interval(&json(r#"{ "d": { "heartbeat_interval": 30000 } }"#)), 30_000);
    assert_eq!(heartbeat_interval(&json("{}")), 41_250);
    assert_eq!(heartbeat_interval(&json(r#"{ "d": { "heartbeat_interval": 0 } }"#)), 1);
}

#[test]
fn a_message_reaches_its_conversation() {
    let mut session = ready_session();
    let said = dispatch(
        "MESSAGE_CREATE",
        r#"{ "id": "100", "channel_id": "50", "content": "hi <@1>",
             "mentions": [{ "id": "1", "username": "me" }], "author": { "id": "5", "username": "alice" } }"#,
    );
    let actions = session.run_gateway(&me(), &said).unwrap();
    let message = actions
        .iter()
        .find_map(|a| match a {
            Action::Message { message, .. } => Some(message),
            _ => None,
        })
        .expect("a message");
    assert_eq!(message.body, "hi @Me");
    assert_eq!(message.from, "alice");
    assert!(message.is_mention);
    // A conversation that nobody knows of gets nothing.
    let elsewhere = dispatch("MESSAGE_CREATE", r#"{ "id": "100", "channel_id": "51", "content": "hi" }"#);
    assert!(session.run_gateway(&me(), &elsewhere).unwrap().is_empty());
    let nowhere: TextMap<Known> = TextMap::new();
    assert!(on_message_create(&nowhere, &me(), &json(r#"{ "id": "1", "channel_id": "50", "content": "hi" }"#)).is_empty());
}

#[test]
fn messages_change_and_go() {
    let mut session = ready_session();
    let edited = dispatch(
        "MESSAGE_UPDATE",
        r#"{ "id": "100", "channel_id": "50", "content": "now", "edited_timestamp": "2024-01-01T00:00:00+00:00",
             "author": { "id": "5", "username": "alice" } }"#,
    );
    let actions = session.run_gateway(&me(), &edited).unwrap();
    assert!(actions.iter().any(|a| matches!(a, Action::Edited { body, .. } if body == "now")));
    let gone = dispatch("MESSAGE_DELETE_BULK", r#"{ "ids": ["1", "2"], "channel_id": "50" }"#);
    let actions = session.run_gateway(&me(), &gone).unwrap();
    assert!(actions.iter().any(|a| matches!(a, Action::Deleted { message_ids, .. } if message_ids.len() == 2)));
    let reacted = dispatch(
        "MESSAGE_REACTION_ADD",
        r#"{ "message_id": "100", "channel_id": "50", "user_id": "1", "emoji": { "name": "🔥" } }"#,
    );
    let actions = session.run_gateway(&me(), &reacted).unwrap();
    assert!(actions.iter().any(|a| matches!(a, Action::React { is_me: true, added: true, .. })));
}

#[test]
fn somebody_writing_is_told_and_oneself_is_not() {
    let mut session = ready_session();
    let other = dispatch("TYPING_START", r#"{ "channel_id": "50", "user_id": "5" }"#);
    assert_eq!(session.run_gateway(&me(), &other).unwrap().len(), 1);
    let own = dispatch("TYPING_START", r#"{ "channel_id": "50", "user_id": "1" }"#);
    assert!(session.run_gateway(&me(), &own).unwrap().is_empty());
    assert!(tell_typing("discord:1", "b", None, Some("alice")).write().contains("alice"));
    assert!(tell_read("discord:1", "b").write().contains("\"b\""));
}

#[test]
fn an_outage_removes_nothing_and_leaving_does() {
    let mut session = ready_session();
    let outage = dispatch("GUILD_DELETE", r#"{ "id": "9", "unavailable": true }"#);
    assert!(session.run_gateway(&me(), &outage).unwrap().is_empty());
    let left = dispatch("GUILD_DELETE", r#"{ "id": "9" }"#);
    assert_eq!(session.run_gateway(&me(), &left), Ok(vec![Action::GuildGone { guild_id: "9".into() }]));
}

#[test]
fn friends_come_and_go() {
    let statuses: TextMap<String> = TextMap::new();
    let one = json(r#"{ "id": "5", "type": 1, "user": { "id": "5", "username": "alice" } }"#);
    let blocked = json(r#"{ "id": "6", "type": 2, "user": { "id": "6", "username": "bob" } }"#);
    let friends = list_friends(&vec![one.copy(), blocked], &statuses);
    assert_eq!(friends.len(), 1);
    assert!(friends_without(&friends, "5").is_empty());
    let more = friends_with(&friends, &json(r#"{ "id": "7", "type": 1, "user": { "id": "7", "username": "carol" } }"#));
    assert_eq!(more.len(), 2);
    assert_eq!(friends_with(&more, &one).len(), 2, "a friend is listed once");
}

const GUILD: &str = r#"{
    "id": "9", "name": "Club", "owner_id": "2",
    "roles": [{ "id": "9", "permissions": "1024" }, { "id": "77", "permissions": "0" }],
    "channels": [
        { "id": "90", "type": 0, "name": "general", "position": 0 },
        { "id": "91", "type": 0, "name": "secret", "position": 1,
          "permission_overwrites": [{ "id": "9", "type": 0, "allow": "0", "deny": "1024" }] },
        { "id": "92", "type": 2, "name": "voice", "position": 2 }
    ]
}"#;

#[test]
fn a_server_offers_the_channels_this_account_may_read() {
    let mut session = ready_session();
    let own = json(r#"{ "user": { "id": "1" }, "roles": [] }"#);
    let plan = session.register_guild(&me(), &json(GUILD), Some(&own)).expect("a server with an id");
    assert_eq!(plan.group_id, "discord:1|guild:9");
    assert_eq!(plan.name, "Club");
    let opened: Vec<&str> = plan.channels.iter().map(|c| c.channel_id.as_str()).collect();
    assert_eq!(opened, ["90"]);
    assert_eq!(plan.voice_channels.len(), 1);
    assert_eq!(plan.voice_channels[0].name, "voice");

    // Read again without the first channel, its conversation goes.
    let held = vec![Held { buffer_id: "b90".into(), channel_id: Some("90".into()) }];
    let fewer = put_guild_together(&json(GUILD), &json("[]"), Some(4)).expect("a list of channels");
    let (_, gone) = session.resync_guild_once(&me(), &fewer, Some(&own), &held).expect("a server");
    assert_eq!(gone, vec!["b90".to_string()]);
    assert!(put_guild_together(&json(GUILD), &json(r#"{ "message": "no" }"#), None).is_none());
    let (guild, channels) = resync_requests("tok", "9");
    assert!(guild.url.contains("/guilds/9"));
    assert!(channels.url.contains("/guilds/9/channels"));
    assert_eq!(session.forget_guild(&held), vec!["b90".to_string()]);
}

#[test]
fn waits_grow_until_a_dead_token_ends_them() {
    let mut retries = Retries::new();
    let mut last = 0;
    for _ in 0..12 {
        match retries.run_gateway_with_retry(Ending::Failed("lost".into())) {
            Afterwards::Retry(text, delay) => {
                assert!(text.contains("lost"), "{text}");
                assert!(delay >= last);
                last = delay;
            }
            other => panic!("{other:?}"),
        }
    }
    assert!(matches!(retries.run_gateway_with_retry(Ending::AuthFailed), Afterwards::GiveUp(_)));
    // A session that ran for a while starts over with a short wait.
    let _ = retries.run_gateway_with_retry(Ending::Over);
    match Retries::new().run_gateway_with_retry(Ending::Broken) {
        Afterwards::Retry(_, delay) => assert!(delay < last),
        other => panic!("{other:?}"),
    }
}

#[test]
fn history_is_asked_for_where_it_is_missing() {
    assert!(catch_up_channel(None, "tok", "5").is_none());
    let newer = catch_up_channel(Some("100"), "tok", "5").unwrap();
    assert!(newer.query.iter().any(|q| q.name == "after" && q.value == "100"));
    let older = extend_history(Some("100"), "tok", "5").unwrap();
    assert!(older.query.iter().any(|q| q.name == "before" && q.value == "100"));
    assert!(load_context(Some("tok"), Some("5"), "100").is_ok());
    assert!(load_context(None, Some("5"), "100").is_err());
    assert!(refill_history(false, Some("tok"), Some("5"), 50).is_err());
    assert!(refused(200).is_none());
    assert!(refused(403).unwrap().contains("403"));
    let page = read_page(r#"[{ "id": "1", "timestamp": "1970-01-01T00:00:09+00:00" }, { "id": "2" }]"#).unwrap();
    assert_eq!(missing_messages(&page, &vec!["1".to_string()]).len(), 1);
    assert_eq!(context_moment(&page, "1"), Ok(9));
    assert!(context_moment(&page, "3").is_err());
    assert!(read_page("{}").is_none());
}
