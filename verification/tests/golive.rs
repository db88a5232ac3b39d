//! Going live, and watching others.
use nobilis::backend::discord::golive::{
    ping, redacted, set_paused, start, stop, stream_failed, watch, PendingStream, StreamKey, Streams,
};
use nobilis::json::{parse, Json};

fn json(text: &str) -> Json {
    parse(text).expect("JSON")
}

#[test]
fn a_key_says_which_kind_of_conversation_it_is() {
    let in_guild = StreamKey { guild_id: Some("111".into()), channel_id: "222".into(), user_id: "333".into() };
    assert_eq!(in_guild.to_wire(), "guild:111:222:333");

    let in_dm = StreamKey { guild_id: None, channel_id: "222".into(), user_id: "333".into() };
    assert_eq!(in_dm.to_wire(), "call:222:333");

    // And back again, unchanged.
    assert_eq!(StreamKey::parse("guild:111:222:333"), Some(in_guild));
    assert_eq!(StreamKey::parse("call:222:333"), Some(in_dm));
}

#[test]
fn the_owner_comes_out_of_either_shape() {
    assert_eq!(StreamKey::owner("guild:111:222:333").as_deref(), Some("333"));
    assert_eq!(StreamKey::owner("call:222:333").as_deref(), Some("333"));
    assert_eq!(StreamKey::owner("nonsense"), None);
}

#[test]
fn a_malformed_key_is_not_a_key() {
    assert_eq!(StreamKey::parse(""), None);
    assert_eq!(StreamKey::parse("guild:111:222"), None, "too few parts for a guild");
    assert_eq!(StreamKey::parse("call:222:333:444"), None, "too many for a call");
    assert_eq!(StreamKey::parse("guild::222:333"), None, "an empty guild id");
    assert_eq!(StreamKey::parse("call:222:"), None, "an empty user id");
    assert_eq!(StreamKey::parse("stream:222:333"), None, "a prefix that is neither");
}

#[test]
fn the_two_halves_of_a_handshake_merge_in_either_order() {
    let created = json(r#"{ "stream_key": "call:222:333", "rtc_server_id": "rtc-9", "paused": true }"#);
    let server = json(r#"{ "stream_key": "call:222:333", "endpoint": "eu.discord.media", "token": "t0k" }"#);

    let mut first = PendingStream::default();
    first.absorb(&created);
    assert!(!first.complete(), "a stream with no server to reach is not ready");
    first.absorb(&server);
    assert!(first.complete());

    let mut second = PendingStream::default();
    second.absorb(&server);
    second.absorb(&created);
    assert_eq!(first, second, "the order the two arrive in cannot matter");

    // A stream created while nobody is watching starts paused, and
    // sending into a paused stream is sending into nothing.
    assert!(first.paused);

    // A later dispatch mentioning nothing new leaves what is held alone.
    let mut held = first.copy();
    held.absorb(&json("{}"));
    assert_eq!(held, first);

    // An empty endpoint is Discord saying the server has gone away, not
    // an endpoint called "".
    let mut dropped = first.copy();
    dropped.absorb(&json(r#"{ "endpoint": "" }"#));
    assert_eq!(dropped.endpoint, first.endpoint);
}

#[test]
fn a_logged_dispatch_has_no_token_in_it() {
    let d = json(
        r#"{
            "stream_key": "call:222:333",
            "endpoint": "eu.discord.media",
            "token": "a-real-secret",
            "paused": false
        }"#,
    );
    let line = redacted(&d);
    assert!(!line.contains("a-real-secret"), "{line}");
    assert!(line.contains("<redacted>"), "{line}");
    // And everything that is not a secret survives, or the log says
    // nothing worth reading.
    assert!(line.contains("call:222:333"), "{line}");
    assert!(line.contains("eu.discord.media"), "{line}");
    assert!(line.contains("paused"), "{line}");

    // A dispatch with nothing to hide is unchanged apart from key order.
    let plain = json(r#"{ "stream_key": "call:1:2" }"#);
    assert!(!redacted(&plain).contains("redacted"));
}

#[test]
fn nothing_is_asked_without_a_connection() {
    assert!(start(false, None, "222").is_err());
    assert!(stop(false, "call:222:333").is_err());
    assert!(watch(false, "call:222:333").is_err());
    assert!(ping(false, "call:222:333").is_err());
    assert!(set_paused(false, "call:222:333", true).is_err());
    let asked = start(true, Some("111"), "222").unwrap();
    assert_eq!(asked.at("op").as_u64(), Some(18));
    assert_eq!(asked.at("d").at("type").text(), Some("guild"));
    assert_eq!(asked.at("d").at("guild_id").text(), Some("111"));
    let paused = set_paused(true, "call:222:333", true).unwrap();
    assert_eq!(paused.at("op").as_u64(), Some(22));
    assert_eq!(paused.at("d").at("paused").flag(), Some(true));
}

#[test]
fn a_stream_is_reached_once_both_halves_are_there() {
    let mut streams = Streams::new();
    let me = "discord:me";
    let created = json(r#"{ "stream_key": "call:222:333", "rtc_server_id": "rtc-9" }"#);
    let server = json(r#"{ "stream_key": "call:222:333", "endpoint": "eu.discord.media", "token": "t0k" }"#);
    assert!(streams.note_stream(me, Some("333"), Some("sess"), &created).connect.is_none());
    let step = streams.note_stream(me, Some("333"), Some("sess"), &server);
    let connect = step.connect.expect("both halves are there");
    assert_eq!(connect.endpoint, "eu.discord.media");
    assert_eq!(connect.token, "t0k");
    assert_eq!(connect.server_id, "rtc-9");
    assert!(streams.held(me, "call:222:333").unwrap().complete());
    assert!(streams.send_frame(me).is_err());
    let (_, unpaused) = streams.stream_ready(me, "call:222:333", true);
    assert!(unpaused.is_ok());
    assert!(streams.sending(me));
    assert!(streams.send_frame(me).is_ok());
    assert!(streams.note_stream_gone(me, &json(r#"{ "stream_key": "call:222:333" }"#)).is_some());
    assert!(streams.held(me, "call:222:333").is_none());
    assert!(!streams.close(me) || !streams.sending(me));
    streams.forget(me);
    assert!(!streams.sending(me));
    assert!(stream_failed(me, "call:222:333", "refused").write().contains("refused"));
}
