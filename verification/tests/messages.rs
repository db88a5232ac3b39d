//! Reading messages: bodies, stickers, polls, embeds, attachments.
use nobilis::backend::discord::messages::{
    describe_wordless, extract_attachments, extract_body, extract_embeds, extract_poll, extract_reactions,
    extract_reply, extract_stickers, is_empty_message, keep_message, mentions_own_user, parse_iso8601_seconds,
    pin_row, resolve_mentions, store_history_messages,
};
use nobilis::json::{parse, Json};

fn json(text: &str) -> Json {
    parse(text).expect("JSON")
}

#[test]
fn a_sticker_only_message_is_a_message() {
    let d = json(r#"{ "content": "", "sticker_items": [{ "id": "42", "name": "sad cat", "format_type": 1 }] }"#);
    let stickers = extract_stickers(&d);
    assert_eq!(stickers.len(), 1);
    assert_eq!(stickers[0].filename.as_deref(), Some("sad cat.png"));
    assert_eq!(stickers[0].url.as_deref(), Some("https://media.discordapp.net/stickers/42.png"));
    assert!(!is_empty_message("", &vec![], &stickers));
}

#[test]
fn an_animated_sticker_keeps_its_own_format() {
    let d = json(r#"{ "sticker_items": [{ "id": "7", "name": "dance", "format_type": 4 }] }"#);
    assert_eq!(extract_stickers(&d)[0].url.as_deref(), Some("https://media.discordapp.net/stickers/7.gif"));
}

#[test]
fn a_sticker_we_cannot_draw_becomes_its_name() {
    let d = json(r#"{ "content": "", "sticker_items": [{ "id": "9", "name": "wave", "format_type": 3 }] }"#);
    assert!(extract_stickers(&d).is_empty());
    assert_eq!(extract_body(&d).as_deref(), Some("sent a sticker: wave"));
}

#[test]
fn a_poll_arrives_as_its_question_and_options() {
    let d = json(
        r#"{
            "content": "",
            "poll": {
                "question": { "text": "Pizza?" },
                "answers": [
                    { "poll_media": { "text": "Yes" } },
                    { "poll_media": { "text": "No", "emoji": { "name": "🙅" } } }
                ]
            }
        }"#,
    );
    let body = extract_body(&d).expect("a poll is a message");
    assert!(body.contains("Pizza?"), "{body}");
    assert!(body.contains("• Yes"), "{body}");
    assert!(body.contains("• 🙅 No"), "{body}");
}

#[test]
fn a_poll_with_no_answers_is_not_shown() {
    assert_eq!(extract_poll(&json(r#"{ "poll": { "question": { "text": "?" }, "answers": [] } }"#)), None);
    assert_eq!(extract_poll(&json(r#"{ "content": "hi" }"#)), None);
}

#[test]
fn an_embed_for_a_link_already_in_the_message_adds_nothing() {
    let msg = json(
        r#"{
            "content": "https://www.youtube.com/watch?v=g1Sq1Nr58hM",
            "embeds": [{
                "url": "https://www.youtube.com/watch?v=g1Sq1Nr58hM",
                "video": { "url": "https://www.youtube.com/embed/g1Sq1Nr58hM" }
            }]
        }"#,
    );
    assert_eq!(extract_body(&msg).as_deref(), Some("https://www.youtube.com/watch?v=g1Sq1Nr58hM"));
}

#[test]
fn an_embed_with_no_link_in_the_message_still_carries_its_media() {
    let msg = json(
        r#"{
            "content": "look at this",
            "embeds": [{ "image": { "url": "https://cdn.example/pic.png" } }]
        }"#,
    );
    assert_eq!(extract_body(&msg).as_deref(), Some("look at this\nhttps://cdn.example/pic.png"));
}

#[test]
fn an_embed_whose_source_is_not_in_the_text_is_kept() {
    let msg = json(
        r#"{
            "content": "no links here",
            "embeds": [{
                "url": "https://example.com/article",
                "image": { "url": "https://example.com/hero.png" }
            }]
        }"#,
    );
    assert_eq!(extract_body(&msg).as_deref(), Some("no links here\nhttps://example.com/hero.png"));
}

#[test]
fn keeps_discord_attachment_metadata_instead_of_flattening_it_to_a_url() {
    let d = json(
        r#"{
            "content": "look at this",
            "attachments": [{
                "url": "https://cdn.discordapp.com/attachments/1/2/cat.png",
                "filename": "cat.png",
                "size": 12345,
                "width": 800,
                "height": 600,
                "content_type": "image/png"
            }]
        }"#,
    );
    let atts = extract_attachments(&d);
    assert_eq!(atts.len(), 1);
    assert_eq!(atts[0].kind, "image");
    assert_eq!(atts[0].filename.as_deref(), Some("cat.png"));
    assert_eq!(atts[0].mimetype.as_deref(), Some("image/png"));
    assert_eq!(atts[0].size, Some(12345));
    assert_eq!((atts[0].width, atts[0].height), (Some(800), Some(600)));
    // Directly loadable, so no local copy is made.
    assert!(atts[0].path.is_none());

    // The body keeps what the user actually typed.
    assert_eq!(extract_body(&d).as_deref(), Some("look at this"));
}

#[test]
fn classifies_non_image_attachments_by_content_type() {
    let d = json(
        r#"{ "attachments": [
            { "url": "https://cdn/x.mp4", "content_type": "video/mp4" },
            { "url": "https://cdn/x.ogg", "content_type": "audio/ogg" },
            { "url": "https://cdn/x.zip", "content_type": "application/zip" },
            { "url": "https://cdn/x.bin" }
        ]}"#,
    );
    let atts = extract_attachments(&d);
    let kinds: Vec<&str> = atts.iter().map(|a| a.kind.as_str()).collect();
    assert_eq!(kinds, ["video", "audio", "file", "file"]);
}

#[test]
fn an_attachment_only_message_still_has_a_renderable_body_or_attachments() {
    let d = json(
        r#"{ "content": "", "attachments": [{ "url": "https://cdn/a.png", "content_type": "image/png" }] }"#,
    );
    assert!(extract_body(&d).is_none());
    assert_eq!(extract_attachments(&d).len(), 1);
}

#[test]
fn an_uncaptioned_picture_is_not_an_empty_message() {
    let d = json(
        r#"{ "content": "", "attachments": [{ "url": "https://cdn/a.png", "content_type": "image/png" }] }"#,
    );
    let body = extract_body(&d).unwrap_or_default();
    assert!(!is_empty_message(&body, &extract_embeds(&d), &extract_attachments(&d)));
}

#[test]
fn a_message_with_no_text_embeds_or_attachments_is_empty() {
    let d = json(r#"{ "content": "", "attachments": [], "embeds": [] }"#);
    let body = extract_body(&d).unwrap_or_default();
    assert!(is_empty_message(&body, &extract_embeds(&d), &extract_attachments(&d)));
}

#[test]
fn moments_are_read_in_seconds() {
    assert_eq!(parse_iso8601_seconds("1970-01-01T00:01:40.000000+00:00"), Some(100));
    assert_eq!(parse_iso8601_seconds("1970-01-01T01:00:00+01:00"), Some(0));
    assert_eq!(parse_iso8601_seconds("yesterday"), None);
}

#[test]
fn a_mention_is_shown_by_name() {
    let d = json(r#"{ "mentions": [{ "id": "5", "username": "alice", "global_name": "Alice" }] }"#);
    assert_eq!(resolve_mentions("hi <@5> and <@!5>", &d, "1", None), "hi @Alice and @Alice");
    // One's own mention is shown under the name this account goes by.
    assert_eq!(
        resolve_mentions("hi <@1>", &json(r#"{ "mentions": [{ "id": "1", "username": "me" }] }"#), "1", Some("Me")),
        "hi @Me"
    );
}

#[test]
fn a_highlight_is_a_mention_of_this_account() {
    let d = json(r#"{ "mentions": [{ "id": "5" }] }"#);
    assert!(mentions_own_user(&d, "5"));
    assert!(!mentions_own_user(&d, "6"));
    assert!(!mentions_own_user(&json(r#"{ "content": "hi" }"#), "5"));
}

#[test]
fn reactions_and_replies_are_read() {
    let d = json(
        r#"{
            "reactions": [
                { "emoji": { "id": "3", "name": "pog", "animated": true }, "count": 2, "me": true },
                { "emoji": { "id": null, "name": "🔥" }, "count": 1 }
            ],
            "message_reference": { "message_id": "9" },
            "referenced_message": { "id": "9", "content": "before", "author": { "id": "5", "username": "alice" } }
        }"#,
    );
    let reactions = extract_reactions(&d);
    assert_eq!(reactions.len(), 2);
    assert_eq!(reactions[0].emoji, "<:pog:3>");
    assert!(reactions[0].animated);
    assert_eq!(reactions[0].count, 2);
    assert!(reactions[0].me);
    assert_eq!(reactions[1].emoji, "🔥");
    assert!(!reactions[1].me);
    let reply = extract_reply(&d).expect("a reply");
    assert_eq!(reply.id, "9");
    assert_eq!(reply.from, "alice");
    assert_eq!(reply.body, "before");
}

#[test]
fn a_page_of_history_keeps_what_can_be_shown() {
    let page = vec![
        json(r#"{ "id": "1", "content": "one", "timestamp": "1970-01-01T00:00:07+00:00",
                  "author": { "id": "5", "username": "alice" } }"#),
        json(r#"{ "id": "2", "content": "", "author": { "id": "5", "username": "alice" } }"#),
        json(r#"{ "id": "3", "content": "three", "author": { "id": "1", "username": "me" } }"#),
    ];
    let kept = store_history_messages(&page, "1", Some("Me"));
    assert_eq!(kept.len(), 2);
    for m in &kept {
        assert!(m.id == "1" || m.id == "3");
        assert_eq!(m.is_own, m.id == "3");
    }
    let one = keep_message(&page[0], "1", None).expect("a message");
    assert_eq!(one.ts, 7);
    assert_eq!(one.from, "alice");
    assert!(keep_message(&page[1], "1", None).is_none());
}

#[test]
fn a_pinned_message_without_words_is_described() {
    let wordless = json(r#"{ "attachments": [{ "url": "https://cdn/a.png", "filename": "a.png" }] }"#);
    assert!(!describe_wordless(&wordless).is_empty());
    let row = pin_row(
        &json(r#"{ "id": "7", "content": "pinned", "author": { "id": "5", "username": "alice" } }"#),
        "b",
        "1",
        None,
    )
    .expect("a row");
    assert_eq!(row.at("id").text(), Some("7"));
    assert_eq!(row.at("body").text(), Some("pinned"));
}
