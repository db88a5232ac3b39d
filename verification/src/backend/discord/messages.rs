//! What a message says: its text, its pictures, previews and reactions, and what it replies to.
use vstd::prelude::*;
use crate::json::{Json, JsonV, collect, elements, flag_or, is_str, jstr, law_put_then_read, lemma_collect_step, nothing, text_or, text_or_v};
use crate::model::{Attachment, AttachmentV, Embed, EmbedV, Message, MessageV, Reaction, ReactionV, ReplyPreview, ReplyPreviewV, maybe_reply};
use crate::text::{blank, contains_text, decimal, decimal_text, has_part, is_blank, join, joined, law_replacing_goes_part_by_part, law_replacing_leaves_the_rest, line_count, maybe, maybe_str, own, replace, replaced, same, split, stands_at, starts_with, texts, views};
use super::people::{author_avatar_url, called, display_name, filled, first_of, only_filled, or_else, set_picture};

verus! {

/// The moment that a text names, in seconds since the epoch.
pub uninterp spec fn moment_of(text: Seq<char>) -> Option<i64>;

/// `chrono::DateTime::parse_from_rfc3339` and `timestamp`: the moment that a text names, in whole
/// seconds since the epoch, or nothing where the text is no RFC 3339 moment. Which texts are, and
/// what each names, is left to `chrono`.
#[verifier::external_body]
fn read_moment(text: &str) -> (r: Option<i64>)
    ensures
        r == moment_of(text@),
{
    chrono::DateTime::parse_from_rfc3339(text).ok().map(|dt| dt.timestamp())
}

/// Seconds since the epoch from the way the service writes every date.
pub fn parse_iso8601_seconds(text: &str) -> (r: Option<i64>)
    ensures
        r == moment_of(text@),
{
    read_moment(text)
}

/// The moment that a value names, or else the epoch.
pub open spec fn moment_or_epoch(value: JsonV) -> int {
    match value.text() {
        Some(t) => match moment_of(t) {
            Some(s) => s as int,
            None => 0,
        },
        None => 0,
    }
}

pub fn seconds_of(value: &Json) -> (r: i64)
    ensures
        r == moment_or_epoch(value@),
{
    match value.text() {
        Some(t) => match read_moment(t) {
            Some(s) => s,
            None => 0,
        },
        None => 0,
    }
}

/// How many lines a text has.
fn count_lines(text: &str) -> (r: usize)
    ensures
        r == line_count(text@),
{
    let parts = split(text, '\n');
    assert(texts(parts@).last() == parts@[parts@.len() - 1]@);
    assert(texts(parts@).len() == parts@.len());
    if parts[parts.len() - 1].as_str().is_empty() {
        parts.len() - 1
    } else {
        parts.len()
    }
}

/// One answer of a poll, on a line of its own; an answer without words is left out.
pub open spec fn poll_line(answer: JsonV) -> Seq<char> {
    let media = answer.at("poll_media"@);
    let text = media.at("text"@).text_or_empty();
    let emoji = media.at("emoji"@).at("name"@).text_or_empty();
    if text.len() == 0 {
        Seq::empty()
    } else if emoji.len() == 0 {
        "\n• "@ + text
    } else {
        "\n• "@ + emoji + " "@ + text
    }
}

pub open spec fn poll_lines(answers: Seq<JsonV>) -> Seq<char>
    decreases answers.len(),
{
    if answers.len() == 0 {
        Seq::empty()
    } else {
        poll_lines(answers.drop_last()) + poll_line(answers.last())
    }
}

pub open spec fn poll_text(poll: JsonV) -> Seq<char> {
    "📊 "@ + text_or_v(poll.at("question"@).at("text"@), "Poll"@) + poll_lines(
        poll.at("answers"@).items(),
    )
}

/// A poll as text, where there is one and it has more than a single line.
pub open spec fn poll_in(d: JsonV) -> Option<Seq<char>> {
    let poll = d.at("poll"@);
    if poll is Object && line_count(poll_text(poll)) > 1 {
        Some(poll_text(poll))
    } else {
        None
    }
}

/// A poll, as the text of the question and its options.
pub fn extract_poll(d: &Json) -> (r: Option<String>)
    ensures
        maybe(r) == poll_in(d@),
{
    let poll = d.at("poll");
    if poll.fields().is_none() {
        return None;
    }
    let empty: Vec<Json> = Vec::new();
    let answers = elements(poll.at("answers"), &empty);
    let ghost all = views(answers@);
    let mut out = "📊 ".to_owned();
    out.append(text_or(poll.at("question").at("text"), "Poll"));
    let ghost head = out@;
    let mut i: usize = 0;
    assert(head + poll_lines(all.take(0)) =~= head);
    while i < answers.len()
        invariant
            i <= answers.len(),
            all == views(answers@),
            out@ == head + poll_lines(all.take(i as int)),
        decreases answers.len() - i,
    {
        let media = answers[i].at("poll_media");
        let text = media.at("text").text_or_empty();
        let ghost before = out@;
        proof {
            assert(all.take(i + 1).drop_last() =~= all.take(i as int));
            assert(all.take(i + 1).last() == answers@[i as int]@);
        }
        if !text.is_empty() {
            let emoji = media.at("emoji").at("name").text_or_empty();
            out.append("\n• ");
            if !emoji.is_empty() {
                out.append(emoji);
                out.append(" ");
            }
            out.append(text);
        }
        assert(out@ =~= before + poll_line(answers@[i as int]@));
        assert(out@ =~= head + poll_lines(all.take(i + 1)));
        i += 1;
    }
    assert(all.take(i as int) =~= all);
    if count_lines(out.as_str()) > 1 {
        Some(out)
    } else {
        None
    }
}

/// A sticker as a picture; a vector animation is none.
pub open spec fn sticker_picture(sticker: JsonV) -> Option<AttachmentV> {
    let format = crate::json::i64_or(sticker.at("format_type"@), 1);
    let ending = if format == 4 {
        "gif"@
    } else {
        "png"@
    };
    match sticker.at("id"@).text() {
        Some(id) => if format == 3 {
            None
        } else {
            Some(
                AttachmentV {
                    kind: "image"@,
                    filename: Some(text_or_v(sticker.at("name"@), "sticker"@) + "."@ + ending),
                    size: None,
                    width: None,
                    height: None,
                    url: Some(
                        "https://media.discordapp.net/stickers/"@ + id + "."@ + ending,
                    ),
                    path: None,
                    mimetype: Some("image/"@ + ending),
                    thumbnail_path: None,
                },
            )
        },
        None => None,
    }
}

pub open spec fn sticker_reader() -> spec_fn(JsonV) -> Option<AttachmentV> {
    |s: JsonV| sticker_picture(s)
}

fn read_sticker(sticker: &Json) -> (r: Option<Attachment>)
    ensures
        match r {
            Some(a) => sticker_picture(sticker@) == Some(a@),
            None => sticker_picture(sticker@) is None,
        },
{
    let id = match sticker.at("id").text() {
        Some(id) => id,
        None => {
            return None;
        },
    };
    let format: i64 = match sticker.at("format_type").as_i64() {
        Some(n) => n,
        None => 1,
    };
    if format == 3 {
        return None;
    }
    let ending = if format == 4 {
        "gif"
    } else {
        "png"
    };
    let mut filename = text_or(sticker.at("name"), "sticker").to_owned();
    filename.append(".");
    filename.append(ending);
    let mut url = "https://media.discordapp.net/stickers/".to_owned();
    url.append(id);
    url.append(".");
    url.append(ending);
    Some(
        Attachment {
            kind: "image".to_owned(),
            filename: Some(filename),
            size: None,
            width: None,
            height: None,
            url: Some(url),
            path: None,
            mimetype: Some("image/".to_owned().concat(ending)),
            thumbnail_path: None,
        },
    )
}

/// The stickers on a message, as pictures.
pub fn extract_stickers(d: &Json) -> (r: Vec<Attachment>)
    ensures
        views(r@) == collect(d@.at("sticker_items"@).items(), sticker_reader()),
{
    let empty: Vec<Json> = Vec::new();
    let list = elements(d.at("sticker_items"), &empty);
    let ghost all = views(list@);
    let mut out: Vec<Attachment> = Vec::new();
    let mut i: usize = 0;
    assert(views(out@) =~= collect(all.take(0), sticker_reader()));
    while i < list.len()
        invariant
            i <= list.len(),
            all == views(list@),
            views(out@) == collect(all.take(i as int), sticker_reader()),
        decreases list.len() - i,
    {
        let ghost before = out@;
        proof {
            lemma_collect_step(all, sticker_reader(), i as int);
        }
        match read_sticker(&list[i]) {
            Some(a) => {
                out.push(a);
                assert(views(out@) =~= views(before).push(a@));
            },
            None => {},
        }
        i += 1;
    }
    assert(all.take(i as int) =~= all);
    out
}

/// The name of a sticker that cannot be drawn.
pub open spec fn undrawable(sticker: JsonV) -> Option<Seq<char>> {
    if sticker.at("format_type"@).as_i64() == Some(3int) {
        sticker.at("name"@).text()
    } else {
        None
    }
}

pub open spec fn undrawable_reader() -> spec_fn(JsonV) -> Option<Seq<char>> {
    |s: JsonV| undrawable(s)
}

/// The names of the stickers that nothing here can draw.
pub fn undrawable_sticker_names(d: &Json) -> (r: Vec<String>)
    ensures
        texts(r@) == collect(d@.at("sticker_items"@).items(), undrawable_reader()),
{
    let empty: Vec<Json> = Vec::new();
    let list = elements(d.at("sticker_items"), &empty);
    let ghost all = views(list@);
    let mut out: Vec<String> = Vec::new();
    let mut i: usize = 0;
    assert(texts(out@) =~= collect(all.take(0), undrawable_reader()));
    while i < list.len()
        invariant
            i <= list.len(),
            all == views(list@),
            texts(out@) == collect(all.take(i as int), undrawable_reader()),
        decreases list.len() - i,
    {
        let ghost before = out@;
        proof {
            lemma_collect_step(all, undrawable_reader(), i as int);
        }
        let vector = match list[i].at("format_type").as_i64() {
            Some(n) => n == 3,
            None => false,
        };
        if vector {
            match list[i].at("name").text() {
                Some(name) => {
                    out.push(name.to_owned());
                    assert(texts(out@) =~= texts(before).push(name@));
                },
                None => {},
            }
        }
        i += 1;
    }
    assert(all.take(i as int) =~= all);
    out
}

/// What kind of file a content type stands for.
pub open spec fn file_kind(mimetype: Seq<char>) -> Seq<char> {
    if "image/"@.is_prefix_of(mimetype) {
        "image"@
    } else if "video/"@.is_prefix_of(mimetype) {
        "video"@
    } else if "audio/"@.is_prefix_of(mimetype) {
        "audio"@
    } else {
        "file"@
    }
}

fn kind_of(mimetype: &str) -> (r: String)
    ensures
        r@ == file_kind(mimetype@),
{
    if starts_with(mimetype, "image/") {
        "image".to_owned()
    } else if starts_with(mimetype, "video/") {
        "video".to_owned()
    } else if starts_with(mimetype, "audio/") {
        "audio".to_owned()
    } else {
        "file".to_owned()
    }
}

/// A length in pixels: the low 32 bits of the number.
pub open spec fn pixels(value: JsonV) -> Option<u32> {
    match value.as_u64() {
        Some(n) => Some((n % 4294967296) as u32),
        None => None,
    }
}

fn read_pixels(value: &Json) -> (r: Option<u32>)
    ensures
        r == pixels(value@),
{
    match value.as_u64() {
        Some(n) => Some((n % 4294967296) as u32),
        None => None,
    }
}

/// The size in bytes that a value gives.
pub open spec fn byte_count(value: JsonV) -> Option<u64> {
    match value.as_u64() {
        Some(n) => Some(n as u64),
        None => None,
    }
}

/// A file on a message; one without an address is none.
pub open spec fn attachment_in(att: JsonV) -> Option<AttachmentV> {
    match att.at("url"@).text() {
        Some(url) => Some(
            AttachmentV {
                kind: file_kind(att.at("content_type"@).text_or_empty()),
                filename: att.at("filename"@).text(),
                size: byte_count(att.at("size"@)),
                width: pixels(att.at("width"@)),
                height: pixels(att.at("height"@)),
                url: Some(url),
                path: None,
                mimetype: att.at("content_type"@).text(),
                thumbnail_path: None,
            },
        ),
        None => None,
    }
}

pub open spec fn attachment_reader() -> spec_fn(JsonV) -> Option<AttachmentV> {
    |a: JsonV| attachment_in(a)
}

fn read_attachment(att: &Json) -> (r: Option<Attachment>)
    ensures
        match r {
            Some(a) => attachment_in(att@) == Some(a@),
            None => attachment_in(att@) is None,
        },
{
    match att.at("url").text() {
        Some(url) => Some(
            Attachment {
                kind: kind_of(att.at("content_type").text_or_empty()),
                filename: own(att.at("filename").text()),
                size: att.at("size").as_u64(),
                width: read_pixels(att.at("width")),
                height: read_pixels(att.at("height")),
                url: Some(url.to_owned()),
                path: None,
                mimetype: own(att.at("content_type").text()),
                thumbnail_path: None,
            },
        ),
        None => None,
    }
}

/// The files on a message.
pub open spec fn attachments_in(d: JsonV) -> Seq<AttachmentV> {
    collect(d.at("attachments"@).items(), attachment_reader())
}

pub fn extract_attachments(d: &Json) -> (r: Vec<Attachment>)
    ensures
        views(r@) == attachments_in(d@),
{
    let empty: Vec<Json> = Vec::new();
    let list = elements(d.at("attachments"), &empty);
    let ghost all = views(list@);
    let mut out: Vec<Attachment> = Vec::new();
    let mut i: usize = 0;
    assert(views(out@) =~= collect(all.take(0), attachment_reader()));
    while i < list.len()
        invariant
            i <= list.len(),
            all == views(list@),
            views(out@) == collect(all.take(i as int), attachment_reader()),
        decreases list.len() - i,
    {
        let ghost before = out@;
        proof {
            lemma_collect_step(all, attachment_reader(), i as int);
        }
        match read_attachment(&list[i]) {
            Some(a) => {
                out.push(a);
                assert(views(out@) =~= views(before).push(a@));
            },
            None => {},
        }
        i += 1;
    }
    assert(all.take(i as int) =~= all);
    out
}

/// The files and the stickers of a message.
pub open spec fn pictures_in(d: JsonV) -> Seq<AttachmentV> {
    attachments_in(d) + collect(d.at("sticker_items"@).items(), sticker_reader())
}

/// The files and the stickers of a message.
pub fn extract_pictures(d: &Json) -> (r: Vec<Attachment>)
    ensures
        views(r@) == pictures_in(d@),
{
    let mut out = extract_attachments(d);
    let mut stickers = extract_stickers(d);
    let ghost a = out@;
    let ghost b = stickers@;
    out.append(&mut stickers);
    assert(views(out@) =~= views(a) + views(b));
    out
}

/// A preview that says something: one with a title or a description.
pub open spec fn embed_in(embed: JsonV) -> Option<EmbedV> {
    let title = filled(embed.at("title"@).text());
    let description = filled(embed.at("description"@).text());
    if title is None && description is None {
        None
    } else {
        Some(
            EmbedV {
                title,
                description,
                color: match embed.at("color"@).as_i64() {
                    Some(n) => Some(n as i64),
                    None => None,
                },
                timestamp: embed.at("timestamp"@).text(),
                url: embed.at("url"@).text(),
            },
        )
    }
}

pub open spec fn embed_reader() -> spec_fn(JsonV) -> Option<EmbedV> {
    |e: JsonV| embed_in(e)
}

fn read_embed(embed: &Json) -> (r: Option<Embed>)
    ensures
        match r {
            Some(e) => embed_in(embed@) == Some(e@),
            None => embed_in(embed@) is None,
        },
{
    let title = only_filled(embed.at("title").text());
    let description = only_filled(embed.at("description").text());
    if title.is_none() && description.is_none() {
        return None;
    }
    Some(
        Embed {
            title: own(title),
            description: own(description),
            color: embed.at("color").as_i64(),
            timestamp: own(embed.at("timestamp").text()),
            url: own(embed.at("url").text()),
        },
    )
}

/// The previews on a message.
pub open spec fn embeds_in(d: JsonV) -> Seq<EmbedV> {
    collect(d.at("embeds"@).items(), embed_reader())
}

pub fn extract_embeds(d: &Json) -> (r: Vec<Embed>)
    ensures
        views(r@) == embeds_in(d@),
{
    let empty: Vec<Json> = Vec::new();
    let list = elements(d.at("embeds"), &empty);
    let ghost all = views(list@);
    let mut out: Vec<Embed> = Vec::new();
    let mut i: usize = 0;
    assert(views(out@) =~= collect(all.take(0), embed_reader()));
    while i < list.len()
        invariant
            i <= list.len(),
            all == views(list@),
            views(out@) == collect(all.take(i as int), embed_reader()),
        decreases list.len() - i,
    {
        let ghost before = out@;
        proof {
            lemma_collect_step(all, embed_reader(), i as int);
        }
        match read_embed(&list[i]) {
            Some(e) => {
                out.push(e);
                assert(views(out@) =~= views(before).push(e@));
            },
            None => {},
        }
        i += 1;
    }
    assert(all.take(i as int) =~= all);
    out
}

/// The address of the media that a preview carries, unless the link it was made from is in the
/// text already.
pub open spec fn embed_media(embed: JsonV, content: Seq<char>) -> Option<Seq<char>> {
    let said = match embed.at("url"@).text() {
        Some(source) => has_part(content, source),
        None => false,
    };
    if said {
        None
    } else {
        or_else(
            or_else(embed.at("video"@).at("url"@).text(), embed.at("image"@).at("url"@).text()),
            if embed.at("type"@).text() == Some("gifv"@) {
                embed.at("thumbnail"@).at("url"@).text()
            } else {
                None
            },
        )
    }
}

pub open spec fn media_reader(content: Seq<char>) -> spec_fn(JsonV) -> Option<Seq<char>> {
    |e: JsonV| embed_media(e, content)
}

fn read_media<'a>(embed: &'a Json, content: &str) -> (r: Option<&'a str>)
    ensures
        maybe_str(r) == embed_media(embed@, content@),
{
    let said = match embed.at("url").text() {
        Some(source) => contains_text(content, source),
        None => false,
    };
    if said {
        return None;
    }
    let still = if is_str(embed.at("type"), "gifv") {
        embed.at("thumbnail").at("url").text()
    } else {
        None
    };
    first_of(
        first_of(embed.at("video").at("url").text(), embed.at("image").at("url").text()),
        still,
    )
}

pub open spec fn sticker_sentence(name: Seq<char>) -> Seq<char> {
    "sent a sticker: "@ + name
}

/// The parts of a message's text: what was written, the poll, the stickers that cannot be drawn,
/// and the media of its previews.
pub open spec fn body_parts(d: JsonV) -> Seq<Seq<char>> {
    let content = d.at("content"@).text_or_empty();
    let written = if content.len() > 0 {
        seq![content]
    } else {
        Seq::empty()
    };
    let poll = match poll_in(d) {
        Some(p) => seq![p],
        None => Seq::empty(),
    };
    let names = collect(d.at("sticker_items"@).items(), undrawable_reader());
    let stickers = Seq::new(names.len(), |i: int| sticker_sentence(names[i]));
    let media = collect(d.at("embeds"@).items(), media_reader(content));
    written + poll + stickers + media
}

/// The text of a message, a line for each part; nothing where there is no part.
pub open spec fn body_in(d: JsonV) -> Option<Seq<char>> {
    if body_parts(d).len() == 0 {
        None
    } else {
        Some(joined(body_parts(d), "\n"@))
    }
}

/// The text of a message.
pub fn extract_body(d: &Json) -> (r: Option<String>)
    ensures
        maybe(r) == body_in(d@),
{
    let mut parts: Vec<String> = Vec::new();
    let content = d.at("content").text_or_empty();
    let ghost written = if content@.len() > 0 {
        seq![content@]
    } else {
        Seq::empty()
    };
    if !content.is_empty() {
        parts.push(content.to_owned());
    }
    assert(texts(parts@) =~= written);
    let ghost poll = match poll_in(d@) {
        Some(p) => seq![p],
        None => Seq::empty(),
    };
    match extract_poll(d) {
        Some(p) => {
            parts.push(p);
        },
        None => {},
    }
    assert(texts(parts@) =~= written + poll);
    let names = undrawable_sticker_names(d);
    let ghost lines = Seq::new(names@.len(), |i: int| sticker_sentence(texts(names@)[i]));
    let mut i: usize = 0;
    assert(written + poll + lines.take(0) =~= written + poll);
    while i < names.len()
        invariant
            i <= names.len(),
            lines == Seq::new(names@.len(), |i: int| sticker_sentence(texts(names@)[i])),
            texts(parts@) == written + poll + lines.take(i as int),
        decreases names.len() - i,
    {
        let ghost before = parts@;
        let line = "sent a sticker: ".to_owned().concat(names[i].as_str());
        parts.push(line);
        proof {
            assert(lines[i as int] == sticker_sentence(texts(names@)[i as int]));
            assert(texts(parts@) =~= texts(before).push(line@));
            assert(lines.take(i + 1) =~= lines.take(i as int).push(lines[i as int]));
            assert(written + poll + lines.take(i + 1) =~= (written + poll + lines.take(
                i as int,
            )).push(lines[i as int]));
        }
        i += 1;
    }
    assert(lines.take(i as int) =~= lines);
    let ghost start = written + poll + lines;
    let empty: Vec<Json> = Vec::new();
    let embeds = elements(d.at("embeds"), &empty);
    let ghost all = views(embeds@);
    let mut k: usize = 0;
    assert(start + collect(all.take(0), media_reader(content@)) =~= start);
    while k < embeds.len()
        invariant
            k <= embeds.len(),
            all == views(embeds@),
            texts(parts@) == start + collect(all.take(k as int), media_reader(content@)),
        decreases embeds.len() - k,
    {
        let ghost before = parts@;
        proof {
            lemma_collect_step(all, media_reader(content@), k as int);
        }
        match read_media(&embeds[k], content) {
            Some(url) => {
                parts.push(url.to_owned());
                proof {
                    assert(texts(parts@) =~= texts(before).push(url@));
                    assert(texts(parts@) =~= start + collect(
                        all.take(k as int),
                        media_reader(content@),
                    ).push(url@));
                }
            },
            None => {},
        }
        k += 1;
    }
    assert(all.take(k as int) =~= all);
    proof {
        let names_v = collect(d@.at("sticker_items"@).items(), undrawable_reader());
        assert(lines =~= Seq::new(names_v.len(), |i: int| sticker_sentence(names_v[i])));
        assert(texts(parts@) =~= body_parts(d@));
        assert(texts(parts@).len() == parts@.len());
    }
    if parts.len() == 0 {
        None
    } else {
        Some(join(&parts, "\n"))
    }
}

/// The text of a message, empty where it has none.
pub open spec fn body_or_empty(d: JsonV) -> Seq<char> {
    match body_in(d) {
        Some(b) => b,
        None => Seq::empty(),
    }
}

pub fn body_of(d: &Json) -> (r: String)
    ensures
        r@ == body_or_empty(d@),
{
    match extract_body(d) {
        Some(b) => b,
        None => String::new(),
    }
}

/// Whether a message carries nothing worth storing.
pub fn is_empty_message(body: &str, embeds: &Vec<Embed>, attachments: &Vec<Attachment>) -> (r: bool)
    ensures
        r == (body@.len() == 0 && embeds@.len() == 0 && attachments@.len() == 0),
{
    body.is_empty() && embeds.len() == 0 && attachments.len() == 0
}

/// Whether a message carries nothing worth storing.
pub open spec fn says_nothing(d: JsonV) -> bool {
    body_or_empty(d).len() == 0 && embeds_in(d).len() == 0 && pictures_in(d).len() == 0
}

/// What somebody who was mentioned is called: by the name set here, where it is this account, else
/// by the name they go by.
pub open spec fn mentioned_name(
    m: JsonV,
    id: Seq<char>,
    own_user_id: Seq<char>,
    own_display_name: Option<Seq<char>>,
) -> Seq<char> {
    let ours = id == own_user_id;
    match filled(own_display_name) {
        Some(name) if ours => name,
        _ => match called(m) {
            Some(name) => name,
            None => if ours {
                "you"@
            } else {
                "someone"@
            },
        },
    }
}

/// The text with one person's mentions written as their name.
pub open spec fn mention_resolved(
    body: Seq<char>,
    m: JsonV,
    own_user_id: Seq<char>,
    own_display_name: Option<Seq<char>>,
) -> Seq<char> {
    match m.at("id"@).text() {
        Some(id) => {
            let name = "@"@ + mentioned_name(m, id, own_user_id, own_display_name);
            replaced(replaced(body, "<@"@ + id + ">"@, name), "<@!"@ + id + ">"@, name)
        },
        None => body,
    }
}

/// The text with every listed person's mentions written as their names, one after another.
pub open spec fn mentions_resolved(
    body: Seq<char>,
    mentions: Seq<JsonV>,
    own_user_id: Seq<char>,
    own_display_name: Option<Seq<char>>,
) -> Seq<char>
    decreases mentions.len(),
{
    if mentions.len() == 0 {
        body
    } else {
        mention_resolved(
            mentions_resolved(body, mentions.drop_last(), own_user_id, own_display_name),
            mentions.last(),
            own_user_id,
            own_display_name,
        )
    }
}

fn name_mentioned(m: &Json, id: &str, own_user_id: &str, own_display_name: Option<&str>) -> (r: String)
    ensures
        r@ == mentioned_name(m@, id@, own_user_id@, maybe_str(own_display_name)),
{
    let ours = same(id, own_user_id);
    if ours {
        match only_filled(own_display_name) {
            Some(name) => {
                return name.to_owned();
            },
            None => {},
        }
    }
    match display_name(m) {
        Some(name) => name.to_owned(),
        None => if ours {
            "you".to_owned()
        } else {
            "someone".to_owned()
        },
    }
}

/// Writes the mentions in a text as names, by the message's own list of who is mentioned.
pub fn resolve_mentions(
    body: &str,
    d: &Json,
    own_user_id: &str,
    own_display_name: Option<&str>,
) -> (r: String)
    ensures
        r@ == mentions_resolved(
            body@,
            d@.at("mentions"@).items(),
            own_user_id@,
            maybe_str(own_display_name),
        ),
{
    let empty: Vec<Json> = Vec::new();
    let mentions = elements(d.at("mentions"), &empty);
    let ghost all = views(mentions@);
    let ghost named = maybe_str(own_display_name);
    let mut out = body.to_owned();
    let mut i: usize = 0;
    assert(all.take(0) =~= Seq::empty());
    while i < mentions.len()
        invariant
            i <= mentions.len(),
            all == views(mentions@),
            named == maybe_str(own_display_name),
            out@ == mentions_resolved(body@, all.take(i as int), own_user_id@, named),
        decreases mentions.len() - i,
    {
        let m = &mentions[i];
        proof {
            assert(all.take(i + 1).drop_last() =~= all.take(i as int));
            assert(all.take(i + 1).last() == m@);
        }
        match m.at("id").text() {
            Some(id) => {
                let who = name_mentioned(m, id, own_user_id, own_display_name);
                let name = "@".to_owned().concat(who.as_str());
                let plain = "<@".to_owned().concat(id).concat(">");
                let marked = "<@!".to_owned().concat(id).concat(">");
                let once = replace(out.as_str(), plain.as_str(), name.as_str());
                out = replace(once.as_str(), marked.as_str(), name.as_str());
            },
            None => {},
        }
        i += 1;
    }
    assert(all.take(i as int) =~= all);
    out
}

/// Whether somebody is among those mentioned.
pub open spec fn is_mentioned(d: JsonV, user_id: Seq<char>) -> bool {
    exists|i: int|
        0 <= i < d.at("mentions"@).items().len() && (#[trigger] d.at("mentions"@).items()[i]).at(
            "id"@,
        ).text() == Some(user_id)
}

/// Whether this account's own user is mentioned in a message.
pub fn mentions_own_user(d: &Json, own_user_id: &str) -> (r: bool)
    ensures
        r == is_mentioned(d@, own_user_id@),
{
    let empty: Vec<Json> = Vec::new();
    let mentions = elements(d.at("mentions"), &empty);
    let ghost all = views(mentions@);
    let mut i: usize = 0;
    while i < mentions.len()
        invariant
            i <= mentions.len(),
            all == views(mentions@),
            all == d@.at("mentions"@).items(),
            forall|j: int|
                0 <= j < i ==> (#[trigger] all[j]).at("id"@).text() != Some(own_user_id@),
        decreases mentions.len() - i,
    {
        if is_str(mentions[i].at("id"), own_user_id) {
            assert(d@.at("mentions"@).items()[i as int].at("id"@).text() == Some(own_user_id@));
            return true;
        }
        i += 1;
    }
    false
}

/// Who wrote a message.
pub open spec fn author_name(author: JsonV) -> Seq<char> {
    match called(author) {
        Some(name) => name,
        None => "unknown"@,
    }
}

pub fn author_of(author: &Json) -> (r: &str)
    ensures
        r@ == author_name(author@),
{
    match display_name(author) {
        Some(name) => name,
        None => "unknown",
    }
}

/// What a message replies to: who wrote that and what it said, where the service says.
pub open spec fn reply_in(d: JsonV) -> Option<ReplyPreviewV> {
    let referenced = d.at("referenced_message"@);
    match d.at("message_reference"@).at("message_id"@).text() {
        Some(id) => if referenced is Null {
            Some(ReplyPreviewV { id, from: Seq::empty(), body: Seq::empty(), thread: false })
        } else {
            Some(
                ReplyPreviewV {
                    id,
                    from: author_name(referenced.at("author"@)),
                    body: body_or_empty(referenced),
                    thread: false,
                },
            )
        },
        None => None,
    }
}

pub fn extract_reply(d: &Json) -> (r: Option<ReplyPreview>)
    ensures
        maybe_reply(r) == reply_in(d@),
{
    match d.at("message_reference").at("message_id").text() {
        Some(id) => {
            let referenced = d.at("referenced_message");
            if referenced.is_null() {
                Some(
                    ReplyPreview {
                        id: id.to_owned(),
                        from: String::new(),
                        body: String::new(),
                        thread: false,
                    },
                )
            } else {
                Some(
                    ReplyPreview {
                        id: id.to_owned(),
                        from: author_of(referenced.at("author")).to_owned(),
                        body: body_of(referenced),
                        thread: false,
                    },
                )
            }
        },
        None => None,
    }
}

/// How an emoji is written: one of a server's own by name and id, any other as itself.
pub open spec fn emoji_key(emoji: JsonV, name: Seq<char>) -> Seq<char> {
    match emoji.at("id"@).text() {
        Some(id) => "<:"@ + name + ":"@ + id + ">"@,
        None => name,
    }
}

pub fn write_emoji(emoji: &Json, name: &str) -> (r: String)
    ensures
        r@ == emoji_key(emoji@, name@),
{
    match emoji.at("id").text() {
        Some(id) => {
            let mut out = "<:".to_owned();
            out.append(name);
            out.append(":");
            out.append(id);
            out.append(">");
            out
        },
        None => name.to_owned(),
    }
}

/// One reaction; one without a count is none.
pub open spec fn reaction_in(r: JsonV) -> Option<ReactionV> {
    let emoji = r.at("emoji"@);
    match r.at("count"@).as_i64() {
        Some(count) => Some(
            ReactionV {
                emoji: emoji_key(emoji, text_or_v(emoji.at("name"@), "?"@)),
                count,
                me: flag_or(r.at("me"@), false),
                animated: emoji.at("id"@).text() is Some && flag_or(emoji.at("animated"@), false),
            },
        ),
        None => None,
    }
}

pub open spec fn reaction_reader() -> spec_fn(JsonV) -> Option<ReactionV> {
    |r: JsonV| reaction_in(r)
}

fn read_reaction(r: &Json) -> (out: Option<Reaction>)
    ensures
        match out {
            Some(x) => reaction_in(r@) == Some(x@),
            None => reaction_in(r@) is None,
        },
{
    let emoji = r.at("emoji");
    match r.at("count").as_i64() {
        Some(count) => {
            let me = match r.at("me").flag() {
                Some(b) => b,
                None => false,
            };
            let moves = match emoji.at("animated").flag() {
                Some(b) => b,
                None => false,
            };
            Some(
                Reaction {
                    emoji: write_emoji(emoji, text_or(emoji.at("name"), "?")),
                    count,
                    me,
                    animated: emoji.at("id").text().is_some() && moves,
                },
            )
        },
        None => None,
    }
}

/// The reactions on a message.
pub fn extract_reactions(msg: &Json) -> (r: Vec<Reaction>)
    ensures
        views(r@) == collect(msg@.at("reactions"@).items(), reaction_reader()),
{
    let empty: Vec<Json> = Vec::new();
    let list = elements(msg.at("reactions"), &empty);
    let ghost all = views(list@);
    let mut out: Vec<Reaction> = Vec::new();
    let mut i: usize = 0;
    assert(views(out@) =~= collect(all.take(0), reaction_reader()));
    while i < list.len()
        invariant
            i <= list.len(),
            all == views(list@),
            views(out@) == collect(all.take(i as int), reaction_reader()),
        decreases list.len() - i,
    {
        let ghost before = out@;
        proof {
            lemma_collect_step(all, reaction_reader(), i as int);
        }
        match read_reaction(&list[i]) {
            Some(x) => {
                out.push(x);
                assert(views(out@) =~= views(before).push(x@));
            },
            None => {},
        }
        i += 1;
    }
    assert(all.take(i as int) =~= all);
    out
}

/// A message of the service as it is kept; nothing for one without an id or without content.
pub open spec fn kept_message(
    msg: JsonV,
    user_id: Seq<char>,
    own_display_name: Option<Seq<char>>,
) -> Option<MessageV> {
    let author = msg.at("author"@);
    match msg.at("id"@).text() {
        Some(id) => if says_nothing(msg) {
            None
        } else {
            Some(
                MessageV {
                    id,
                    from: author_name(author),
                    body: mentions_resolved(
                        body_or_empty(msg),
                        msg.at("mentions"@).items(),
                        user_id,
                        own_display_name,
                    ),
                    ts: moment_or_epoch(msg.at("timestamp"@)),
                    reply_to: reply_in(msg),
                    reactions: collect(msg.at("reactions"@).items(), reaction_reader()),
                    is_own: author.at("id"@).text() == Some(user_id),
                    avatar_url: set_picture(author),
                    embeds: embeds_in(msg),
                    attachments: pictures_in(msg),
                    sender_id: author.at("id"@).text(),
                },
            )
        },
        None => None,
    }
}

/// A message of the service as it is kept.
pub fn keep_message(msg: &Json, user_id: &str, own_display_name: Option<&str>) -> (r: Option<
    Message,
>)
    ensures
        match r {
            Some(m) => kept_message(msg@, user_id@, maybe_str(own_display_name)) == Some(m@),
            None => kept_message(msg@, user_id@, maybe_str(own_display_name)) is None,
        },
{
    let id = match msg.at("id").text() {
        Some(id) => id,
        None => {
            return None;
        },
    };
    let author = msg.at("author");
    let embeds = extract_embeds(msg);
    let attachments = extract_pictures(msg);
    let body = body_of(msg);
    assert(views(embeds@).len() == embeds@.len());
    assert(views(attachments@).len() == attachments@.len());
    if is_empty_message(body.as_str(), &embeds, &attachments) {
        return None;
    }
    Some(
        Message {
            id: id.to_owned(),
            from: author_of(author).to_owned(),
            body: resolve_mentions(body.as_str(), msg, user_id, own_display_name),
            ts: seconds_of(msg.at("timestamp")),
            reply_to: extract_reply(msg),
            reactions: extract_reactions(msg),
            is_own: is_str(author.at("id"), user_id),
            avatar_url: author_avatar_url(author),
            embeds,
            attachments,
            sender_id: own(author.at("id").text()),
        },
    )
}

pub open spec fn kept_reader(user_id: Seq<char>, own_display_name: Option<Seq<char>>) -> spec_fn(
    JsonV,
) -> Option<MessageV> {
    |m: JsonV| kept_message(m, user_id, own_display_name)
}

/// The messages of a page of history, which comes newest first, in the order in which they are
/// stored: oldest first.
pub fn store_history_messages(
    messages: &Vec<Json>,
    user_id: &str,
    own_display_name: Option<&str>,
) -> (r: Vec<Message>)
    ensures
        views(r@) == collect(
            views(messages@).reverse(),
            kept_reader(user_id@, maybe_str(own_display_name)),
        ),
{
    let ghost all = views(messages@).reverse();
    let ghost reader = kept_reader(user_id@, maybe_str(own_display_name));
    let mut out: Vec<Message> = Vec::new();
    let mut i: usize = 0;
    assert(views(out@) =~= collect(all.take(0), reader));
    while i < messages.len()
        invariant
            i <= messages.len(),
            all == views(messages@).reverse(),
            reader == kept_reader(user_id@, maybe_str(own_display_name)),
            views(out@) == collect(all.take(i as int), reader),
        decreases messages.len() - i,
    {
        let ghost before = out@;
        let msg = &messages[messages.len() - 1 - i];
        proof {
            lemma_collect_step(all, reader, i as int);
            assert(all[i as int] == msg@);
        }
        match keep_message(msg, user_id, own_display_name) {
            Some(m) => {
                out.push(m);
                assert(views(out@) =~= views(before).push(m@));
            },
            None => {},
        }
        i += 1;
    }
    assert(all.take(i as int) =~= all);
    out
}

/// What to call a message that has no words in it.
pub open spec fn wordless(msg: JsonV) -> Seq<char> {
    let attachments = msg.at("attachments"@).items().len();
    let embeds = msg.at("embeds"@).items().len();
    if attachments == 0 && embeds == 0 {
        "(no text)"@
    } else if attachments == 1 {
        "(an attachment)"@
    } else if attachments > 1 {
        "("@ + decimal_text(attachments) + " attachments)"@
    } else {
        "(a link)"@
    }
}

pub fn describe_wordless(msg: &Json) -> (r: String)
    ensures
        r@ == wordless(msg@),
{
    let empty: Vec<Json> = Vec::new();
    let files = elements(msg.at("attachments"), &empty);
    let previews = elements(msg.at("embeds"), &empty);
    assert(views(files@).len() == files@.len());
    assert(views(previews@).len() == previews@.len());
    let attachments: usize = files.len();
    let embeds: usize = previews.len();
    if attachments == 0 && embeds == 0 {
        "(no text)".to_owned()
    } else if attachments == 1 {
        "(an attachment)".to_owned()
    } else if attachments > 1 {
        let number = decimal(attachments as u64);
        "(".to_owned().concat(number.as_str()).concat(" attachments)")
    } else {
        "(a link)".to_owned()
    }
}

/// A pinned message, as a row of the list.
pub open spec fn pinned_row(
    msg: JsonV,
    buffer_id: Seq<char>,
    user_id: Seq<char>,
    own_display_name: Option<Seq<char>>,
) -> Option<JsonV> {
    let body = mentions_resolved(
        body_or_empty(msg),
        msg.at("mentions"@).items(),
        user_id,
        own_display_name,
    );
    match msg.at("id"@).text() {
        Some(id) => Some(
            nothing().put("id"@, jstr(id)).put("bufferId"@, jstr(buffer_id)).put(
                "from"@,
                jstr(author_name(msg.at("author"@))),
            ).put(
                "body"@,
                jstr(
                    if is_blank(body) {
                        wordless(msg)
                    } else {
                        body
                    },
                ),
            ).put("ts"@, JsonV::Int(moment_or_epoch(msg.at("timestamp"@)))).put(
                "kind"@,
                jstr("chat"@),
            ),
        ),
        None => None,
    }
}

pub fn pin_row(msg: &Json, buffer_id: &str, user_id: &str, own_display_name: Option<&str>) -> (r:
    Option<Json>)
    ensures
        match r {
            Some(row) => pinned_row(
                msg@,
                buffer_id@,
                user_id@,
                maybe_str(own_display_name),
            ) == Some(row@),
            None => pinned_row(msg@, buffer_id@, user_id@, maybe_str(own_display_name)) is None,
        },
{
    let id = match msg.at("id").text() {
        Some(id) => id,
        None => {
            return None;
        },
    };
    let raw = body_of(msg);
    let body = resolve_mentions(raw.as_str(), msg, user_id, own_display_name);
    let words = if blank(body.as_str()) {
        describe_wordless(msg)
    } else {
        body
    };
    Some(
        Json::object().put("id", Json::string(id)).put("bufferId", Json::string(buffer_id)).put(
            "from",
            Json::string(author_of(msg.at("author"))),
        ).put("body", Json::string(words.as_str())).put(
            "ts",
            Json::Int(seconds_of(msg.at("timestamp")) as i128),
        ).put("kind", Json::string("chat")),
    )
}

/// A picture with no caption is a message: one with a file that can be loaded is never empty.
pub proof fn law_a_picture_is_a_message(d: JsonV, i: int)
    requires
        0 <= i < d.at("attachments"@).items().len(),
        d.at("attachments"@).items()[i].at("url"@) is Str,
    ensures
        !says_nothing(d),
{
    lemma_collected(d.at("attachments"@).items(), attachment_reader(), i);
}

/// A sticker is a message, drawn or not.
pub proof fn law_a_sticker_is_a_message(d: JsonV, i: int)
    requires
        0 <= i < d.at("sticker_items"@).items().len(),
        d.at("sticker_items"@).items()[i].at("id"@) is Str,
        d.at("sticker_items"@).items()[i].at("name"@) is Str,
    ensures
        !says_nothing(d),
{
    let items = d.at("sticker_items"@).items();
    let sticker = items[i];
    if sticker_picture(sticker) is Some {
        lemma_collected(items, sticker_reader(), i);
    } else {
        assert(sticker.at("format_type"@).as_i64() == Some(3int));
        lemma_collected(items, undrawable_reader(), i);
        let parts = body_parts(d);
        let names = collect(items, undrawable_reader());
        let stickers = Seq::new(names.len(), |i: int| sticker_sentence(names[i]));
        reveal_strlit("sent a sticker: ");
        assert(names.len() > 0);
        assert(stickers[0].len() > 0);
        let content = d.at("content"@).text_or_empty();
        let written = if content.len() > 0 {
            seq![content]
        } else {
            Seq::empty()
        };
        let poll = match poll_in(d) {
            Some(p) => seq![p],
            None => Seq::empty(),
        };
        let k = (written + poll).len() as int;
        assert(parts[k] == stickers[0]);
        lemma_joined_is_not_empty(parts, "\n"@, k);
    }
}

proof fn lemma_joined_is_not_empty(parts: Seq<Seq<char>>, separator: Seq<char>, i: int)
    requires
        0 <= i < parts.len(),
        parts[i].len() > 0,
    ensures
        joined(parts, separator).len() > 0,
    decreases parts.len(),
{
    if parts.len() > 1 && i < parts.len() - 1 {
        assert(parts.drop_last()[i] == parts[i]);
        lemma_joined_is_not_empty(parts.drop_last(), separator, i);
    }
}

proof fn lemma_collected<A>(items: Seq<JsonV>, read: spec_fn(JsonV) -> Option<A>, i: int)
    requires
        0 <= i < items.len(),
        read(items[i]) is Some,
    ensures
        collect(items, read).len() > 0,
    decreases items.len(),
{
    if i < items.len() - 1 {
        assert(items.drop_last()[i] == items[i]);
        lemma_collected(items.drop_last(), read, i);
    }
}

/// Whether somebody may be put in for a mention without making another: their id holds no at sign,
/// and the name that they go by opens no bracket.
pub open spec fn is_harmless(
    m: JsonV,
    own_user_id: Seq<char>,
    own_display_name: Option<Seq<char>>,
) -> bool {
    m.at("id"@) is Str ==> {
        let id = m.at("id"@)->Str_0;
        !id.contains('@') && !mentioned_name(m, id, own_user_id, own_display_name).contains('<')
    }
}

/// Two texts that mention somebody: as they are, and as a nickname.
proof fn lemma_marks(id: Seq<char>)
    ensures
        ({
            let plain = "<@"@ + id + ">"@;
            let marked = "<@!"@ + id + ">"@;
            &&& plain.len() == id.len() + 3
            &&& plain[0] == '<' && plain[1] == '@'
            &&& plain.skip(2) == id + seq!['>']
            &&& marked.len() == id.len() + 4
            &&& marked[0] == '<' && marked[1] == '@'
            &&& marked.skip(2) == seq!['!'] + id + seq!['>']
        }),
{
    reveal_strlit("<@");
    reveal_strlit("<@!");
    reveal_strlit(">");
    assert("<@"@ =~= seq!['<', '@']);
    assert("<@!"@ =~= seq!['<', '@', '!']);
    assert(">"@ =~= seq!['>']);
    assert(("<@"@ + id + ">"@).skip(2) =~= id + seq!['>']);
    assert(("<@!"@ + id + ">"@).skip(2) =~= seq!['!'] + id + seq!['>']);
}

/// Whether a text opens a mention and is one that no part of another can be put into: a bracket, an
/// at sign, and no further at sign.
spec fn is_mark(mark: Seq<char>) -> bool {
    mark.len() > 2 && mark[0] == '<' && mark[1] == '@' && !mark.skip(2).contains('@')
}

proof fn lemma_marks_are_marks(id: Seq<char>)
    requires
        !id.contains('@'),
    ensures
        is_mark("<@"@ + id + ">"@),
        is_mark("<@!"@ + id + ">"@),
{
    lemma_marks(id);
    let a = id + seq!['>'];
    let b = seq!['!'] + id + seq!['>'];
    assert forall|i: int| 0 <= i < a.len() implies a[i] != '@' by {
        if i < id.len() {
            assert(a[i] == id[i]);
            assert(id.contains(id[i]));
        }
    }
    assert forall|i: int| 0 <= i < b.len() implies b[i] != '@' by {
        if 0 < i <= id.len() {
            assert(b[i] == id[i - 1]);
            assert(id.contains(id[i - 1]));
        }
    }
}

/// A text without an at sign that stands at the front once names are put in stood there before.
proof fn lemma_front_is_literal(
    s: Seq<char>,
    mark: Seq<char>,
    name: Seq<char>,
    front: Seq<char>,
)
    requires
        mark.len() > 0,
        name.len() > 0,
        name[0] == '@',
        !front.contains('@'),
        front.is_prefix_of(replaced(s, mark, name)),
    ensures
        front.is_prefix_of(s),
    decreases front.len(),
{
    let out = replaced(s, mark, name);
    if front.len() > 0 {
        assert(front.contains(front[0]));
        assert(out[0] == front[0]);
        if s.len() >= mark.len() {
            if s.take(mark.len() as int) == mark {
                assert(out[0] == name[0]);
            } else {
                let rest = replaced(s.skip(1), mark, name);
                assert(out =~= seq![s[0]] + rest);
                assert(front.skip(1).is_prefix_of(rest)) by {
                    assert(out.subrange(0, front.len() as int) =~= front);
                    assert(rest.subrange(0, front.len() - 1) =~= front.skip(1)) by {
                        assert forall|i: int| 0 <= i < front.len() - 1 implies rest[i]
                            == front.skip(1)[i] by {
                            assert(out[i + 1] == rest[i]);
                            assert(out.subrange(0, front.len() as int)[i + 1] == front[i + 1]);
                        }
                    }
                }
                assert(!front.skip(1).contains('@')) by {
                    assert forall|i: int| 0 <= i < front.len() - 1 implies front.skip(1)[i]
                        != '@' by {
                        assert(front.contains(front[i + 1]));
                    }
                }
                lemma_front_is_literal(s.skip(1), mark, name, front.skip(1));
                assert(s.subrange(0, front.len() as int) =~= front) by {
                    assert(s.skip(1).subrange(0, front.len() - 1) =~= front.skip(1));
                    assert forall|i: int| 0 <= i < front.len() implies s[i] == front[i] by {
                        if i > 0 {
                            assert(s.skip(1).subrange(0, front.len() - 1)[i - 1] == s[i]);
                            assert(front.skip(1)[i - 1] == front[i]);
                        }
                    }
                }
            }
        }
    }
}

/// Whether no bracket is opened right before another.
spec fn opens_apart(s: Seq<char>) -> bool {
    forall|i: int| 0 <= i < s.len() - 1 ==> !(#[trigger] s[i] == '<' && s[i + 1] == '<')
}

/// Putting names in for a mark makes no other mark, and leaves none of its own.
proof fn lemma_marks_go(s: Seq<char>, mark: Seq<char>, name: Seq<char>, other: Seq<char>)
    requires
        is_mark(mark),
        is_mark(other),
        name.len() > 0,
        name[0] == '@',
        !name.contains('<'),
        opens_apart(s),
        other == mark || !has_part(s, other),
    ensures
        !has_part(replaced(s, mark, name), other),
        opens_apart(replaced(s, mark, name)),
        s.len() > 0 && replaced(s, mark, name).len() > 0 && replaced(s, mark, name)[0] == '<'
            ==> s[0] == '<',
    decreases s.len(),
{
    let out = replaced(s, mark, name);
    let n = mark.len() as int;
    if s.len() < n {
        if other == mark {
            assert forall|i: int| !stands_at(out, other, i) by {}
        }
    } else if s.take(n) == mark {
        let rest = replaced(s.skip(n), mark, name);
        assert(out =~= name + rest);
        lemma_without_front(s, other, n);
        assert(opens_apart(s.skip(n))) by {
            assert forall|i: int| 0 <= i < s.skip(n).len() - 1 implies !(#[trigger] s.skip(n)[i]
                == '<' && s.skip(n)[i + 1] == '<') by {
                assert(s[i + n] == s.skip(n)[i] && s[i + n + 1] == s.skip(n)[i + 1]);
            }
        }
        lemma_marks_go(s.skip(n), mark, name, other);
        assert forall|i: int| !stands_at(out, other, i) by {
            if stands_at(out, other, i) {
                assert(out.subrange(i, i + other.len())[0] == out[i]);
                if i < name.len() {
                    assert(out[i] == name[i]);
                    assert(name.contains(name[i]));
                } else {
                    assert(rest.subrange(i - name.len(), i - name.len() + other.len())
                        =~= out.subrange(i, i + other.len()));
                    assert(stands_at(rest, other, i - name.len()));
                }
            }
        }
        assert forall|i: int| 0 <= i < out.len() - 1 implies !(#[trigger] out[i] == '<' && out[i + 1]
            == '<') by {
            if i < name.len() {
                assert(name.contains(name[i]));
            } else {
                assert(out[i] == rest[i - name.len()] && out[i + 1] == rest[i + 1 - name.len()]);
            }
        }
    } else {
        let r = s.skip(1);
        let rest = replaced(r, mark, name);
        assert(out =~= seq![s[0]] + rest);
        lemma_without_front(s, other, 1);
        assert(opens_apart(r)) by {
            assert forall|i: int| 0 <= i < r.len() - 1 implies !(#[trigger] r[i] == '<' && r[i + 1]
                == '<') by {
                assert(s[i + 1] == r[i] && s[i + 2] == r[i + 1]);
            }
        }
        lemma_marks_go(r, mark, name, other);
        assert forall|i: int| 0 <= i < out.len() - 1 implies !(#[trigger] out[i] == '<' && out[i + 1]
            == '<') by {
            if i == 0 {
                if out[0] == '<' && out[1] == '<' {
                    assert(rest[0] == out[1]);
                    if r.len() > 0 {
                        assert(r[0] == s[1]);
                        assert(!(s[0] == '<' && s[1] == '<'));
                    } else {
                        assert(rest == r);
                    }
                }
            } else {
                assert(out[i] == rest[i - 1] && out[i + 1] == rest[i]);
            }
        }
        assert forall|i: int| !stands_at(out, other, i) by {
            if stands_at(out, other, i) {
                if i > 0 {
                    assert(rest.subrange(i - 1, i - 1 + other.len()) =~= out.subrange(
                        i,
                        i + other.len(),
                    ));
                    assert(stands_at(rest, other, i - 1));
                } else {
                    lemma_mark_is_literal(s, mark, name, other);
                    assert(s.take(other.len() as int) =~= s.subrange(0, other.len() as int));
                }
            }
        }
    }
}

/// A part that does not stand in a text does not stand in what is left without its front.
proof fn lemma_without_front(s: Seq<char>, part: Seq<char>, n: int)
    requires
        0 <= n <= s.len(),
    ensures
        !has_part(s, part) ==> !has_part(s.skip(n), part),
{
    if has_part(s.skip(n), part) {
        let i = choose|i: int| stands_at(s.skip(n), part, i);
        assert(s.subrange(i + n, i + n + part.len()) =~= s.skip(n).subrange(i, i + part.len()));
        assert(stands_at(s, part, i + n));
    }
}

/// A mark at the front, once names are put in for another that is not there, stood there before.
proof fn lemma_mark_is_literal(s: Seq<char>, mark: Seq<char>, name: Seq<char>, other: Seq<char>)
    requires
        is_mark(mark),
        is_mark(other),
        name.len() > 0,
        name[0] == '@',
        opens_apart(s),
        s.len() >= mark.len(),
        s.take(mark.len() as int) != mark,
        stands_at(replaced(s, mark, name), other, 0),
    ensures
        stands_at(s, other, 0),
{
    let out = replaced(s, mark, name);
    let r = s.skip(1);
    let rest = replaced(r, mark, name);
    let m = other.len() as int;
    assert(out =~= seq![s[0]] + rest);
    let found = out.subrange(0, m);
    assert(found == other);
    assert(found[0] == out[0] && found[1] == out[1]);
    assert(s[0] == '<' && rest[0] == '@');
    assert(r[0] == s[1]);
    assert(!(s[0] == '<' && s[1] == '<'));
    if r.len() >= mark.len() && r.take(mark.len() as int) == mark {
        assert(r.take(mark.len() as int)[0] == r[0]);
    }
    let tail = if r.len() >= mark.len() {
        replaced(r.skip(1), mark, name)
    } else {
        r.skip(1)
    };
    assert(rest =~= seq![r[0]] + tail);
    if r.len() < mark.len() {
        assert(replaced(r.skip(1), mark, name) == r.skip(1));
    }
    let w = other.skip(2);
    assert(w.is_prefix_of(tail)) by {
        assert(tail.subrange(0, w.len() as int) =~= w) by {
            assert forall|i: int| 0 <= i < w.len() implies tail[i] == w[i] by {
                assert(tail[i] == rest[i + 1]);
                assert(rest[i + 1] == out[i + 2]);
                assert(found[i + 2] == out[i + 2]);
            }
        }
    }
    lemma_front_is_literal(r.skip(1), mark, name, w);
    assert(s.subrange(0, m) =~= other) by {
        assert(r.skip(1).subrange(0, w.len() as int) =~= w);
        assert forall|i: int| 0 <= i < m implies s[i] == other[i] by {
            if i >= 2 {
                assert(r.skip(1).subrange(0, w.len() as int)[i - 2] == s[i]);
                assert(w[i - 2] == other[i]);
            }
        }
    }
}

/// Writing out the mentions of some people and then those of others is writing out those of them all.
pub proof fn law_mentions_are_written_out_in_turn(
    body: Seq<char>,
    first: Seq<JsonV>,
    then_others: Seq<JsonV>,
    own_user_id: Seq<char>,
    own_display_name: Option<Seq<char>>,
)
    ensures
        mentions_resolved(body, first + then_others, own_user_id, own_display_name)
            == mentions_resolved(
            mentions_resolved(body, first, own_user_id, own_display_name),
            then_others,
            own_user_id,
            own_display_name,
        ),
        mentions_resolved(body, Seq::empty(), own_user_id, own_display_name) == body,
    decreases then_others.len(),
{
    if then_others.len() == 0 {
        assert(first + then_others =~= first);
    } else {
        law_mentions_are_written_out_in_turn(
            body,
            first,
            then_others.drop_last(),
            own_user_id,
            own_display_name,
        );
        assert((first + then_others).drop_last() =~= first + then_others.drop_last());
        assert((first + then_others).last() == then_others.last());
    }
}

/// Of everybody listed under the mentions who has an id, whatever their place in the list, no mention
/// is left in the text: neither of them as they are nor of them as a nickname. The text opens no
/// bracket right before another, no id holds an at sign and no name put in opens a bracket, so that no
/// name completes a mention of its own.
pub proof fn law_no_listed_mention_is_left(
    body: Seq<char>,
    mentions: Seq<JsonV>,
    own_user_id: Seq<char>,
    own_display_name: Option<Seq<char>>,
)
    requires
        forall|i: int|
            0 <= i < body.len() - 1 ==> !(#[trigger] body[i] == '<' && body[i + 1] == '<'),
        forall|i: int|
            0 <= i < mentions.len() ==> is_harmless(
                #[trigger] mentions[i],
                own_user_id,
                own_display_name,
            ),
    ensures
        forall|i: int|
            0 <= i < mentions.len() && (#[trigger] mentions[i]).at("id"@) is Str ==> {
                let id = mentions[i].at("id"@)->Str_0;
                let text = mentions_resolved(body, mentions, own_user_id, own_display_name);
                !has_part(text, "<@"@ + id + ">"@) && !has_part(text, "<@!"@ + id + ">"@)
            },
{
    lemma_no_mention_left(body, mentions, own_user_id, own_display_name);
}

proof fn lemma_no_mention_left(
    body: Seq<char>,
    mentions: Seq<JsonV>,
    own_user_id: Seq<char>,
    own_display_name: Option<Seq<char>>,
)
    requires
        opens_apart(body),
        forall|i: int|
            0 <= i < mentions.len() ==> is_harmless(
                #[trigger] mentions[i],
                own_user_id,
                own_display_name,
            ),
    ensures
        opens_apart(mentions_resolved(body, mentions, own_user_id, own_display_name)),
        forall|i: int|
            0 <= i < mentions.len() && (#[trigger] mentions[i]).at("id"@) is Str ==> {
                let id = mentions[i].at("id"@)->Str_0;
                let text = mentions_resolved(body, mentions, own_user_id, own_display_name);
                !has_part(text, "<@"@ + id + ">"@) && !has_part(text, "<@!"@ + id + ">"@)
            },
    decreases mentions.len(),
{
    if mentions.len() > 0 {
        let rest = mentions.drop_last();
        let m = mentions.last();
        assert forall|i: int| 0 <= i < rest.len() implies is_harmless(
            #[trigger] rest[i],
            own_user_id,
            own_display_name,
        ) by {
            assert(rest[i] == mentions[i]);
        }
        lemma_no_mention_left(body, rest, own_user_id, own_display_name);
        let before = mentions_resolved(body, rest, own_user_id, own_display_name);
        let text = mentions_resolved(body, mentions, own_user_id, own_display_name);
        assert(is_harmless(mentions[mentions.len() - 1], own_user_id, own_display_name));
        if m.at("id"@) is Str {
            let id = m.at("id"@)->Str_0;
            let who = mentioned_name(m, id, own_user_id, own_display_name);
            let name = "@"@ + who;
            reveal_strlit("@");
            assert("@"@ =~= seq!['@']);
            assert(!name.contains('<')) by {
                assert forall|i: int| 0 <= i < name.len() implies name[i] != '<' by {
                    if i > 0 {
                        assert(name[i] == who[i - 1]);
                        assert(who.contains(who[i - 1]));
                    }
                }
            }
            let plain = "<@"@ + id + ">"@;
            let marked = "<@!"@ + id + ">"@;
            lemma_marks_are_marks(id);
            let once = replaced(before, plain, name);
            lemma_marks_go(before, plain, name, plain);
            lemma_marks_go(once, marked, name, marked);
            lemma_marks_go(once, marked, name, plain);
            assert(text == replaced(once, marked, name));
            assert forall|i: int|
                0 <= i < mentions.len() && (#[trigger] mentions[i]).at("id"@) is Str implies ({
                let other = mentions[i].at("id"@)->Str_0;
                !has_part(text, "<@"@ + other + ">"@) && !has_part(text, "<@!"@ + other + ">"@)
            }) by {
                let other = mentions[i].at("id"@)->Str_0;
                if i < rest.len() {
                    assert(rest[i] == mentions[i]);
                    assert(is_harmless(rest[i], own_user_id, own_display_name));
                    lemma_marks_are_marks(other);
                    lemma_marks_go(before, plain, name, "<@"@ + other + ">"@);
                    lemma_marks_go(before, plain, name, "<@!"@ + other + ">"@);
                    lemma_marks_go(once, marked, name, "<@"@ + other + ">"@);
                    lemma_marks_go(once, marked, name, "<@!"@ + other + ">"@);
                }
            }
        } else {
            assert forall|i: int|
                0 <= i < mentions.len() && (#[trigger] mentions[i]).at("id"@) is Str implies ({
                let other = mentions[i].at("id"@)->Str_0;
                !has_part(text, "<@"@ + other + ">"@) && !has_part(text, "<@!"@ + other + ">"@)
            }) by {
                assert(rest[i] == mentions[i]);
            }
        }
    }
}

/// What a text ends in once names are put in opens no bracket unless the text did.
proof fn lemma_last_of_replaced(s: Seq<char>, mark: Seq<char>, name: Seq<char>)
    requires
        mark.len() > 0,
        name.len() > 0,
        !name.contains('<'),
        s.len() > 0 ==> s.last() != '<',
    ensures
        replaced(s, mark, name).len() > 0 ==> replaced(s, mark, name).last() != '<',
    decreases s.len(),
{
    let n = mark.len() as int;
    if s.len() >= n {
        assert(name.contains(name.last()));
        if s.take(n) == mark {
            lemma_last_of_replaced(s.skip(n), mark, name);
            let rest = replaced(s.skip(n), mark, name);
            assert(rest.len() > 0 ==> (name + rest).last() == rest.last());
            assert(rest.len() == 0 ==> (name + rest).last() == name.last());
        } else {
            lemma_last_of_replaced(s.skip(1), mark, name);
            let rest = replaced(s.skip(1), mark, name);
            assert(rest.len() > 0 ==> (seq![s[0]] + rest).last() == rest.last());
            if rest.len() == 0 && s.len() > 1 {
                lemma_replaced_is_there(s.skip(1), mark, name);
            }
        }
    }
}

proof fn lemma_replaced_is_there(s: Seq<char>, mark: Seq<char>, name: Seq<char>)
    requires
        mark.len() > 0,
        name.len() > 0,
        s.len() > 0,
    ensures
        replaced(s, mark, name).len() > 0,
{
}

proof fn lemma_mark_signs(id: Seq<char>)
    requires
        !id.contains('<'),
        !id.contains('@'),
        !id.contains('!'),
    ensures
        ({
            let plain = "<@"@ + id + ">"@;
            let marked = "<@!"@ + id + ">"@;
            &&& forall|k: int| 0 < k < plain.len() ==> #[trigger] plain[k] != '<'
            &&& forall|k: int| 0 < k < marked.len() ==> #[trigger] marked[k] != '<'
            &&& forall|k: int| 0 <= k < marked.len() && k != 1 ==> #[trigger] marked[k] != '@'
            &&& plain[2] != '!'
            &&& marked[2] == '!'
        }),
{
    lemma_marks(id);
    let plain = "<@"@ + id + ">"@;
    let marked = "<@!"@ + id + ">"@;
    assert forall|k: int| 2 <= k < plain.len() implies #[trigger] plain[k] != '<' && plain[k]
        != '!' by {
        assert(plain[k] == plain.skip(2)[k - 2]);
        if k - 2 < id.len() {
            assert(id.contains(id[k - 2]));
        }
    }
    assert forall|k: int| 2 <= k < marked.len() implies #[trigger] marked[k] != '<' && marked[k]
        != '@' by {
        assert(marked[k] == marked.skip(2)[k - 2]);
        if 3 <= k < id.len() + 3 {
            assert(id.contains(id[k - 3]));
        }
    }
    assert(marked[2] == marked.skip(2)[0]);
    assert(plain[2] != '!');
}

/// Where somebody is mentioned, as they are or as a nickname, there stand an at sign and the name that
/// they go by, and what is before and behind is written out as it would be on its own.
pub proof fn law_a_mention_is_written_as_a_name(
    front: Seq<char>,
    back: Seq<char>,
    m: JsonV,
    own_user_id: Seq<char>,
    own_display_name: Option<Seq<char>>,
)
    requires
        m.at("id"@) is Str,
        !m.at("id"@)->Str_0.contains('<'),
        !m.at("id"@)->Str_0.contains('@'),
        !m.at("id"@)->Str_0.contains('!'),
        !mentioned_name(m, m.at("id"@)->Str_0, own_user_id, own_display_name).contains('<'),
        front.len() > 0 ==> front.last() != '<',
    ensures
        ({
            let id = m.at("id"@)->Str_0;
            let name = "@"@ + mentioned_name(m, id, own_user_id, own_display_name);
            let before = mentions_resolved(front, seq![m], own_user_id, own_display_name);
            let behind = mentions_resolved(back, seq![m], own_user_id, own_display_name);
            &&& mentions_resolved(
                front + ("<@"@ + id + ">"@) + back,
                seq![m],
                own_user_id,
                own_display_name,
            ) == before + name + behind
            &&& mentions_resolved(
                front + ("<@!"@ + id + ">"@) + back,
                seq![m],
                own_user_id,
                own_display_name,
            ) == before + name + behind
        }),
{
    let id = m.at("id"@)->Str_0;
    let who = mentioned_name(m, id, own_user_id, own_display_name);
    let name = "@"@ + who;
    let plain = "<@"@ + id + ">"@;
    let marked = "<@!"@ + id + ">"@;
    reveal_strlit("@");
    assert("@"@ =~= seq!['@']);
    assert(!name.contains('<')) by {
        assert forall|i: int| 0 <= i < name.len() implies name[i] != '<' by {
            if i > 0 {
                assert(name[i] == who[i - 1]);
                assert(who.contains(who[i - 1]));
            }
        }
    }
    lemma_marks(id);
    lemma_mark_signs(id);
    let f1 = replaced(front, plain, name);
    let b1 = replaced(back, plain, name);
    lemma_last_of_replaced(front, plain, name);
    law_replacing_goes_part_by_part(front, plain, back, name);
    let once = f1 + name + b1;
    let (fl, ml) = (f1.len() as int, marked.len() as int);
    assert forall|i: int|
        f1.len() - marked.len() < i < f1.len() + name.len() && 0 <= i implies !#[trigger] stands_at(
        once,
        marked,
        i,
    ) by {
        if stands_at(once, marked, i) {
            let found = once.subrange(i, i + ml);
            if i >= fl {
                assert(found[0] == once[i] && once[i] == name[i - fl]);
                assert(name.contains(name[i - fl]));
            } else {
                assert(found[fl - i] == once[fl] && once[fl] == name[0]);
                assert(marked[fl - i] == '@');
                assert(found[0] == once[i] && once[i] == f1[i]);
                assert(f1.last() == f1[i]);
            }
        }
    }
    law_replacing_leaves_the_rest(f1, name, b1, marked, name);
    let s = front + marked + back;
    let n = front.len() as int;
    let pl = plain.len() as int;
    assert forall|i: int|
        front.len() - plain.len() < i < front.len() + marked.len() && 0
            <= i implies !#[trigger] stands_at(s, plain, i) by {
        if stands_at(s, plain, i) {
            let found = s.subrange(i, i + pl);
            if i < n {
                assert(found[n - i] == s[n] && s[n] == marked[0]);
            } else if i == n {
                assert(found[2] == s[n + 2] && s[n + 2] == marked[2]);
            } else {
                assert(found[0] == s[i] && s[i] == marked[i - n]);
            }
        }
    }
    law_replacing_leaves_the_rest(front, marked, back, plain, name);
    law_replacing_goes_part_by_part(f1, marked, b1, name);
    assert forall|t: Seq<char>| #[trigger]
        mentions_resolved(t, seq![m], own_user_id, own_display_name) == replaced(
            replaced(t, plain, name),
            marked,
            name,
        ) by {
        assert(seq![m].drop_last() =~= Seq::empty());
        assert(seq![m].last() == m);
        assert(mentions_resolved(t, seq![m].drop_last(), own_user_id, own_display_name) == t);
    }
}

/// Somebody without an id changes nothing, and neither does somebody who is not mentioned.
pub proof fn law_text_without_mentions_is_kept(
    body: Seq<char>,
    m: JsonV,
    own_user_id: Seq<char>,
    own_display_name: Option<Seq<char>>,
)
    requires
        m.at("id"@) is Str ==> !has_part(body, "<@"@ + m.at("id"@)->Str_0 + ">"@) && !has_part(
            body,
            "<@!"@ + m.at("id"@)->Str_0 + ">"@,
        ),
    ensures
        mentions_resolved(body, seq![m], own_user_id, own_display_name) == body,
{
    assert(seq![m].drop_last() =~= Seq::empty());
    assert(seq![m].last() == m);
    assert(mentions_resolved(body, seq![m].drop_last(), own_user_id, own_display_name) == body);
    if m.at("id"@) is Str {
        let id = m.at("id"@)->Str_0;
        let name = "@"@ + mentioned_name(m, id, own_user_id, own_display_name);
        crate::text::law_replacing_nothing(body, "<@"@ + id + ">"@, name);
        crate::text::law_replacing_nothing(body, "<@!"@ + id + ">"@, name);
    }
}

/// Somebody who was mentioned goes by the name they chose, else by the one they signed up with; this
/// account goes by the name set here where there is one.
pub proof fn law_mentions_go_by_name(
    m: JsonV,
    id: Seq<char>,
    own_user_id: Seq<char>,
    own_display_name: Option<Seq<char>>,
)
    ensures
        ({
            let name = mentioned_name(m, id, own_user_id, own_display_name);
            let set_here = id == own_user_id && own_display_name is Some
                && own_display_name->0.len() > 0;
            let chosen = m.at("global_name"@).text_or_empty();
            &&& set_here ==> name == own_display_name->0
            &&& !set_here && chosen.len() > 0 ==> name == chosen
            &&& !set_here && chosen.len() == 0 && m.at("username"@) is Str ==> m.at("username"@)
                == JsonV::Str(name)
            &&& !set_here && chosen.len() == 0 && !(m.at("username"@) is Str) ==> name == (if id
                == own_user_id {
                "you"@
            } else {
                "someone"@
            })
        }),
{
}

/// Each answer of a poll adds a line with its emoji, where it has one, and its words; an answer
/// without words adds nothing.
pub proof fn law_a_poll_lists_its_answers(answers: Seq<JsonV>, last: JsonV)
    ensures
        ({
            let text = last.at("poll_media"@).at("text"@).text_or_empty();
            let emoji = last.at("poll_media"@).at("emoji"@).at("name"@).text_or_empty();
            let lines = poll_lines(answers.push(last));
            &&& text.len() == 0 ==> lines == poll_lines(answers)
            &&& text.len() > 0 && emoji.len() == 0 ==> lines == poll_lines(answers) + ("\n• "@
                + text)
            &&& text.len() > 0 && emoji.len() > 0 ==> lines == poll_lines(answers) + ("\n• "@
                + emoji + " "@ + text)
        }),
        poll_lines(Seq::empty()).len() == 0,
{
    assert(answers.push(last).drop_last() =~= answers);
    assert(answers.push(last).last() == last);
    assert(poll_lines(answers) + Seq::empty() =~= poll_lines(answers));
}

/// A poll is its question, or the word for one, and its answers, where that is more than a line.
pub proof fn law_a_poll_is_its_question_and_answers(d: JsonV)
    ensures
        ({
            let poll = d.at("poll"@);
            let question = poll.at("question"@).at("text"@);
            let asked = if question is Str {
                question->Str_0
            } else {
                "Poll"@
            };
            let text = "📊 "@ + asked + poll_lines(poll.at("answers"@).items());
            &&& poll_in(d) is Some <==> poll is Object && line_count(text) > 1
            &&& poll_in(d) is Some ==> poll_in(d)->0 == text
        }),
{
}

/// A sticker with an id is a picture unless it is a vector animation: a moving one where its format
/// says so, a still one where not, at the address of its id and under its name.
pub proof fn law_a_sticker_is_drawn(sticker: JsonV)
    ensures
        ({
            let r = sticker_picture(sticker);
            let format = sticker.at("format_type"@);
            let ending = if format == JsonV::Int(4) {
                "gif"@
            } else {
                "png"@
            };
            let name = if sticker.at("name"@) is Str {
                sticker.at("name"@)->Str_0
            } else {
                "sticker"@
            };
            &&& r is Some <==> sticker.at("id"@) is Str && format != JsonV::Int(3)
            &&& r is Some ==> {
                &&& r->0.kind == "image"@
                &&& r->0.filename == Some(name + "."@ + ending)
                &&& r->0.mimetype == Some("image/"@ + ending)
                &&& r->0.url == Some(
                    "https://media.discordapp.net/stickers/"@ + sticker.at("id"@)->Str_0 + "."@
                        + ending,
                )
                &&& r->0.size is None && r->0.width is None && r->0.height is None
                &&& r->0.path is None && r->0.thumbnail_path is None
            }
        }),
{
}

/// A sticker is drawn or named, and never both: named where it is a vector animation with a name.
pub proof fn law_a_sticker_is_drawn_or_named(sticker: JsonV)
    ensures
        undrawable(sticker) is Some <==> sticker.at("format_type"@) == JsonV::Int(3) && sticker.at(
            "name"@,
        ) is Str,
        undrawable(sticker) is Some ==> sticker.at("name"@) == JsonV::Str(undrawable(sticker)->0),
        undrawable(sticker) is Some ==> sticker_picture(sticker) is None,
{
}

/// The kind of a file is what its content type starts with, where that is a picture, a film or a
/// sound.
pub proof fn law_a_file_is_of_its_content_type(rest: Seq<char>, mimetype: Seq<char>)
    ensures
        file_kind("image/"@ + rest) == "image"@,
        file_kind("video/"@ + rest) == "video"@,
        file_kind("audio/"@ + rest) == "audio"@,
        !"image/"@.is_prefix_of(mimetype) && !"video/"@.is_prefix_of(mimetype)
            && !"audio/"@.is_prefix_of(mimetype) ==> file_kind(mimetype) == "file"@,
{
    let (a, b, c) = ("image/"@, "video/"@, "audio/"@);
    assert(a.is_prefix_of(a + rest)) by {
        assert((a + rest).subrange(0, a.len() as int) =~= a);
    }
    assert(b.is_prefix_of(b + rest)) by {
        assert((b + rest).subrange(0, b.len() as int) =~= b);
    }
    assert(c.is_prefix_of(c + rest)) by {
        assert((c + rest).subrange(0, c.len() as int) =~= c);
    }
    reveal_strlit("image/");
    reveal_strlit("video/");
    reveal_strlit("audio/");
    assert(a[0] == 'i' && b[0] == 'v' && c[0] == 'a');
    assert((a + rest)[0] == 'i' && (b + rest)[0] == 'v' && (c + rest)[0] == 'a');
    if a.is_prefix_of(b + rest) {
        assert((b + rest).subrange(0, a.len() as int)[0] == 'v');
    }
    if a.is_prefix_of(c + rest) {
        assert((c + rest).subrange(0, a.len() as int)[0] == 'a');
    }
    if b.is_prefix_of(c + rest) {
        assert((c + rest).subrange(0, b.len() as int)[0] == 'a');
    }
}

/// A file has an address, and everything that is said of it is kept; its lengths are cut to 32 bits.
pub proof fn law_a_file_is_kept_as_it_is_said(att: JsonV)
    ensures
        ({
            let r = attachment_in(att);
            &&& r is Some <==> att.at("url"@) is Str
            &&& r is Some ==> {
                &&& r->0.url == att.at("url"@).text()
                &&& r->0.filename == att.at("filename"@).text()
                &&& r->0.mimetype == att.at("content_type"@).text()
                &&& r->0.kind == file_kind(att.at("content_type"@).text_or_empty())
                &&& r->0.size is Some <==> att.at("size"@).as_u64() is Some
                &&& r->0.size is Some ==> att.at("size"@) == JsonV::Int(r->0.size->0 as int)
                &&& r->0.width is Some <==> att.at("width"@).as_u64() is Some
                &&& r->0.width is Some ==> r->0.width->0 == att.at("width"@)->Int_0 % 4294967296
                &&& r->0.height is Some <==> att.at("height"@).as_u64() is Some
                &&& r->0.height is Some ==> r->0.height->0 == att.at("height"@)->Int_0 % 4294967296
                &&& r->0.path is None && r->0.thumbnail_path is None
            }
        }),
{
}

/// A preview says something by its title or by its description, an empty one of which is none.
pub proof fn law_a_preview_says_something(embed: JsonV)
    ensures
        ({
            let r = embed_in(embed);
            let title = embed.at("title"@).text_or_empty();
            let description = embed.at("description"@).text_or_empty();
            &&& r is Some <==> title.len() > 0 || description.len() > 0
            &&& r is Some ==> {
                &&& title.len() > 0 ==> r->0.title == Some(title)
                &&& title.len() == 0 ==> r->0.title is None
                &&& description.len() > 0 ==> r->0.description == Some(description)
                &&& description.len() == 0 ==> r->0.description is None
                &&& r->0.color is Some <==> embed.at("color"@).as_i64() is Some
                &&& r->0.color is Some ==> embed.at("color"@) == JsonV::Int(r->0.color->0 as int)
                &&& r->0.timestamp == embed.at("timestamp"@).text()
                &&& r->0.url == embed.at("url"@).text()
            }
        }),
{
}

/// The media of a preview is its film, else its picture, else what stands for a moving one; and none
/// where the link that the preview was made from is in the text already.
pub proof fn law_a_preview_gives_its_media_once(embed: JsonV, content: Seq<char>)
    ensures
        ({
            let r = embed_media(embed, content);
            let said = embed.at("url"@) is Str && has_part(content, embed.at("url"@)->Str_0);
            let film = embed.at("video"@).at("url"@);
            let still = embed.at("image"@).at("url"@);
            let thumb = embed.at("thumbnail"@).at("url"@);
            &&& said ==> r is None
            &&& !said && film is Str ==> r == film.text()
            &&& !said && !(film is Str) && still is Str ==> r == still.text()
            &&& !said && !(film is Str) && !(still is Str) && embed.at("type"@) == JsonV::Str(
                "gifv"@,
            ) ==> r == thumb.text()
            &&& !said && !(film is Str) && !(still is Str) && embed.at("type"@) != JsonV::Str(
                "gifv"@,
            ) ==> r is None
        }),
{
}

/// What was written is the text of a message that has nothing else to say.
pub proof fn law_plain_text_is_the_text(d: JsonV)
    requires
        !(d.at("poll"@) is Object),
        d.at("sticker_items"@).items().len() == 0,
        d.at("embeds"@).items().len() == 0,
    ensures
        d.at("content"@).text_or_empty().len() > 0 ==> body_in(d) == Some(
            d.at("content"@).text_or_empty(),
        ),
        d.at("content"@).text_or_empty().len() == 0 ==> body_in(d) is None,
        body_or_empty(d) == d.at("content"@).text_or_empty(),
{
    let content = d.at("content"@).text_or_empty();
    if content.len() > 0 {
        assert(body_parts(d) =~= seq![content]);
    } else {
        assert(body_parts(d) =~= Seq::empty());
        assert(content =~= Seq::empty());
    }
}

/// The text of a message starts with what was written, and has in it the poll, a line for each sticker
/// that cannot be drawn, and the media of each preview; it has none where there is none of these.
pub proof fn law_a_text_says_everything(d: JsonV)
    ensures
        ({
            let content = d.at("content"@).text_or_empty();
            let names = collect(d.at("sticker_items"@).items(), |s: JsonV| undrawable(s));
            let media = collect(d.at("embeds"@).items(), |e: JsonV| embed_media(e, content));
            let r = body_in(d);
            &&& r is None <==> content.len() == 0 && poll_in(d) is None && names.len() == 0
                && media.len() == 0
            &&& content.len() > 0 ==> content.is_prefix_of(r->0)
            &&& poll_in(d) is Some ==> has_part(r->0, poll_in(d)->0)
            &&& forall|i: int|
                0 <= i < names.len() ==> has_part(r->0, "sent a sticker: "@ + #[trigger] names[i])
            &&& forall|i: int| 0 <= i < media.len() ==> has_part(r->0, #[trigger] media[i])
        }),
{
    let content = d.at("content"@).text_or_empty();
    let written = if content.len() > 0 {
        seq![content]
    } else {
        Seq::empty()
    };
    let poll = match poll_in(d) {
        Some(p) => seq![p],
        None => Seq::empty(),
    };
    let names = collect(d.at("sticker_items"@).items(), undrawable_reader());
    let stickers = Seq::new(names.len(), |i: int| sticker_sentence(names[i]));
    let media = collect(d.at("embeds"@).items(), media_reader(content));
    let parts = body_parts(d);
    assert(parts == written + poll + stickers + media);
    if content.len() > 0 {
        assert(parts[0] == content);
        crate::text::law_joining_starts_with_the_first(parts, "\n"@);
    }
    if poll_in(d) is Some {
        assert(parts[written.len() as int] == poll_in(d)->0);
        crate::text::law_joining_keeps_every_part(parts, "\n"@, written.len() as int);
    }
    assert forall|i: int| 0 <= i < names.len() implies has_part(
        body_in(d)->0,
        "sent a sticker: "@ + #[trigger] names[i],
    ) by {
        let k = written.len() + poll.len() + i;
        assert(parts[k] == stickers[i]);
        crate::text::law_joining_keeps_every_part(parts, "\n"@, k);
    }
    assert forall|i: int| 0 <= i < media.len() implies has_part(
        body_in(d)->0,
        #[trigger] media[i],
    ) by {
        let k = written.len() + poll.len() + stickers.len() + i;
        assert(parts[k] == media[i]);
        crate::text::law_joining_keeps_every_part(parts, "\n"@, k);
    }
}

/// The pictures of a message are its files and behind them its stickers.
pub proof fn law_stickers_come_behind_files(d: JsonV)
    ensures
        ({
            let files = collect(d.at("attachments"@).items(), |a: JsonV| attachment_in(a));
            let stickers = collect(d.at("sticker_items"@).items(), |s: JsonV| sticker_picture(s));
            &&& pictures_in(d).len() == files.len() + stickers.len()
            &&& pictures_in(d).take(files.len() as int) == files
            &&& pictures_in(d).skip(files.len() as int) == stickers
        }),
        says_nothing(d) <==> body_or_empty(d).len() == 0 && pictures_in(d).len() == 0 && collect(
            d.at("embeds"@).items(),
            |e: JsonV| embed_in(e),
        ).len() == 0,
{
    let files = collect(d.at("attachments"@).items(), attachment_reader());
    let stickers = collect(d.at("sticker_items"@).items(), sticker_reader());
    assert((files + stickers).take(files.len() as int) =~= files);
    assert((files + stickers).skip(files.len() as int) =~= stickers);
}

/// A reply names the message that it replies to, and where that came along who wrote it and what it
/// said.
pub proof fn law_a_reply_shows_what_it_answers(d: JsonV)
    ensures
        ({
            let r = reply_in(d);
            let id = d.at("message_reference"@).at("message_id"@);
            let said = d.at("referenced_message"@);
            let chosen = said.at("author"@).at("global_name"@).text_or_empty();
            let signed = said.at("author"@).at("username"@);
            &&& r is Some <==> id is Str
            &&& r is Some ==> {
                &&& id == JsonV::Str(r->0.id)
                &&& !r->0.thread
                &&& said is Null ==> r->0.from.len() == 0 && r->0.body.len() == 0
                &&& !(said is Null) ==> r->0.body == body_or_empty(said)
                &&& !(said is Null) && chosen.len() > 0 ==> r->0.from == chosen
                &&& !(said is Null) && chosen.len() == 0 && signed is Str ==> signed == JsonV::Str(
                    r->0.from,
                )
                &&& !(said is Null) && chosen.len() == 0 && !(signed is Str) ==> r->0.from
                    == "unknown"@
            }
        }),
{
}

/// A reaction has a count; it is this account's where that is said, moves where a server's own emoji is
/// said to, and is written as the emoji, or as its name and id where it is a server's own.
pub proof fn law_a_reaction_is_counted(r: JsonV)
    ensures
        ({
            let out = reaction_in(r);
            let emoji = r.at("emoji"@);
            let name = if emoji.at("name"@) is Str {
                emoji.at("name"@)->Str_0
            } else {
                "?"@
            };
            &&& out is Some <==> r.at("count"@).as_i64() is Some
            &&& out is Some ==> {
                &&& r.at("count"@) == JsonV::Int(out->0.count)
                &&& out->0.me == (r.at("me"@) == JsonV::Bool(true))
                &&& out->0.animated == (emoji.at("id"@) is Str && emoji.at("animated"@)
                    == JsonV::Bool(true))
                &&& !(emoji.at("id"@) is Str) ==> out->0.emoji == name
                &&& emoji.at("id"@) is Str ==> out->0.emoji == "<:"@ + name + ":"@ + emoji.at(
                    "id"@,
                )->Str_0 + ">"@
            }
        }),
{
}

/// A message is kept where it has an id and says anything, with who wrote it, what it says with its
/// mentions written out, when it was written, and all that hangs on it.
pub proof fn law_a_message_is_kept_whole(
    msg: JsonV,
    user_id: Seq<char>,
    own_display_name: Option<Seq<char>>,
)
    ensures
        ({
            let r = kept_message(msg, user_id, own_display_name);
            let author = msg.at("author"@);
            let chosen = author.at("global_name"@).text_or_empty();
            &&& r is Some <==> msg.at("id"@) is Str && !says_nothing(msg)
            &&& r is Some ==> {
                &&& msg.at("id"@) == JsonV::Str(r->0.id)
                &&& chosen.len() > 0 ==> r->0.from == chosen
                &&& chosen.len() == 0 && author.at("username"@) is Str ==> author.at("username"@)
                    == JsonV::Str(r->0.from)
                &&& chosen.len() == 0 && !(author.at("username"@) is Str) ==> r->0.from
                    == "unknown"@
                &&& r->0.body == mentions_resolved(
                    body_or_empty(msg),
                    msg.at("mentions"@).items(),
                    user_id,
                    own_display_name,
                )
                &&& r->0.is_own == (author.at("id"@) == JsonV::Str(user_id))
                &&& r->0.sender_id == author.at("id"@).text()
                &&& r->0.reply_to == reply_in(msg)
                &&& r->0.attachments == pictures_in(msg)
                &&& r->0.embeds == collect(msg.at("embeds"@).items(), |e: JsonV| embed_in(e))
                &&& r->0.reactions == collect(
                    msg.at("reactions"@).items(),
                    |x: JsonV| reaction_in(x),
                )
                &&& r->0.avatar_url == set_picture(author)
                &&& msg.at("timestamp"@) is Str && moment_of(msg.at("timestamp"@)->Str_0) is Some
                    ==> r->0.ts == moment_of(msg.at("timestamp"@)->Str_0)->0
                &&& msg.at("timestamp"@) is Str && moment_of(msg.at("timestamp"@)->Str_0) is None
                    ==> r->0.ts == 0
                &&& !(msg.at("timestamp"@) is Str) ==> r->0.ts == 0
            }
        }),
{
}

/// A message without words goes by its files, else by its link, else by having no text.
pub proof fn law_the_wordless_go_by_what_they_carry(msg: JsonV)
    ensures
        ({
            let files = msg.at("attachments"@).items().len();
            let links = msg.at("embeds"@).items().len();
            &&& files == 1 ==> wordless(msg) == "(an attachment)"@
            &&& files > 1 ==> wordless(msg) == "("@ + decimal_text(files) + " attachments)"@
            &&& files == 0 && links > 0 ==> wordless(msg) == "(a link)"@
            &&& files == 0 && links == 0 ==> wordless(msg) == "(no text)"@
        }),
{
}

/// A pinned message is a row of its conversation, with who wrote it, when, and what it says or what
/// stands for that where it says nothing.
pub proof fn law_a_pinned_message_is_a_row(
    msg: JsonV,
    buffer_id: Seq<char>,
    user_id: Seq<char>,
    own_display_name: Option<Seq<char>>,
)
    ensures
        ({
            let r = pinned_row(msg, buffer_id, user_id, own_display_name);
            let body = mentions_resolved(
                body_or_empty(msg),
                msg.at("mentions"@).items(),
                user_id,
                own_display_name,
            );
            &&& r is Some <==> msg.at("id"@) is Str
            &&& r is Some ==> {
                &&& r->0.at("id"@) == msg.at("id"@)
                &&& r->0.at("bufferId"@) == JsonV::Str(buffer_id)
                &&& r->0.at("from"@) == JsonV::Str(author_name(msg.at("author"@)))
                &&& !is_blank(body) ==> r->0.at("body"@) == JsonV::Str(body)
                &&& is_blank(body) ==> r->0.at("body"@) == JsonV::Str(wordless(msg))
                &&& r->0.at("ts"@) == JsonV::Int(moment_or_epoch(msg.at("timestamp"@)))
                &&& r->0.at("kind"@) == JsonV::Str("chat"@)
            }
        }),
{
    broadcast use law_put_then_read;

    reveal_strlit("id");
    reveal_strlit("bufferId");
    reveal_strlit("from");
    reveal_strlit("body");
    reveal_strlit("ts");
    reveal_strlit("kind");
    assert("id"@.len() == 2);
    assert("bufferId"@.len() == 8);
    assert("from"@.len() == 4);
    assert("body"@.len() == 4);
    assert("ts"@.len() == 2);
    assert("kind"@.len() == 4);
    assert("id"@[0] == 'i');
    assert("ts"@[0] == 't');
    assert("body"@[0] == 'b');
    assert("from"@[0] == 'f');
    assert("kind"@[0] == 'k');
}

/// Somebody is mentioned in a message exactly where one of those whom it lists as mentioned has their id.
pub proof fn law_who_is_listed_is_mentioned(d: JsonV, user_id: Seq<char>, i: int)
    ensures
        0 <= i < d.at("mentions"@).items().len() && d.at("mentions"@).items()[i].at("id"@)
            == JsonV::Str(user_id) ==> is_mentioned(d, user_id),
        is_mentioned(d, user_id) ==> exists|j: int|
            0 <= j < d.at("mentions"@).items().len() && (#[trigger] d.at("mentions"@).items()[j]).at(
                "id"@,
            ) == JsonV::Str(user_id),
        !(d.at("mentions"@) is List) ==> !is_mentioned(d, user_id),
{
    if is_mentioned(d, user_id) {
        let list = d.at("mentions"@).items();
        let j = choose|j: int|
            0 <= j < list.len() && (#[trigger] list[j]).at("id"@).text() == Some(user_id);
        assert(list[j].at("id"@) == JsonV::Str(user_id));
    }
}

} // verus!
