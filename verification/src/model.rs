//! Messages as they are kept: text, pictures, previews, reactions and what they reply to.
use vstd::prelude::*;
use crate::text::{maybe, views};

verus! {

/// A file on a message.
#[derive(Debug, PartialEq, Eq)]
pub struct Attachment {
    pub kind: String,
    pub filename: Option<String>,
    pub size: Option<u64>,
    pub width: Option<u32>,
    pub height: Option<u32>,
    /// Where it can be loaded from.
    pub url: Option<String>,
    /// Where a copy of it lies.
    pub path: Option<String>,
    pub mimetype: Option<String>,
    /// Where a small copy of it lies.
    pub thumbnail_path: Option<String>,
}

pub struct AttachmentV {
    pub kind: Seq<char>,
    pub filename: Option<Seq<char>>,
    pub size: Option<u64>,
    pub width: Option<u32>,
    pub height: Option<u32>,
    pub url: Option<Seq<char>>,
    pub path: Option<Seq<char>>,
    pub mimetype: Option<Seq<char>>,
    pub thumbnail_path: Option<Seq<char>>,
}

impl View for Attachment {
    type V = AttachmentV;

    open spec fn view(&self) -> AttachmentV {
        AttachmentV {
            kind: self.kind@,
            filename: maybe(self.filename),
            size: self.size,
            width: self.width,
            height: self.height,
            url: maybe(self.url),
            path: maybe(self.path),
            mimetype: maybe(self.mimetype),
            thumbnail_path: maybe(self.thumbnail_path),
        }
    }
}

impl Attachment {
    /// An attachment of its own with the same content.
    pub fn copy(&self) -> (r: Attachment)
        ensures
            r@ == self@,
    {
        Attachment {
            kind: self.kind.clone(),
            filename: crate::text::own(crate::text::lend(&self.filename)),
            size: self.size,
            width: self.width,
            height: self.height,
            url: crate::text::own(crate::text::lend(&self.url)),
            path: crate::text::own(crate::text::lend(&self.path)),
            mimetype: crate::text::own(crate::text::lend(&self.mimetype)),
            thumbnail_path: crate::text::own(crate::text::lend(&self.thumbnail_path)),
        }
    }
}

/// A link's preview.
#[derive(Debug, PartialEq, Eq)]
pub struct Embed {
    pub title: Option<String>,
    pub description: Option<String>,
    pub color: Option<i64>,
    pub timestamp: Option<String>,
    pub url: Option<String>,
}

pub struct EmbedV {
    pub title: Option<Seq<char>>,
    pub description: Option<Seq<char>>,
    pub color: Option<i64>,
    pub timestamp: Option<Seq<char>>,
    pub url: Option<Seq<char>>,
}

impl View for Embed {
    type V = EmbedV;

    open spec fn view(&self) -> EmbedV {
        EmbedV {
            title: maybe(self.title),
            description: maybe(self.description),
            color: self.color,
            timestamp: maybe(self.timestamp),
            url: maybe(self.url),
        }
    }
}

/// How often an emoji was put on a message, and whether by this account.
#[derive(Debug, PartialEq, Eq)]
pub struct Reaction {
    pub emoji: String,
    pub count: i64,
    pub me: bool,
    pub animated: bool,
}

pub struct ReactionV {
    pub emoji: Seq<char>,
    pub count: int,
    pub me: bool,
    pub animated: bool,
}

impl View for Reaction {
    type V = ReactionV;

    open spec fn view(&self) -> ReactionV {
        ReactionV {
            emoji: self.emoji@,
            count: self.count as int,
            me: self.me,
            animated: self.animated,
        }
    }
}

/// What a message replies to, as it was when the reply came.
#[derive(Debug, PartialEq, Eq)]
pub struct ReplyPreview {
    pub id: String,
    pub from: String,
    pub body: String,
    pub thread: bool,
}

pub struct ReplyPreviewV {
    pub id: Seq<char>,
    pub from: Seq<char>,
    pub body: Seq<char>,
    pub thread: bool,
}

impl View for ReplyPreview {
    type V = ReplyPreviewV;

    open spec fn view(&self) -> ReplyPreviewV {
        ReplyPreviewV { id: self.id@, from: self.from@, body: self.body@, thread: self.thread }
    }
}

/// What an optional reply is.
pub open spec fn maybe_reply(r: Option<ReplyPreview>) -> Option<ReplyPreviewV> {
    match r {
        Some(p) => Some(p@),
        None => None,
    }
}

/// A message as it is kept.
#[derive(Debug, PartialEq, Eq)]
pub struct Message {
    pub id: String,
    pub from: String,
    pub body: String,
    /// Seconds since the epoch.
    pub ts: i64,
    pub reply_to: Option<ReplyPreview>,
    pub reactions: Vec<Reaction>,
    pub is_own: bool,
    pub avatar_url: Option<String>,
    pub embeds: Vec<Embed>,
    pub attachments: Vec<Attachment>,
    pub sender_id: Option<String>,
}

pub struct MessageV {
    pub id: Seq<char>,
    pub from: Seq<char>,
    pub body: Seq<char>,
    pub ts: int,
    pub reply_to: Option<ReplyPreviewV>,
    pub reactions: Seq<ReactionV>,
    pub is_own: bool,
    pub avatar_url: Option<Seq<char>>,
    pub embeds: Seq<EmbedV>,
    pub attachments: Seq<AttachmentV>,
    pub sender_id: Option<Seq<char>>,
}

impl View for Message {
    type V = MessageV;

    open spec fn view(&self) -> MessageV {
        MessageV {
            id: self.id@,
            from: self.from@,
            body: self.body@,
            ts: self.ts as int,
            reply_to: maybe_reply(self.reply_to),
            reactions: views(self.reactions@),
            is_own: self.is_own,
            avatar_url: maybe(self.avatar_url),
            embeds: views(self.embeds@),
            attachments: views(self.attachments@),
            sender_id: maybe(self.sender_id),
        }
    }
}

} // verus!
