//! Signed links that lapse: which ones have, how they are signed again, and the small copies that
//! outlive them.
use vstd::prelude::*;
use crate::json::{Json, JsonV, is_str};
use crate::model::{Attachment, AttachmentV, Message, MessageV};
use crate::text_map::TextMap;
use crate::text::{byte_length, bytes_between, chars_of, comes_after, decimal, decimal_text, hex_of, holds, lemma_text_after, lend, maybe, maybe_str, own, parse_hex, replace_once, replaced_once, same, slice_text, split, split_on, starts_with, text_after, texts, views};
use super::http::{Method, Request, RequestV, asking};
use super::messages::{attachments_in, extract_attachments};

verus! {

/// The width to ask for a small copy.
pub const THUMBNAIL_WIDTH: u32 = 480;

/// How many pages of history one sweep pulls.
pub const MAX_RESIGN_FETCHES: usize = 3;

pub open spec fn is_hosted(url: Seq<char>) -> bool {
    "https://cdn.discordapp.com/"@.is_prefix_of(url)
        || "https://media.discordapp.net/"@.is_prefix_of(url)
}

/// The size of a small copy: as wide or as high as it may be, in the same proportions, and never
/// without a pixel.
pub open spec fn small_size(width: u32, height: u32) -> (int, int) {
    if width == 0 || height == 0 {
        (480, 480)
    } else if width >= height {
        (
            480,
            if height * 480 / width as int >= 1 {
                height * 480 / width as int
            } else {
                1
            },
        )
    } else {
        (
            if width * 480 / height as int >= 1 {
                width * 480 / height as int
            } else {
                1
            },
            480,
        )
    }
}

/// The address of a small copy: through the media host, at its size, moving where it moves.
pub open spec fn small_copy(url: Seq<char>, width: u32, height: u32) -> Option<Seq<char>> {
    if is_hosted(url) {
        let proxied = replaced_once(
            url,
            "https://cdn.discordapp.com/"@,
            "https://media.discordapp.net/"@,
        );
        let size = small_size(width, height);
        let mark = if proxied.contains('?') {
            "&"@
        } else {
            "?"@
        };
        Some(
            proxied + mark + "width="@ + decimal_text(size.0 as nat) + "&height="@ + decimal_text(
                size.1 as nat,
            ) + "&animated=true"@,
        )
    } else {
        None
    }
}

fn bounded(part: u32, whole: u32) -> (r: u64)
    requires
        0 < part <= whole,
    ensures
        r == (if part * 480 / whole as int >= 1 {
            part * 480 / whole as int
        } else {
            1
        }),
{
    let share: u64 = part as u64 * 480 / whole as u64;
    if share >= 1 {
        share
    } else {
        1
    }
}

fn has_question_mark(text: &str) -> (r: bool)
    ensures
        r == text@.contains('?'),
{
    let chars = chars_of(text);
    let mut i: usize = 0;
    while i < chars.len()
        invariant
            i <= chars.len(),
            chars@ == text@,
            forall|j: int| 0 <= j < i ==> text@[j] != '?',
        decreases chars.len() - i,
    {
        if chars[i] == '?' {
            assert(text@[i as int] == '?');
            return true;
        }
        i += 1;
    }
    false
}

/// The address of a small copy of a hosted picture; nothing else is copied.
pub fn thumbnail_source(url: &str, width: u32, height: u32) -> (r: Option<String>)
    ensures
        maybe(r) == small_copy(url@, width, height),
{
    if !starts_with(url, "https://cdn.discordapp.com/") && !starts_with(
        url,
        "https://media.discordapp.net/",
    ) {
        return None;
    }
    let mut out = replace_once(
        url,
        "https://cdn.discordapp.com/",
        "https://media.discordapp.net/",
    );
    let (w, h): (u64, u64) = if width == 0 || height == 0 {
        (480, 480)
    } else if width >= height {
        (480, bounded(height, width))
    } else {
        (bounded(width, height), 480)
    };
    let mark = if has_question_mark(out.as_str()) {
        "&"
    } else {
        "?"
    };
    out.append(mark);
    out.append("width=");
    let wide = decimal(w);
    out.append(wide.as_str());
    out.append("&height=");
    let high = decimal(h);
    out.append(high.as_str());
    out.append("&animated=true");
    Some(out)
}

/// A small copy is no larger than it may be, and fills that in one direction.
pub proof fn law_small_copies_keep_to_their_bounds(width: u32, height: u32)
    ensures
        1 <= small_size(width, height).0 <= 480,
        1 <= small_size(width, height).1 <= 480,
        small_size(width, height).0 == 480 || small_size(width, height).1 == 480,
{
    if 0 < height <= width {
        assert(height * 480 / width as int <= 480) by (nonlinear_arith)
            requires
                0 < height <= width,
        ;
    } else if 0 < width < height {
        assert(width * 480 / height as int <= 480) by (nonlinear_arith)
            requires
                0 < width < height,
        ;
    }
}

/// The parts of a link between its question marks and ampersands.
pub open spec fn link_parts(url: Seq<char>) -> Seq<Seq<char>>
    decreases url.len(),
{
    if url.len() == 0 {
        seq![Seq::empty()]
    } else {
        let before = link_parts(url.drop_last());
        if url.last() == '?' || url.last() == '&' {
            before.push(Seq::empty())
        } else {
            before.drop_last().push(before.last().push(url.last()))
        }
    }
}

/// What follows `ex=` in the first part that starts so.
pub open spec fn expiry_text(parts: Seq<Seq<char>>) -> Option<Seq<char>>
    decreases parts.len(),
{
    if parts.len() == 0 {
        None
    } else if "ex="@.is_prefix_of(parts[0]) {
        Some(parts[0].skip(3))
    } else {
        expiry_text(parts.skip(1))
    }
}

/// The moment at which a link lapses, in seconds since the epoch, where it says.
pub open spec fn expiry_of(url: Seq<char>) -> Option<int> {
    match expiry_text(link_parts(url)) {
        Some(t) => hex_of(t),
        None => None,
    }
}

fn split_link(url: &str) -> (r: Vec<String>)
    ensures
        texts(r@) == link_parts(url@),
{
    let chars = chars_of(url);
    let ghost all = chars@;
    let mut done: Vec<String> = Vec::new();
    let mut part = String::new();
    let mut i: usize = 0;
    assert(texts(done@).push(part@) =~= link_parts(all.take(0)));
    while i < chars.len()
        invariant
            chars@ == all,
            i <= all.len(),
            texts(done@).push(part@) == link_parts(all.take(i as int)),
        decreases all.len() - i,
    {
        let x = chars[i];
        let ghost before = done@;
        proof {
            assert(all.take(i + 1).drop_last() =~= all.take(i as int));
            assert(texts(before).push(part@).drop_last() =~= texts(before));
        }
        if x == '?' || x == '&' {
            done.push(part);
            assert(texts(done@) =~= texts(before).push(done@[before.len() as int]@));
            part = String::new();
        } else {
            part.push(x);
        }
        i += 1;
    }
    assert(all.take(i as int) =~= all);
    let ghost before = done@;
    done.push(part);
    assert(texts(done@) =~= texts(before).push(part@));
    done
}

/// Whether a link has lapsed at a moment, by the expiry it carries; one that carries none never
/// does.
pub open spec fn has_lapsed(url: Seq<char>, now: u64) -> bool {
    match expiry_of(url) {
        Some(expiry) => now >= expiry,
        None => false,
    }
}

pub fn attachment_expired(url: &str, now: u64) -> (r: bool)
    ensures
        r == has_lapsed(url@, now),
{
    let parts = split_link(url);
    let ghost all = texts(parts@);
    let mut i: usize = 0;
    assert(all.skip(0) =~= all);
    while i < parts.len()
        invariant
            i <= parts.len(),
            all == texts(parts@),
            all == link_parts(url@),
            expiry_text(all) == expiry_text(all.skip(i as int)),
        decreases parts.len() - i,
    {
        assert(all.skip(i as int)[0] == parts@[i as int]@);
        if starts_with(parts[i].as_str(), "ex=") {
            let chars = chars_of(parts[i].as_str());
            proof {
                reveal_strlit("ex=");
                assert(chars@.len() >= 3);
            }
            let digits = slice_text(&chars, 3, chars.len());
            assert(digits@ =~= parts@[i as int]@.skip(3));
            return match parse_hex(digits.as_str()) {
                Some(expiry) => now >= expiry,
                None => false,
            };
        }
        assert(all.skip(i as int).skip(1) =~= all.skip(i + 1));
        i += 1;
    }
    false
}

/// Whether any of a message's links has lapsed.
pub open spec fn is_stale(message: MessageV, now: u64) -> bool {
    exists|i: int|
        0 <= i < message.attachments.len() && match (#[trigger] message.attachments[i]).url {
            Some(url) => has_lapsed(url, now),
            None => false,
        }
}

fn stale(message: &Message, now: u64) -> (r: bool)
    ensures
        r == is_stale(message@, now),
{
    let ghost all = message@.attachments;
    let mut i: usize = 0;
    while i < message.attachments.len()
        invariant
            i <= message.attachments.len(),
            all == views(message.attachments@),
            all == message@.attachments,
            forall|j: int|
                0 <= j < i ==> !(match (#[trigger] all[j]).url {
                    Some(url) => has_lapsed(url, now),
                    None => false,
                }),
        decreases message.attachments.len() - i,
    {
        let lapsed = match &message.attachments[i].url {
            Some(url) => attachment_expired(url.as_str(), now),
            None => false,
        };
        if lapsed {
            assert(match message@.attachments[i as int].url {
                Some(url) => has_lapsed(url, now),
                None => false,
            });
            return true;
        }
        assert(!(match all[i as int].url {
            Some(url) => has_lapsed(url, now),
            None => false,
        }));
        i += 1;
    }
    false
}

/// Whether an id is newer than another: a longer one is, and of two as long the one that comes
/// later in the order of their characters.
pub open spec fn newer(a: Seq<char>, b: Seq<char>) -> bool {
    byte_length(a) > byte_length(b) || (byte_length(a) == byte_length(b) && text_after(a, b))
}

fn is_newer(a: &str, b: &str) -> (r: bool)
    ensures
        r == newer(a@, b@),
{
    let x = chars_of(a);
    let y = chars_of(b);
    assert(x@.subrange(0, x@.len() as int) =~= x@);
    assert(y@.subrange(0, y@.len() as int) =~= y@);
    let m: u128 = bytes_between(&x, 0, x.len());
    let n: u128 = bytes_between(&y, 0, y.len());
    m > n || (m == n && comes_after(&x, &y))
}

/// A list from the newest id down with one more, before every older one at its end.
pub open spec fn insert_newest(list: Seq<Seq<char>>, id: Seq<char>) -> Seq<Seq<char>>
    decreases list.len(),
{
    if list.len() == 0 || !newer(id, list.last()) {
        list.push(id)
    } else {
        insert_newest(list.drop_last(), id).push(list.last())
    }
}

/// The stale messages of a page, the newest first.
pub open spec fn stale_ids(messages: Seq<MessageV>, now: u64) -> Seq<Seq<char>>
    decreases messages.len(),
{
    if messages.len() == 0 {
        Seq::empty()
    } else {
        let before = stale_ids(messages.drop_last(), now);
        if is_stale(messages.last(), now) {
            insert_newest(before, messages.last().id)
        } else {
            before
        }
    }
}

proof fn lemma_insert_newest(list: Seq<Seq<char>>, id: Seq<char>, i: int)
    requires
        0 <= i <= list.len(),
        i == 0 || !newer(id, list[i - 1]),
        forall|j: int| i <= j < list.len() ==> newer(id, #[trigger] list[j]),
    ensures
        insert_newest(list, id) == list.insert(i, id),
    decreases list.len(),
{
    if list.len() == i {
        assert(list.insert(i, id) =~= list.push(id));
    } else {
        assert(list.last() == list[list.len() - 1]);
        lemma_insert_newest(list.drop_last(), id, i);
        assert(list.drop_last().insert(i, id).push(list.last()) =~= list.insert(i, id));
    }
}

/// Which messages of a page carry a lapsed link, the newest first.
pub fn stale_message_ids(messages: &Vec<Message>, now: u64) -> (r: Vec<String>)
    ensures
        texts(r@) == stale_ids(views(messages@), now),
{
    let ghost all = views(messages@);
    let mut out: Vec<String> = Vec::new();
    let mut i: usize = 0;
    assert(texts(out@) =~= stale_ids(all.take(0), now));
    while i < messages.len()
        invariant
            i <= messages.len(),
            all == views(messages@),
            texts(out@) == stale_ids(all.take(i as int), now),
        decreases messages.len() - i,
    {
        proof {
            assert(all.take(i + 1).drop_last() =~= all.take(i as int));
            assert(all.take(i + 1).last() == messages@[i as int]@);
        }
        if stale(&messages[i], now) {
            let id = messages[i].id.clone();
            let ghost before = out@;
            let mut k: usize = out.len();
            while k > 0 && is_newer(id.as_str(), out[k - 1].as_str())
                invariant
                    out@ == before,
                    k <= out.len(),
                    forall|j: int| k <= j < out.len() ==> newer(id@, #[trigger] out@[j]@),
                decreases k,
            {
                k -= 1;
            }
            proof {
                assert forall|j: int| k <= j < texts(before).len() implies newer(
                    id@,
                    #[trigger] texts(before)[j],
                ) by {
                    assert(newer(id@, out@[j]@));
                }
                if k > 0 {
                    assert(!newer(id@, texts(before)[k - 1]));
                }
                lemma_insert_newest(texts(before), id@, k as int);
            }
            out.insert(k, id);
            assert(texts(out@) =~= texts(before).insert(k as int, id@));
        }
        i += 1;
    }
    assert(all.take(i as int) =~= all);
    out
}

proof fn lemma_newer_transitive(a: Seq<char>, b: Seq<char>, c: Seq<char>)
    ensures
        newer(a, b) && newer(b, c) ==> newer(a, c),
        newer(a, b) ==> !newer(b, a),
        !newer(a, b) && !newer(b, a) ==> a == b,
{
    lemma_text_after(a, b, c);
}

proof fn lemma_insert_newest_sorted(list: Seq<Seq<char>>, id: Seq<char>)
    requires
        forall|i: int, j: int|
            0 <= i < j < list.len() ==> !newer(#[trigger] list[j], #[trigger] list[i]),
    ensures
        ({
            let r = insert_newest(list, id);
            &&& forall|i: int, j: int|
                0 <= i < j < r.len() ==> !newer(#[trigger] r[j], #[trigger] r[i])
            &&& r.to_multiset() == list.to_multiset().insert(id)
            &&& forall|i: int| 0 <= i < r.len() ==> #[trigger] r[i] == id || list.contains(r[i])
        }),
    decreases list.len(),
{
    broadcast use vstd::seq_lib::group_to_multiset_ensures;

    let r = insert_newest(list, id);
    if list.len() == 0 || !newer(id, list.last()) {
        assert(r.to_multiset() =~= list.to_multiset().insert(id));
        assert forall|i: int| 0 <= i < r.len() implies #[trigger] r[i] == id || list.contains(
            r[i],
        ) by {
            if i < list.len() {
                assert(list[i] == r[i]);
            }
        }
        assert forall|i: int, j: int| 0 <= i < j < r.len() implies !newer(
            #[trigger] r[j],
            #[trigger] r[i],
        ) by {
            if j == list.len() {
                let last = list[list.len() - 1];
                assert(i == list.len() - 1 || !newer(last, list[i]));
                lemma_newer_transitive(id, list[i], last);
                lemma_newer_transitive(list[i], last, id);
                lemma_newer_transitive(last, id, list[i]);
                if newer(id, list[i]) {
                    if newer(list[i], last) {
                        assert(newer(id, last));
                    } else {
                        lemma_newer_transitive(list[i], last, list[i]);
                        assert(list[i] == last);
                    }
                }
            }
        }
    } else {
        let rest = list.drop_last();
        let last = list.last();
        lemma_insert_newest_sorted(rest, id);
        let q = insert_newest(rest, id);
        assert(list =~= rest.push(last));
        assert(r.to_multiset() =~= list.to_multiset().insert(id));
        assert forall|i: int| 0 <= i < r.len() implies #[trigger] r[i] == id || list.contains(
            r[i],
        ) by {
            if i < q.len() {
                assert(r[i] == q[i]);
                if q[i] != id {
                    let k = choose|k: int| 0 <= k < rest.len() && rest[k] == q[i];
                    assert(list[k] == q[i]);
                }
            } else {
                assert(list[list.len() - 1] == r[i]);
            }
        }
        assert forall|i: int, j: int| 0 <= i < j < r.len() implies !newer(
            #[trigger] r[j],
            #[trigger] r[i],
        ) by {
            if j < q.len() {
                assert(!newer(q[j], q[i]));
            } else {
                assert(r[i] == q[i]);
                if q[i] != id {
                    let k = choose|k: int| 0 <= k < rest.len() && rest[k] == q[i];
                    assert(!newer(list[list.len() - 1], list[k]));
                } else {
                    lemma_newer_transitive(id, last, id);
                }
            }
        }
    }
}

proof fn lemma_stale_ids(messages: Seq<MessageV>, now: u64)
    ensures
        forall|i: int, j: int|
            0 <= i < j < stale_ids(messages, now).len() ==> !newer(
                #[trigger] stale_ids(messages, now)[j],
                #[trigger] stale_ids(messages, now)[i],
            ),
    decreases messages.len(),
{
    if messages.len() > 0 {
        let before = stale_ids(messages.drop_last(), now);
        let after = stale_ids(messages, now);
        lemma_stale_ids(messages.drop_last(), now);
        if is_stale(messages.last(), now) {
            lemma_insert_newest_sorted(before, messages.last().id);
            assert(after == insert_newest(before, messages.last().id));
        } else {
            assert(after == before);
        }
        assert forall|i: int, j: int| 0 <= i < j < after.len() implies !newer(
            #[trigger] after[j],
            #[trigger] after[i],
        ) by {}
    }
}

/// Stale messages come the newest first.
pub proof fn law_stale_ids_come_newest_first(messages: Seq<MessageV>, now: u64, i: int, j: int)
    requires
        0 <= i < j < stale_ids(messages, now).len(),
    ensures
        !newer(stale_ids(messages, now)[j], stale_ids(messages, now)[i]),
{
    lemma_stale_ids(messages, now);
}

proof fn lemma_stale_exactly(messages: Seq<MessageV>, now: u64, id: Seq<char>)
    ensures
        stale_ids(messages, now).contains(id) <==> exists|i: int|
            0 <= i < messages.len() && (#[trigger] messages[i]).id == id && is_stale(
                messages[i],
                now,
            ),
    decreases messages.len(),
{
    broadcast use vstd::seq_lib::group_to_multiset_ensures;

    if messages.len() > 0 {
        let rest = messages.drop_last();
        lemma_stale_exactly(rest, now, id);
        lemma_stale_ids(rest, now);
        let before = stale_ids(rest, now);
        assert(messages[messages.len() - 1] == messages.last());
        if is_stale(messages.last(), now) {
            let r = insert_newest(before, messages.last().id);
            lemma_insert_newest_sorted(before, messages.last().id);
            assert(r.contains(id) == (r.to_multiset().count(id) > 0));
            assert(before.contains(id) == (before.to_multiset().count(id) > 0));
        }
        if exists|i: int| 0 <= i < rest.len() && (#[trigger] rest[i]).id == id && is_stale(rest[i], now) {
            let i = choose|i: int|
                0 <= i < rest.len() && (#[trigger] rest[i]).id == id && is_stale(rest[i], now);
            assert(messages[i] == rest[i]);
        }
        if exists|i: int|
            0 <= i < messages.len() && (#[trigger] messages[i]).id == id && is_stale(messages[i], now) {
            let i = choose|i: int|
                0 <= i < messages.len() && (#[trigger] messages[i]).id == id && is_stale(
                    messages[i],
                    now,
                );
            if i < rest.len() {
                assert(rest[i] == messages[i]);
            }
        }
    }
}

/// The ids that come out are those of the messages with a lapsed link, and no others.
pub proof fn law_stale_ids_are_exactly_the_stale_messages(
    messages: Seq<MessageV>,
    now: u64,
    id: Seq<char>,
)
    ensures
        stale_ids(messages, now).contains(id) <==> exists|i: int|
            0 <= i < messages.len() && (#[trigger] messages[i]).id == id && is_stale(
                messages[i],
                now,
            ),
{
    lemma_stale_exactly(messages, now, id);
}

/// A message whose files all lie here is never stale.
pub proof fn law_local_files_never_lapse(message: MessageV, now: u64)
    requires
        forall|i: int| 0 <= i < message.attachments.len() ==> (#[trigger] message.attachments[i]).url is None,
    ensures
        !is_stale(message, now),
{
}

/// The attachments with the small copies that were kept of the earlier ones, place by place.
pub open spec fn with_kept_copies(fresh: Seq<AttachmentV>, old: Option<Seq<AttachmentV>>) -> Seq<
    AttachmentV,
> {
    match old {
        Some(earlier) => Seq::new(
            fresh.len(),
            |i: int|
                if i < earlier.len() && fresh[i].thumbnail_path is None {
                    AttachmentV { thumbnail_path: earlier[i].thumbnail_path, ..fresh[i] }
                } else {
                    fresh[i]
                },
        ),
        None => fresh,
    }
}

pub open spec fn maybe_views(list: Option<&Vec<Attachment>>) -> Option<Seq<AttachmentV>> {
    match list {
        Some(l) => Some(views(l@)),
        None => None,
    }
}

/// Carries the small copies of a message's earlier attachments over to the fresh ones.
pub fn merge_cached_thumbnails(attachments: Vec<Attachment>, old: Option<&Vec<Attachment>>) -> (r:
    Vec<Attachment>)
    ensures
        views(r@) == with_kept_copies(views(attachments@), maybe_views(old)),
{
    let earlier = match old {
        Some(earlier) => earlier,
        None => {
            return attachments;
        },
    };
    let ghost fresh = views(attachments@);
    let ghost past = views(earlier@);
    let mut out: Vec<Attachment> = Vec::new();
    let mut i: usize = 0;
    while i < attachments.len()
        invariant
            i <= attachments.len(),
            fresh == views(attachments@),
            past == views(earlier@),
            out.len() == i,
            forall|j: int|
                0 <= j < i ==> (#[trigger] out@[j])@ == with_kept_copies(fresh, Some(past))[j],
        decreases attachments.len() - i,
    {
        let mut a = attachments[i].copy();
        if i < earlier.len() && a.thumbnail_path.is_none() {
            a.thumbnail_path = own(lend(&earlier[i].thumbnail_path));
        }
        assert(a@ == with_kept_copies(fresh, Some(past))[i as int]);
        out.push(a);
        i += 1;
    }
    assert(views(out@) =~= with_kept_copies(fresh, Some(past)));
    out
}

/// Where a small copy of an attachment is to be fetched from, where it wants one.
pub open spec fn copy_source(a: AttachmentV) -> Option<Seq<char>> {
    match a.url {
        Some(url) => if a.kind == "image"@ && a.thumbnail_path is None {
            small_copy(
                url,
                match a.width {
                    Some(w) => w,
                    None => 0,
                },
                match a.height {
                    Some(h) => h,
                    None => 0,
                },
            )
        } else {
            None
        },
        None => None,
    }
}

/// Where small copies of a message's attachments are to be fetched from, place by place.
pub fn cache_thumbnails(attachments: &Vec<Attachment>) -> (r: Vec<Option<String>>)
    ensures
        r@.len() == attachments@.len(),
        forall|i: int|
            0 <= i < r@.len() ==> maybe(#[trigger] r@[i]) == copy_source(attachments@[i]@),
{
    let mut out: Vec<Option<String>> = Vec::new();
    let mut i: usize = 0;
    while i < attachments.len()
        invariant
            i <= attachments.len(),
            out.len() == i,
            forall|j: int|
                0 <= j < i ==> maybe(#[trigger] out@[j]) == copy_source(attachments@[j]@),
        decreases attachments.len() - i,
    {
        let a = &attachments[i];
        let source = if same(a.kind.as_str(), "image") && a.thumbnail_path.is_none() {
            match &a.url {
                Some(url) => {
                    let width: u32 = match a.width {
                        Some(w) => w,
                        None => 0,
                    };
                    let height: u32 = match a.height {
                        Some(h) => h,
                        None => 0,
                    };
                    thumbnail_source(url.as_str(), width, height)
                },
                None => None,
            }
        } else {
            None
        };
        out.push(source);
        i += 1;
    }
    out
}

/// The SHA-256 digest of some bytes.
pub uninterp spec fn sha256_of(bytes: Seq<u8>) -> Seq<u8>;

/// `sha2::Sha256`: the digest of some bytes. What it is for which bytes is left to `sha2`.
#[verifier::external_body]
pub(crate) fn sha256(bytes: &[u8]) -> (r: Vec<u8>)
    ensures
        r@ == sha256_of(bytes@),
{
    <sha2::Sha256 as sha2::Digest>::digest(bytes).to_vec()
}

/// Bytes written out, two hexadecimal digits each.
pub open spec fn hex_bytes(bytes: Seq<u8>) -> Seq<char>
    decreases bytes.len(),
{
    if bytes.len() == 0 {
        Seq::empty()
    } else {
        hex_bytes(bytes.drop_last()).push(crate::text::hex_char((bytes.last() / 16) as int)).push(
            crate::text::hex_char((bytes.last() % 16) as int),
        )
    }
}

fn hex_digit_char(d: u8) -> (r: char)
    requires
        d < 16,
    ensures
        r == crate::text::hex_char(d as int),
{
    if d < 10 {
        (48u8 + d) as char
    } else {
        (87u8 + d) as char
    }
}

/// Bytes written out, two hexadecimal digits each.
pub fn write_hex(bytes: &Vec<u8>) -> (r: String)
    ensures
        r@ == hex_bytes(bytes@),
{
    let mut out = String::new();
    let mut i: usize = 0;
    assert(out@ =~= hex_bytes(bytes@.take(0)));
    while i < bytes.len()
        invariant
            i <= bytes.len(),
            out@ == hex_bytes(bytes@.take(i as int)),
        decreases bytes.len() - i,
    {
        assert(bytes@.take(i + 1).drop_last() =~= bytes@.take(i as int));
        let b: u8 = bytes[i];
        out.push(hex_digit_char(b / 16));
        out.push(hex_digit_char(b % 16));
        i += 1;
    }
    assert(bytes@.take(i as int) =~= bytes@);
    out
}

/// The name under which a small copy is kept: by the link without its signature, which changes
/// each time it is signed.
pub fn thumbnail_key(url: &str) -> (r: String)
    ensures
        r@ == hex_bytes(sha256_of(vstd::utf8::encode_utf8(split_on(url@, '?')[0]))),
{
    let parts = split(url, '?');
    assert(texts(parts@)[0] == parts@[0]@);
    let digest = sha256(parts[0].as_str().as_bytes());
    write_hex(&digest)
}

/// A sweep that signs lapsed links again: the messages still to be covered and how many pages
/// were read.
pub struct Resign {
    pub stale: Vec<String>,
    pub fetches: usize,
}

/// What a page holds of a message that was stale.
#[derive(Debug, PartialEq, Eq)]
pub struct Renewed {
    pub id: String,
    pub attachments: Vec<Attachment>,
}

pub struct RenewedV {
    pub id: Seq<char>,
    pub attachments: Seq<AttachmentV>,
}

impl View for Renewed {
    type V = RenewedV;

    open spec fn view(&self) -> RenewedV {
        RenewedV { id: self.id@, attachments: views(self.attachments@) }
    }
}

/// The stale messages among those of a page that still have attachments, as the page has them.
pub open spec fn renewals(page: Seq<JsonV>, stale: Seq<Seq<char>>) -> Seq<RenewedV>
    decreases page.len(),
{
    if page.len() == 0 {
        Seq::empty()
    } else {
        let before = renewals(page.drop_last(), stale);
        let last = page.last();
        match last.at("id"@).text() {
            Some(id) => if stale.contains(id) && attachments_in(last).len() > 0 {
                before.push(RenewedV { id, attachments: attachments_in(last) })
            } else {
                before
            },
            None => before,
        }
    }
}

/// Whether a page holds a message.
pub open spec fn covers(page: Seq<JsonV>, id: Seq<char>) -> bool {
    exists|i: int| 0 <= i < page.len() && (#[trigger] page[i]).at("id"@).text() == Some(id)
}

/// The stale messages that a page does not hold.
pub open spec fn uncovered(stale: Seq<Seq<char>>, page: Seq<JsonV>) -> Seq<Seq<char>>
    decreases stale.len(),
{
    if stale.len() == 0 {
        Seq::empty()
    } else {
        let before = uncovered(stale.drop_last(), page);
        if covers(page, stale.last()) {
            before
        } else {
            before.push(stale.last())
        }
    }
}

fn page_covers(page: &Vec<Json>, id: &str) -> (r: bool)
    ensures
        r == covers(views(page@), id@),
{
    let ghost all = views(page@);
    let mut i: usize = 0;
    while i < page.len()
        invariant
            i <= page.len(),
            all == views(page@),
            forall|j: int| 0 <= j < i ==> (#[trigger] all[j]).at("id"@).text() != Some(id@),
        decreases page.len() - i,
    {
        if is_str(page[i].at("id"), id) {
            assert(all[i as int].at("id"@).text() == Some(id@));
            return true;
        }
        i += 1;
    }
    false
}

/// Whether no message of a page has an id.
pub open spec fn is_blind(page: Seq<JsonV>) -> bool {
    forall|i: int| 0 <= i < page.len() ==> (#[trigger] page[i]).at("id"@).text() is None
}

impl Resign {
    pub open spec fn ids(&self) -> Seq<Seq<char>> {
        texts(self.stale@)
    }

    /// A sweep over the stale messages, the newest first.
    pub fn new(stale: Vec<String>) -> (r: Resign)
        ensures
            r.ids() == texts(stale@),
            r.fetches == 0,
    {
        Resign { stale, fetches: 0 }
    }

    /// The message to read a page around, while there is one and pages are left.
    pub fn anchor(&self) -> (r: Option<&str>)
        ensures
            maybe_str(r) == (if self.fetches < MAX_RESIGN_FETCHES && self.ids().len() > 0 {
                Some(self.ids()[0])
            } else {
                None
            }),
    {
        assert(self.ids().len() == self.stale@.len());
        if self.fetches < MAX_RESIGN_FETCHES && self.stale.len() > 0 {
            assert(self.ids()[0] == self.stale@[0]@);
            Some(self.stale[0].as_str())
        } else {
            None
        }
    }

    /// Takes a page that was read: which messages it renews, and whether the sweep is to go on.
    /// Everything that the page holds is covered, also what it no longer has attachments for.
    pub fn run_resign(&mut self, page: &Vec<Json>) -> (r: (Vec<Renewed>, bool))
        requires
            old(self).fetches < MAX_RESIGN_FETCHES,
        ensures
            views(r.0@) == renewals(views(page@), old(self).ids()),
            final(self).ids() == uncovered(old(self).ids(), views(page@)),
            final(self).fetches == old(self).fetches + 1,
            r.1 == (final(self).fetches < MAX_RESIGN_FETCHES && final(self).ids().len() > 0
                && !is_blind(views(page@))),
    {
        let ghost all = views(page@);
        let ghost ids = self.ids();
        let mut renewed: Vec<Renewed> = Vec::new();
        let mut blind = true;
        let mut i: usize = 0;
        assert(views(renewed@) =~= renewals(all.take(0), ids));
        while i < page.len()
            invariant
                i <= page.len(),
                all == views(page@),
                ids == self.ids(),
                self.fetches == old(self).fetches,
                self.ids() == old(self).ids(),
                views(renewed@) == renewals(all.take(i as int), ids),
                blind == (forall|j: int|
                    0 <= j < i ==> (#[trigger] all[j]).at("id"@).text() is None),
            decreases page.len() - i,
        {
            let message = &page[i];
            let ghost before = renewed@;
            proof {
                assert(all.take(i + 1).drop_last() =~= all.take(i as int));
                assert(all.take(i + 1).last() == message@);
                assert(all[i as int] == message@);
            }
            match message.at("id").text() {
                Some(id) => {
                    blind = false;
                    if holds(&self.stale, id) {
                        let attachments = extract_attachments(message);
                        assert(views(attachments@).len() == attachments@.len());
                        if attachments.len() > 0 {
                            let x = Renewed { id: id.to_owned(), attachments };
                            renewed.push(x);
                            assert(views(renewed@) =~= views(before).push(x@));
                        }
                    }
                },
                None => {},
            }
            i += 1;
        }
        assert(all.take(i as int) =~= all);
        let mut rest: Vec<String> = Vec::new();
        let mut k: usize = 0;
        assert(texts(rest@) =~= uncovered(ids.take(0), all));
        while k < self.stale.len()
            invariant
                k <= self.stale.len(),
                all == views(page@),
                ids == self.ids(),
                self.fetches == old(self).fetches,
                texts(rest@) == uncovered(ids.take(k as int), all),
            decreases self.stale.len() - k,
        {
            let ghost before = rest@;
            proof {
                assert(ids.take(k + 1).drop_last() =~= ids.take(k as int));
                assert(ids.take(k + 1).last() == self.stale@[k as int]@);
            }
            if !page_covers(page, self.stale[k].as_str()) {
                rest.push(self.stale[k].clone());
                assert(texts(rest@) =~= texts(before).push(self.stale@[k as int]@));
            }
            k += 1;
        }
        assert(ids.take(k as int) =~= ids);
        self.stale = rest;
        self.fetches = self.fetches + 1;
        assert(self.ids().len() == self.stale@.len());
        let more = self.fetches < MAX_RESIGN_FETCHES && self.stale.len() > 0 && !blind;
        (renewed, more)
    }
}

/// A page that holds the message it was read around moves the sweep on: that message is covered,
/// and nothing comes back that was covered before.
pub proof fn law_a_page_moves_the_sweep_on(stale: Seq<Seq<char>>, page: Seq<JsonV>, id: Seq<char>)
    ensures
        uncovered(stale, page).contains(id) ==> stale.contains(id) && !covers(page, id),
    decreases stale.len(),
{
    if stale.len() > 0 {
        let rest = stale.drop_last();
        law_a_page_moves_the_sweep_on(rest, page, id);
        let r = uncovered(stale, page);
        if r.contains(id) {
            let k = choose|k: int| 0 <= k < r.len() && r[k] == id;
            let before = uncovered(rest, page);
            if k < before.len() {
                assert(before[k] == id);
                let m = choose|m: int| 0 <= m < rest.len() && rest[m] == id;
                assert(stale[m] == id);
            } else {
                assert(stale[stale.len() - 1] == id);
            }
        }
    }
}

/// A page of a channel's history.
pub open spec fn history_page(token: Seq<char>, channel_id: Seq<char>, limit: Seq<char>) -> RequestV {
    asking(Method::Get, "/channels/"@ + channel_id + "/messages"@, token).with_query(
        "limit"@,
        limit,
    )
}

/// Reads a page of a channel's history.
pub fn history_request(token: &str, channel_id: &str, limit: &str) -> (r: Request)
    ensures
        r@ == history_page(token@, channel_id@, limit@),
{
    let mut path = "/channels/".to_owned();
    path.append(channel_id);
    path.append("/messages");
    Request::new(Method::Get, path.as_str(), token).with_query("limit", limit)
}

/// Reads the page around a message, to have its links signed again.
pub fn resign_request(token: &str, channel_id: &str, anchor: &str) -> (r: Request)
    ensures
        r@ == history_page(token@, channel_id@, "50"@).with_query("around"@, anchor@),
{
    history_request(token, channel_id, "50").with_query("around", anchor)
}

/// Reads one message again, to have its links signed again.
pub fn refresh_request(token: &str, channel_id: &str, message_id: &str) -> (r: Request)
    ensures
        r@ == history_page(token@, channel_id@, "1"@).with_query("around"@, message_id@),
{
    history_request(token, channel_id, "1").with_query("around", message_id)
}

/// The first message of a page that has the id.
pub open spec fn message_with(page: Seq<JsonV>, id: Seq<char>) -> Option<JsonV>
    decreases page.len(),
{
    if page.len() == 0 {
        None
    } else if page[0].at("id"@).text() == Some(id) {
        Some(page[0])
    } else {
        message_with(page.skip(1), id)
    }
}

/// A message's attachments, signed again: those that the page has of it, with the small copies
/// that were kept.
pub open spec fn refreshed(
    page: Seq<JsonV>,
    message_id: Seq<char>,
    old: Option<Seq<AttachmentV>>,
) -> Result<Seq<AttachmentV>, Seq<char>> {
    match message_with(page, message_id) {
        None => Err("Discord no longer has that message"@),
        Some(message) => if attachments_in(message).len() == 0 {
            Err("that message no longer has any attachments"@)
        } else {
            Ok(with_kept_copies(attachments_in(message), old))
        },
    }
}

/// A message's attachments, signed again, from the page that was read for it.
pub fn refresh_attachments(
    page: &Vec<Json>,
    message_id: &str,
    old: Option<&Vec<Attachment>>,
) -> (r: Result<Vec<Attachment>, String>)
    ensures
        match r {
            Ok(list) => refreshed(views(page@), message_id@, maybe_views(old)) == Ok::<
                Seq<AttachmentV>,
                Seq<char>,
            >(views(list@)),
            Err(e) => refreshed(views(page@), message_id@, maybe_views(old)) == Err::<
                Seq<AttachmentV>,
                Seq<char>,
            >(e@),
        },
{
    let ghost all = views(page@);
    let mut i: usize = 0;
    assert(all.skip(0) =~= all);
    while i < page.len()
        invariant
            i <= page.len(),
            all == views(page@),
            message_with(all, message_id@) == message_with(all.skip(i as int), message_id@),
        decreases page.len() - i,
    {
        assert(all.skip(i as int)[0] == page@[i as int]@);
        if is_str(page[i].at("id"), message_id) {
            let attachments = extract_attachments(&page[i]);
            assert(views(attachments@).len() == attachments@.len());
            if attachments.len() == 0 {
                return Err("that message no longer has any attachments".to_owned());
            }
            return Ok(merge_cached_thumbnails(attachments, old));
        }
        assert(all.skip(i as int).skip(1) =~= all.skip(i + 1));
        i += 1;
    }
    Err("Discord no longer has that message".to_owned())
}

/// The conversations whose links are being signed again, so that a burst of reads makes one sweep.
pub struct Resigning {
    in_flight: TextMap<bool>,
}

impl View for Resigning {
    type V = Set<Seq<char>>;

    closed spec fn view(&self) -> Set<Seq<char>> {
        self.in_flight@.dom()
    }
}

impl Resigning {
    pub fn new() -> (r: Resigning)
        ensures
            r@ == Set::<Seq<char>>::empty(),
    {
        let r = Resigning { in_flight: TextMap::new() };
        assert(r@ =~= Set::<Seq<char>>::empty());
        r
    }

    /// Starts a sweep over what has lapsed of a page, unless nothing has or one is running.
    pub fn resign_stale_attachments(&mut self, buffer_id: &str, messages: &Vec<Message>, now: u64) -> (r:
        Option<Vec<String>>)
        ensures
            match r {
                Some(stale) => {
                    &&& texts(stale@) == stale_ids(views(messages@), now)
                    &&& stale@.len() > 0
                    &&& !old(self)@.contains(buffer_id@)
                    &&& final(self)@ == old(self)@.insert(buffer_id@)
                },
                None => {
                    &&& stale_ids(views(messages@), now).len() == 0 || old(self)@.contains(
                        buffer_id@,
                    )
                    &&& final(self)@ == old(self)@
                },
            },
    {
        let stale = stale_message_ids(messages, now);
        assert(texts(stale@).len() == stale@.len());
        if stale.len() == 0 || self.in_flight.contains(buffer_id) {
            return None;
        }
        self.in_flight.insert(buffer_id, true);
        assert(self@ =~= old(self)@.insert(buffer_id@));
        Some(stale)
    }

    /// A sweep is over.
    pub fn finished(&mut self, buffer_id: &str)
        ensures
            final(self)@ == old(self)@.remove(buffer_id@),
    {
        let _ = self.in_flight.remove(buffer_id);
        assert(self@ =~= old(self)@.remove(buffer_id@));
    }
}

/// A small copy has the proportions of the picture: its longer side is as long as it may be and the
/// other as long as that makes it, rounded down, but never without a pixel.
pub proof fn law_small_copies_keep_their_proportions(width: u32, height: u32)
    ensures
        small_size(width, height).0 == small_size(height, width).1,
        small_size(width, height).1 == small_size(height, width).0,
        width == 0 || height == 0 ==> small_size(width, height) == (480int, 480int),
        0 < height <= width ==> {
            let (w, h) = small_size(width, height);
            &&& w == 480
            &&& h >= 1
            &&& h > 1 ==> h * width <= height * 480
            &&& height * 480 < (h + 1) * width
        },
{
    if 0 < height <= width {
        let (a, b) = (height * 480, width as int);
        vstd::arithmetic::div_mod::lemma_fundamental_div_mod(a, b);
        vstd::arithmetic::div_mod::lemma_mod_bound(a, b);
        let q = a / b;
        assert(b * q == q * b) by (nonlinear_arith);
        assert((q + 1) * b == q * b + b) by (nonlinear_arith);
        if q < 1 {
            vstd::arithmetic::div_mod::lemma_div_pos_is_pos(a, b);
            assert(q == 0);
            assert(2 * b == b + b) by (nonlinear_arith);
        }
        if width == height {
            assert(480 * b / b == 480) by (nonlinear_arith)
                requires
                    b > 0,
            ;
            assert(height * 480 == 480 * b);
        }
    }
}

/// A hosted picture is copied through the media host, at the size of a small copy and moving where it
/// moves, behind the parameters that its address has; a picture that is not hosted is not copied.
pub proof fn law_small_copies_come_from_the_media_host(rest: Seq<char>, width: u32, height: u32)
    ensures
        ({
            let url = "https://cdn.discordapp.com/"@ + rest;
            let size = small_size(width, height);
            let proxied = "https://media.discordapp.net/"@ + rest;
            let asked = "width="@ + decimal_text(size.0 as nat) + "&height="@ + decimal_text(
                size.1 as nat,
            ) + "&animated=true"@;
            &&& rest.contains('?') ==> small_copy(url, width, height) == Some(
                proxied + "&"@ + asked,
            )
            &&& !rest.contains('?') ==> small_copy(url, width, height) == Some(
                proxied + "?"@ + asked,
            )
        }),
{
    let host = "https://cdn.discordapp.com/"@;
    let media = "https://media.discordapp.net/"@;
    let url = host + rest;
    let n = host.len() as int;
    assert(url.subrange(0, n) =~= host);
    assert(host.is_prefix_of(url));
    assert(crate::text::stands_at(url, host, 0));
    crate::text::law_replacing_once_touches_the_first(url, host, media, 0);
    assert(url.take(0) + media + url.skip(n) =~= media + rest);
    let proxied = media + rest;
    reveal_strlit("https://media.discordapp.net/");
    assert(media.len() == 29);
    assert(!media.contains('?')) by {
        assert(media[0] == 'h' && media[1] == 't' && media[2] == 't' && media[3] == 'p' && media[4]
            == 's' && media[5] == ':' && media[6] == '/' && media[7] == '/' && media[8] == 'm'
            && media[9] == 'e' && media[10] == 'd' && media[11] == 'i' && media[12] == 'a'
            && media[13] == '.' && media[14] == 'd' && media[15] == 'i' && media[16] == 's'
            && media[17] == 'c' && media[18] == 'o' && media[19] == 'r' && media[20] == 'd'
            && media[21] == 'a' && media[22] == 'p' && media[23] == 'p' && media[24] == '.'
            && media[25] == 'n' && media[26] == 'e' && media[27] == 't' && media[28] == '/');
    }
    assert(proxied.contains('?') == rest.contains('?')) by {
        if rest.contains('?') {
            let i = choose|i: int| 0 <= i < rest.len() && rest[i] == '?';
            assert(proxied[media.len() + i] == '?');
        }
        if proxied.contains('?') {
            let i = choose|i: int| 0 <= i < proxied.len() && proxied[i] == '?';
            if i < media.len() {
                assert(media.contains(media[i]));
            } else {
                assert(rest[i - media.len()] == '?');
            }
        }
    }
    let size = small_size(width, height);
    let (w, h) = (decimal_text(size.0 as nat), decimal_text(size.1 as nat));
    let mark = if rest.contains('?') {
        "&"@
    } else {
        "?"@
    };
    assert(proxied + mark + "width="@ + w + "&height="@ + h + "&animated=true"@ =~= proxied + mark
        + ("width="@ + w + "&height="@ + h + "&animated=true"@));
}

/// Nothing but what the service hosts is copied.
pub proof fn law_only_hosted_pictures_are_copied(url: Seq<char>, width: u32, height: u32)
    ensures
        small_copy(url, width, height) is Some <==> "https://cdn.discordapp.com/"@.is_prefix_of(url)
            || "https://media.discordapp.net/"@.is_prefix_of(url),
{
}

/// A link falls into parts at its question marks and its ampersands, whichever they are.
pub proof fn law_a_link_falls_into_parts(front: Seq<char>, back: Seq<char>)
    ensures
        link_parts(front.push('?') + back) == link_parts(front) + link_parts(back),
        link_parts(front.push('&') + back) == link_parts(front) + link_parts(back),
        !back.contains('?') && !back.contains('&') ==> link_parts(back) == seq![back],
        link_parts(back).len() >= 1,
    decreases back.len(),
{
    let (x, y) = (front.push('?') + back, front.push('&') + back);
    if back.len() == 0 {
        assert(x =~= front.push('?') && y =~= front.push('&'));
        assert(x.drop_last() =~= front && y.drop_last() =~= front);
        assert(link_parts(back) =~= seq![Seq::<char>::empty()]);
        assert(link_parts(front).push(Seq::empty()) =~= link_parts(front) + link_parts(back));
        assert(back =~= Seq::empty());
    } else {
        let rest = back.drop_last();
        law_a_link_falls_into_parts(front, rest);
        assert(x.drop_last() =~= front.push('?') + rest && y.drop_last() =~= front.push('&') + rest);
        let (a, b) = (link_parts(front), link_parts(rest));
        let c = back.last();
        if c == '?' || c == '&' {
            assert((a + b).push(Seq::empty()) =~= a + b.push(Seq::empty()));
            assert(back.contains(c));
        } else {
            assert((a + b).drop_last().push((a + b).last().push(c)) =~= a + b.drop_last().push(
                b.last().push(c),
            ));
            if !back.contains('?') && !back.contains('&') {
                assert forall|i: int| 0 <= i < rest.len() implies rest[i] != '?' && rest[i]
                    != '&' by {
                    assert(back.contains(back[i]));
                }
                assert(rest.push(c) =~= back);
                assert(link_parts(back) =~= seq![back]);
            }
        }
    }
}

/// A link lapses at the moment that the first of its parts to start so gives in hexadecimal.
pub proof fn law_the_first_expiry_counts(parts: Seq<Seq<char>>, moment: Seq<char>, rest: Seq<Seq<char>>)
    requires
        forall|i: int| 0 <= i < parts.len() ==> !"ex="@.is_prefix_of(#[trigger] parts[i]),
    ensures
        expiry_text(parts + seq!["ex="@ + moment] + rest) == Some(moment),
        expiry_text(parts) is None,
    decreases parts.len(),
{
    let all = parts + seq!["ex="@ + moment] + rest;
    reveal_strlit("ex=");
    if parts.len() == 0 {
        let first = "ex="@ + moment;
        assert(all[0] == first);
        assert(first.subrange(0, 3) =~= "ex="@);
        assert(first.skip(3) =~= moment);
    } else {
        let less = parts.skip(1);
        assert(all[0] == parts[0]);
        assert forall|i: int| 0 <= i < less.len() implies !"ex="@.is_prefix_of(
            #[trigger] less[i],
        ) by {
            assert(less[i] == parts[i + 1]);
        }
        law_the_first_expiry_counts(less, moment, rest);
        assert(all.skip(1) =~= less + seq!["ex="@ + moment] + rest);
    }
}

/// A link has lapsed from the moment on that it carries, and never where it carries none.
pub proof fn law_a_link_lapses_at_its_moment(url: Seq<char>, now: u64)
    ensures
        ({
            let moment = expiry_text(link_parts(url));
            &&& moment is None ==> !has_lapsed(url, now)
            &&& moment is Some && hex_of(moment->0) is None ==> !has_lapsed(url, now)
            &&& moment is Some && hex_of(moment->0) is Some ==> has_lapsed(url, now) == (
            hex_of(moment->0)->0 <= now)
        }),
{
}

/// A longer id is newer, and of two as long the one that comes later; none is newer than itself, and
/// of two that differ in length exactly one is.
pub proof fn law_a_longer_id_is_newer(a: Seq<char>, b: Seq<char>)
    ensures
        byte_length(a) > byte_length(b) ==> newer(a, b) && !newer(b, a),
        byte_length(a) == byte_length(b) ==> newer(a, b) == text_after(a, b),
        !newer(a, a),
        newer(a, b) ==> !newer(b, a),
{
    crate::text::law_texts_stand_in_one_order(a, b);
    crate::text::law_texts_stand_in_one_order(a, a);
}

/// Fresh attachments stay as they are but for the small copies: each that has none takes that of the
/// earlier one in its place.
pub proof fn law_small_copies_are_carried_over(
    fresh: Seq<AttachmentV>,
    old: Option<Seq<AttachmentV>>,
    i: int,
)
    requires
        0 <= i < fresh.len(),
    ensures
        ({
            let r = with_kept_copies(fresh, old);
            &&& r.len() == fresh.len()
            &&& r[i].kind == fresh[i].kind && r[i].filename == fresh[i].filename
            &&& r[i].url == fresh[i].url && r[i].size == fresh[i].size
            &&& r[i].width == fresh[i].width && r[i].height == fresh[i].height
            &&& r[i].path == fresh[i].path && r[i].mimetype == fresh[i].mimetype
            &&& fresh[i].thumbnail_path is Some ==> r[i].thumbnail_path == fresh[i].thumbnail_path
            &&& fresh[i].thumbnail_path is None && old is Some && i < old->0.len()
                ==> r[i].thumbnail_path == old->0[i].thumbnail_path
            &&& fresh[i].thumbnail_path is None && (old is None || i >= old->0.len())
                ==> r[i].thumbnail_path is None
        }),
{
}

/// A small copy is fetched of a picture with an address that has none yet, at the address of the copy of
/// its size, and of nothing else.
pub proof fn law_only_pictures_without_a_copy_want_one(a: AttachmentV)
    ensures
        ({
            let wanted = a.url is Some && a.kind == "image"@ && a.thumbnail_path is None;
            let (w, h) = (
                if a.width is Some {
                    a.width->0
                } else {
                    0
                },
                if a.height is Some {
                    a.height->0
                } else {
                    0
                },
            );
            &&& wanted ==> copy_source(a) == small_copy(a.url->0, w, h)
            &&& !wanted ==> copy_source(a) is None
        }),
{
}

/// Bytes are written out one after another, two digits each.
pub proof fn law_bytes_are_written_in_two_digits(bytes: Seq<u8>, last: u8)
    ensures
        hex_bytes(Seq::empty()).len() == 0,
        hex_bytes(bytes).len() == 2 * bytes.len(),
        ({
            let all = hex_bytes(bytes.push(last));
            let n = 2 * bytes.len() as int;
            &&& all.len() == n + 2
            &&& all.take(n) == hex_bytes(bytes)
            &&& crate::text::hex_digit(all[n]) == Some((last / 16) as int)
            &&& crate::text::hex_digit(all[n + 1]) == Some((last % 16) as int)
        }),
    decreases bytes.len(),
{
    if bytes.len() > 0 {
        law_bytes_are_written_in_two_digits(bytes.drop_last(), bytes.last());
        assert(bytes.drop_last().push(bytes.last()) =~= bytes);
    }
    assert(bytes.push(last).drop_last() =~= bytes);
    let all = hex_bytes(bytes.push(last));
    assert(all.take(2 * bytes.len() as int) =~= hex_bytes(bytes));
}

/// A page renews the stale messages among its own that still have attachments, in its order and with
/// those attachments.
pub proof fn law_a_page_renews_its_stale_messages(
    page: Seq<JsonV>,
    last: JsonV,
    stale: Seq<Seq<char>>,
)
    ensures
        renewals(Seq::empty(), stale).len() == 0,
        ({
            let before = renewals(page, stale);
            let after = renewals(page.push(last), stale);
            let renewed = last.at("id"@) is Str && stale.contains(last.at("id"@)->Str_0)
                && attachments_in(last).len() > 0;
            &&& !renewed ==> after == before
            &&& renewed ==> {
                &&& after.len() == before.len() + 1
                &&& after.drop_last() == before
                &&& after.last().id == last.at("id"@)->Str_0
                &&& after.last().attachments == attachments_in(last)
            }
        }),
{
    assert(page.push(last).drop_last() =~= page);
    let before = renewals(page, stale);
    let one = RenewedV {
        id: last.at("id"@).text_or_empty(),
        attachments: attachments_in(last),
    };
    assert(before.push(one).drop_last() =~= before);
}

/// What a page does not hold is left to be renewed, and nothing else is.
pub proof fn law_what_a_page_lacks_is_left(
    stale: Seq<Seq<char>>,
    page: Seq<JsonV>,
    id: Seq<char>,
)
    ensures
        uncovered(stale, page).contains(id) <==> stale.contains(id) && !exists|i: int|
            0 <= i < page.len() && (#[trigger] page[i]).at("id"@) == JsonV::Str(id),
        uncovered(stale, page).len() <= stale.len(),
    decreases stale.len(),
{
    let out = uncovered(stale, page);
    assert(covers(page, id) <==> exists|i: int|
        0 <= i < page.len() && (#[trigger] page[i]).at("id"@) == JsonV::Str(id)) by {
        if covers(page, id) {
            let i = choose|i: int|
                0 <= i < page.len() && (#[trigger] page[i]).at("id"@).text() == Some(id);
            assert(page[i].at("id"@) == JsonV::Str(id));
        }
        if exists|i: int| 0 <= i < page.len() && (#[trigger] page[i]).at("id"@) == JsonV::Str(id) {
            let i = choose|i: int|
                0 <= i < page.len() && (#[trigger] page[i]).at("id"@) == JsonV::Str(id);
            assert(page[i].at("id"@).text() == Some(id));
        }
    }
    if stale.len() > 0 {
        let rest = stale.drop_last();
        let last = stale.last();
        law_what_a_page_lacks_is_left(rest, page, id);
        let before = uncovered(rest, page);
        if rest.contains(id) {
            let k = choose|k: int| 0 <= k < rest.len() && rest[k] == id;
            assert(stale[k] == id);
        }
        if stale.contains(id) && !rest.contains(id) {
            let k = choose|k: int| 0 <= k < stale.len() && stale[k] == id;
            if k < rest.len() {
                assert(rest[k] == id);
            }
            assert(last == id);
        }
        if !covers(page, last) {
            assert(out == before.push(last));
            if before.contains(id) {
                let k = choose|k: int| 0 <= k < before.len() && before[k] == id;
                assert(out[k] == id);
            }
            if out.contains(id) {
                let k = choose|k: int| 0 <= k < out.len() && out[k] == id;
                if k < before.len() {
                    assert(before[k] == id);
                }
            }
            if last == id {
                assert(out[before.len() as int] == id);
                assert(stale[stale.len() - 1] == id);
            }
        }
    }
}

/// A page of history is asked of its channel with the token, so many messages of it.
pub proof fn law_a_page_is_asked_of_its_channel(
    token: Seq<char>,
    channel_id: Seq<char>,
    limit: Seq<char>,
)
    ensures
        ({
            let q = history_page(token, channel_id, limit);
            &&& q.method == Method::Get
            &&& q.url == "https://discord.com/api/v10"@ + ("/channels/"@ + channel_id
                + "/messages"@)
            &&& q.headers.len() == 1 && q.headers[0].value == token
            &&& q.query.len() == 1
            &&& q.query[0].name == "limit"@ && q.query[0].value == limit
            &&& q.body is None
        }),
{
}

/// A message is found by its id: the first of the page that has it.
pub proof fn law_a_message_is_found_by_its_id(page: Seq<JsonV>, id: Seq<char>, first: int)
    requires
        0 <= first <= page.len(),
        forall|i: int| 0 <= i < first ==> (#[trigger] page[i]).at("id"@) != JsonV::Str(id),
        first < page.len() ==> page[first].at("id"@) == JsonV::Str(id),
    ensures
        first < page.len() ==> message_with(page, id) == Some(page[first]),
        first == page.len() ==> message_with(page, id) is None,
    decreases page.len(),
{
    if page.len() > 0 && first > 0 {
        assert(page[0].at("id"@) != JsonV::Str(id));
        let rest = page.skip(1);
        assert forall|i: int| 0 <= i < first - 1 implies (#[trigger] rest[i]).at("id"@)
            != JsonV::Str(id) by {
            assert(rest[i] == page[i + 1]);
        }
        law_a_message_is_found_by_its_id(rest, id, first - 1);
    }
}

/// A message's attachments are signed again where the page has the message and the message has any;
/// they are those that the page has of it.
pub proof fn law_attachments_are_those_of_the_message(
    page: Seq<JsonV>,
    message_id: Seq<char>,
    old: Option<Seq<AttachmentV>>,
)
    ensures
        ({
            let r = refreshed(page, message_id, old);
            let found = message_with(page, message_id);
            &&& r is Ok <==> found is Some && attachments_in(found->0).len() > 0
            &&& found is None ==> r->Err_0 == "Discord no longer has that message"@
            &&& found is Some && r is Err ==> r->Err_0
                == "that message no longer has any attachments"@
            &&& r is Ok ==> r->Ok_0 == with_kept_copies(attachments_in(found->0), old)
        }),
{
}

/// A page is of no use to a sweep where no message of it has an id.
pub proof fn law_a_page_without_ids_is_of_no_use(page: Seq<JsonV>)
    ensures
        is_blind(page) <==> !exists|i: int|
            0 <= i < page.len() && (#[trigger] page[i]).at("id"@) is Str,
{
    if !is_blind(page) {
        let i = choose|i: int| 0 <= i < page.len() && !((#[trigger] page[i]).at("id"@).text() is None);
        assert(page[i].at("id"@) is Str);
    }
}

} // verus!
