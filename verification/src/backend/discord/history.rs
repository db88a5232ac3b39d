//! Reading backwards: the parts of a conversation that happened earlier.
use vstd::prelude::*;
use crate::json::{Json, JsonV, collect, is_str, parse, parsed_json};
use crate::model::{Message, MessageV};
use crate::text::{decimal, decimal_text, holds, maybe, maybe_str, same, texts, views};
use crate::text_map::TextMap;
use super::attachments::{history_page, history_request, message_with};
use super::channels::Known;
use super::guilds::copy_list;
use super::http::{Request, RequestV, captcha_sentence, error_sentence, is_success, need_channel, need_token, no_channel, not_connected, reply_of, request_view, settle, settled, status_line, succeeded, write_status};
use super::messages::{kept_reader, moment_of, parse_iso8601_seconds, store_history_messages};

verus! {

/// How long to wait between two conversations that are filled, in milliseconds.
pub const BACKFILL_GAP: u64 = 250;

/// How long to wait between two conversations that are caught up with, in milliseconds.
pub const CATCH_UP_GAP: u64 = 400;

pub open spec fn maybe_request(r: Option<Request>) -> Option<RequestV> {
    match r {
        Some(q) => Some(q@),
        None => None,
    }
}

/// Reads the most recent messages of a conversation that has none yet; one that has any is left
/// alone.
pub fn backfill_channel_history(has_messages: bool, token: &str, channel_id: &str) -> (r: Option<
    Request,
>)
    ensures
        maybe_request(r) == (if has_messages {
            None
        } else {
            Some(history_page(token@, channel_id@, "50"@))
        }),
{
    if has_messages {
        None
    } else {
        Some(history_request(token, channel_id, "50"))
    }
}

/// Reads what was said after the newest message that is stored; nothing where none is.
pub fn catch_up_channel(newest: Option<&str>, token: &str, channel_id: &str) -> (r: Option<Request>)
    ensures
        maybe_request(r) == (match newest {
            Some(id) => Some(history_page(token@, channel_id@, "50"@).with_query("after"@, id@)),
            None => None,
        }),
{
    match newest {
        Some(id) => Some(history_request(token, channel_id, "50").with_query("after", id)),
        None => None,
    }
}

/// Reads what was said before the oldest message that is stored; nothing where none is.
pub fn extend_history(oldest: Option<&str>, token: &str, channel_id: &str) -> (r: Option<Request>)
    ensures
        maybe_request(r) == (match oldest {
            Some(id) => Some(history_page(token@, channel_id@, "50"@).with_query("before"@, id@)),
            None => None,
        }),
{
    match oldest {
        Some(id) => Some(history_request(token, channel_id, "50").with_query("before", id)),
        None => None,
    }
}

pub open spec fn page_beside(
    token: Option<Seq<char>>,
    channel_id: Option<Seq<char>>,
    side: Seq<char>,
    message_id: Seq<char>,
) -> Result<RequestV, Seq<char>> {
    match (token, channel_id) {
        (None, _) => Err(not_connected()),
        (_, None) => Err(no_channel()),
        (Some(t), Some(c)) => Ok(history_page(t, c, "50"@).with_query(side, message_id)),
    }
}

fn beside(token: Option<&str>, channel_id: Option<&str>, side: &str, message_id: &str) -> (r: Result<
    Request,
    String,
>)
    ensures
        request_view(r) == page_beside(
            maybe_str(token),
            maybe_str(channel_id),
            side@,
            message_id@,
        ),
{
    let token = match need_token(token) {
        Ok(t) => t,
        Err(e) => {
            return Err(e);
        },
    };
    match need_channel(channel_id) {
        Ok(c) => Ok(history_request(token, c, "50").with_query(side, message_id)),
        Err(e) => Err(e),
    }
}

/// Reads forward from a message.
pub fn load_newer(token: Option<&str>, channel_id: Option<&str>, message_id: &str) -> (r: Result<
    Request,
    String,
>)
    ensures
        request_view(r) == page_beside(
            maybe_str(token),
            maybe_str(channel_id),
            "after"@,
            message_id@,
        ),
{
    beside(token, channel_id, "after", message_id)
}

/// Reads what stands around a message.
pub fn load_context(token: Option<&str>, channel_id: Option<&str>, message_id: &str) -> (r: Result<
    Request,
    String,
>)
    ensures
        request_view(r) == page_beside(
            maybe_str(token),
            maybe_str(channel_id),
            "around"@,
            message_id@,
        ),
{
    beside(token, channel_id, "around", message_id)
}

/// When a message of a page was written, where the page has it and says so.
pub open spec fn moment_in(page: Seq<JsonV>, message_id: Seq<char>) -> Option<i64> {
    match message_with(page, message_id) {
        Some(m) => match m.at("timestamp"@).text() {
            Some(t) => moment_of(t),
            None => None,
        },
        None => None,
    }
}

/// When the message that was looked for was written.
pub fn context_moment(page: &Vec<Json>, message_id: &str) -> (r: Result<i64, String>)
    ensures
        match r {
            Ok(s) => moment_in(views(page@), message_id@) == Some(s),
            Err(e) => moment_in(views(page@), message_id@) is None && e@
                == "Discord did not return that message"@,
        },
{
    let ghost all = views(page@);
    let mut i: usize = 0;
    assert(all.skip(0) =~= all);
    while i < page.len()
        invariant
            i <= page.len(),
            all == views(page@),
            message_with(all, message_id@) == message_with(all.skip(i as int), message_id@),
        decreases page.len() - i,
    {
        assert(all.skip(i as int)[0] == page@[i as int]@);
        if is_str(page[i].at("id"), message_id) {
            let moment = match page[i].at("timestamp").text() {
                Some(t) => parse_iso8601_seconds(t),
                None => None,
            };
            return match moment {
                Some(s) => Ok(s),
                None => Err("Discord did not return that message".to_owned()),
            };
        }
        assert(all.skip(i as int).skip(1) =~= all.skip(i + 1));
        i += 1;
    }
    Err("Discord did not return that message".to_owned())
}

/// How many messages to read again: as many as asked for, at least one and at most a hundred.
pub open spec fn page_size(limit: u32) -> nat {
    if limit < 1 {
        1
    } else if limit > 100 {
        100
    } else {
        limit as nat
    }
}

/// Reads a conversation's recent messages again, to store what is missing.
pub open spec fn refill_page(
    has_buffer: bool,
    token: Option<Seq<char>>,
    channel_id: Option<Seq<char>>,
    limit: u32,
) -> Result<RequestV, Seq<char>> {
    if !has_buffer {
        Err("no such buffer"@)
    } else {
        match (token, channel_id) {
            (None, _) => Err(not_connected()),
            (_, None) => Err("no known Discord channel for this buffer"@),
            (Some(t), Some(c)) => Ok(history_page(t, c, decimal_text(page_size(limit)))),
        }
    }
}

pub fn refill_history(
    has_buffer: bool,
    token: Option<&str>,
    channel_id: Option<&str>,
    limit: u32,
) -> (r: Result<Request, String>)
    ensures
        request_view(r) == refill_page(has_buffer, maybe_str(token), maybe_str(channel_id), limit),
{
    if !has_buffer {
        return Err("no such buffer".to_owned());
    }
    let token = match need_token(token) {
        Ok(t) => t,
        Err(e) => {
            return Err(e);
        },
    };
    let channel_id = match channel_id {
        Some(c) => c,
        None => {
            return Err("no known Discord channel for this buffer".to_owned());
        },
    };
    let size: u64 = if limit < 1 {
        1
    } else if limit > 100 {
        100
    } else {
        limit as u64
    };
    let size_text = decimal(size);
    Ok(history_request(token, channel_id, size_text.as_str()))
}

/// A refusal of a page of history, in words; nothing where the page came.
pub fn refused(status: u16) -> (r: Option<String>)
    requires
        100 <= status <= 999,
    ensures
        maybe(r) == (if is_success(status) {
            None
        } else {
            Some("Discord refused the request ("@ + status_line(status) + ")"@)
        }),
{
    if succeeded(status) {
        None
    } else {
        let line = write_status(status);
        Some("Discord refused the request (".to_owned().concat(line.as_str()).concat(")"))
    }
}

/// The messages that a reply holds: it has to be a list.
pub fn read_page(text: &str) -> (r: Option<Vec<Json>>)
    ensures
        match r {
            Some(list) => parsed_json(text@) == Some(JsonV::List(views(list@))),
            None => match parsed_json(text@) {
                Some(v) => !(v is List),
                None => true,
            },
        },
{
    match parse(text) {
        Some(value) => match value.list_items() {
            Some(items) => Some(copy_list(items)),
            None => None,
        },
        None => None,
    }
}

/// The messages of a page that are not stored: those with an id that is not known.
pub open spec fn missing(page: Seq<JsonV>, known: Seq<Seq<char>>) -> Seq<JsonV>
    decreases page.len(),
{
    if page.len() == 0 {
        Seq::empty()
    } else {
        let before = missing(page.drop_last(), known);
        match page.last().at("id"@).text() {
            Some(id) => if known.contains(id) {
                before
            } else {
                before.push(page.last())
            },
            None => before,
        }
    }
}

pub fn missing_messages(page: &Vec<Json>, known: &Vec<String>) -> (r: Vec<Json>)
    ensures
        views(r@) == missing(views(page@), texts(known@)),
{
    let ghost all = views(page@);
    let mut out: Vec<Json> = Vec::new();
    let mut i: usize = 0;
    assert(views(out@) =~= missing(all.take(0), texts(known@)));
    while i < page.len()
        invariant
            i <= page.len(),
            all == views(page@),
            views(out@) == missing(all.take(i as int), texts(known@)),
        decreases page.len() - i,
    {
        let ghost before = out@;
        proof {
            assert(all.take(i + 1).drop_last() =~= all.take(i as int));
            assert(all.take(i + 1).last() == page@[i as int]@);
        }
        match page[i].at("id").text() {
            Some(id) => {
                if !holds(known, id) {
                    let copy = page[i].copy();
                    out.push(copy);
                    assert(views(out@) =~= views(before).push(copy@));
                }
            },
            None => {},
        }
        i += 1;
    }
    assert(all.take(i as int) =~= all);
    out
}

/// Reading again what is all stored finds nothing missing.
pub proof fn law_nothing_is_recovered_twice(page: Seq<JsonV>, known: Seq<Seq<char>>)
    requires
        forall|i: int|
            0 <= i < page.len() ==> match (#[trigger] page[i]).at("id"@).text() {
                Some(id) => known.contains(id),
                None => true,
            },
    ensures
        missing(page, known).len() == 0,
    decreases page.len(),
{
    if page.len() > 0 {
        let rest = page.drop_last();
        assert forall|i: int| 0 <= i < rest.len() implies match (#[trigger] rest[i]).at(
            "id"@,
        ).text() {
            Some(id) => known.contains(id),
            None => true,
        } by {
            assert(rest[i] == page[i]);
        }
        law_nothing_is_recovered_twice(rest, known);
        assert(page[page.len() - 1] == page.last());
    }
}

/// The messages of a page that are to be stored, oldest first, given those that are stored already.
/// Messages that say nothing are left out.
pub open spec fn recovered_from(
    page: Seq<JsonV>,
    known: Seq<Seq<char>>,
    user_id: Seq<char>,
    own_display_name: Option<Seq<char>>,
) -> Seq<MessageV> {
    collect(missing(page, known).reverse(), kept_reader(user_id, own_display_name))
}

/// The messages of a page that are to be stored, and how many they are.
pub fn recovered(
    page: &Vec<Json>,
    known: &Vec<String>,
    user_id: &str,
    own_display_name: Option<&str>,
) -> (r: (Vec<Message>, usize))
    ensures
        views(r.0@) == recovered_from(
            views(page@),
            texts(known@),
            user_id@,
            maybe_str(own_display_name),
        ),
        r.1 == r.0@.len(),
{
    let fresh = missing_messages(page, known);
    let messages = store_history_messages(&fresh, user_id, own_display_name);
    let count: usize = messages.len();
    (messages, count)
}

/// Why a conversation could not be read again.
#[derive(Debug, PartialEq, Eq)]
pub enum RefillFault {
    /// The service asks to wait first.
    RateLimited,
    Refused(String),
}

pub enum RefillFaultV {
    RateLimited,
    Refused(Seq<char>),
}

impl View for RefillFault {
    type V = RefillFaultV;

    open spec fn view(&self) -> RefillFaultV {
        match self {
            RefillFault::RateLimited => RefillFaultV::RateLimited,
            RefillFault::Refused(words) => RefillFaultV::Refused(words@),
        }
    }
}

/// What is said of a rate limit, given the seconds to wait.
pub fn rate_limited(seconds: &str) -> (r: String)
    ensures
        r@ == "rate limited, retry after "@ + seconds@ + "s"@,
{
    "rate limited, retry after ".to_owned().concat(seconds).concat("s")
}

/// What reading a conversation again comes to, given the reply and what is stored: the messages to
/// store.
pub open spec fn refilled(
    status: u16,
    text: Seq<char>,
    known: Seq<Seq<char>>,
    user_id: Seq<char>,
    own_display_name: Option<Seq<char>>,
) -> Result<Seq<MessageV>, RefillFaultV> {
    if status == 429 {
        Err(RefillFaultV::RateLimited)
    } else if !is_success(status) {
        Err(RefillFaultV::Refused("Discord refused the request ("@ + status_line(status) + ")"@))
    } else {
        match parsed_json(text) {
            Some(JsonV::List(page)) => Ok(recovered_from(page, known, user_id, own_display_name)),
            _ => Err(RefillFaultV::Refused("parsing re-read history"@)),
        }
    }
}

/// Reads the reply to a conversation being read again: the messages to store, and how many of them
/// were recovered.
pub fn refill_read(
    status: u16,
    text: &str,
    known: &Vec<String>,
    user_id: &str,
    own_display_name: Option<&str>,
) -> (r: Result<(Vec<Message>, usize), RefillFault>)
    requires
        100 <= status <= 999,
    ensures
        match (
            refilled(status, text@, texts(known@), user_id@, maybe_str(own_display_name)),
            r,
        ) {
            (Ok(messages), Ok(found)) => views(found.0@) == messages && found.1 == messages.len(),
            (Err(fault), Err(e)) => e@ == fault,
            _ => false,
        },
{
    if status == 429 {
        return Err(RefillFault::RateLimited);
    }
    match refused(status) {
        Some(words) => {
            return Err(RefillFault::Refused(words));
        },
        None => {},
    }
    match read_page(text) {
        Some(page) => {
            let found = recovered(&page, known, user_id, own_display_name);
            assert(views(found.0@).len() == found.0@.len());
            Ok(found)
        },
        None => Err(RefillFault::Refused("parsing re-read history".to_owned())),
    }
}

/// What reading forward comes to, given the reply: the messages to store.
pub open spec fn newer_in(
    status: u16,
    text: Seq<char>,
    user_id: Seq<char>,
    own_display_name: Option<Seq<char>>,
) -> Result<Seq<MessageV>, Seq<char>> {
    let doing = "reading the rest of the channel"@;
    match settled(status, reply_of(text), text, captcha_sentence(doing)) {
        Ok(()) => match parsed_json(text) {
            Some(JsonV::List(page)) => Ok(
                collect(page.reverse(), kept_reader(user_id, own_display_name)),
            ),
            _ => Err(doing),
        },
        Err(words) => Err(words),
    }
}

/// Reads the reply to reading forward: the messages to store, and how many they are. None at all
/// tells a reader that there is no more.
pub fn newer_read(status: u16, text: &str, user_id: &str, own_display_name: Option<&str>) -> (r:
    Result<(Vec<Message>, usize), String>)
    requires
        100 <= status <= 999,
    ensures
        match (newer_in(status, text@, user_id@, maybe_str(own_display_name)), r) {
            (Ok(messages), Ok(found)) => views(found.0@) == messages && found.1 == messages.len(),
            (Err(words), Err(e)) => e@ == words,
            _ => false,
        },
{
    match settle(status, text, "reading the rest of the channel") {
        Ok(()) => {},
        Err(e) => {
            return Err(e);
        },
    }
    match read_page(text) {
        Some(page) => {
            let messages = store_history_messages(&page, user_id, own_display_name);
            let count: usize = messages.len();
            assert(views(messages@).len() == messages@.len());
            Ok((messages, count))
        },
        None => Err("reading the rest of the channel".to_owned()),
    }
}

proof fn lemma_missing_is_of_the_page(page: Seq<JsonV>, known: Seq<Seq<char>>)
    ensures
        forall|i: int|
            0 <= i < missing(page, known).len() ==> page.contains(#[trigger] missing(page, known)[i])
                && missing(page, known)[i].at("id"@).text() is Some && !known.contains(
                missing(page, known)[i].at("id"@).text()->0,
            ),
    decreases page.len(),
{
    if page.len() > 0 {
        let rest = page.drop_last();
        lemma_missing_is_of_the_page(rest, known);
        assert forall|i: int| 0 <= i < missing(page, known).len() implies page.contains(
            #[trigger] missing(page, known)[i],
        ) && missing(page, known)[i].at("id"@).text() is Some && !known.contains(
            missing(page, known)[i].at("id"@).text()->0,
        ) by {
            if i < missing(rest, known).len() {
                let m = missing(rest, known)[i];
                assert(missing(page, known)[i] == m);
                let k = choose|k: int| 0 <= k < rest.len() && rest[k] == m;
                assert(page[k] == m);
            } else {
                assert(page[page.len() - 1] == page.last());
            }
        }
    }
}

proof fn lemma_is_missing(page: Seq<JsonV>, known: Seq<Seq<char>>, i: int)
    requires
        0 <= i < page.len(),
        page[i].at("id"@).text() is Some,
        !known.contains(page[i].at("id"@).text()->0),
    ensures
        missing(page, known).contains(page[i]),
    decreases page.len(),
{
    let rest = page.drop_last();
    let before = missing(rest, known);
    let all = missing(page, known);
    if i < rest.len() {
        assert(rest[i] == page[i]);
        lemma_is_missing(rest, known, i);
        let k = choose|k: int| 0 <= k < before.len() && before[k] == page[i];
        assert(all[k] == page[i]);
    } else {
        assert(all[before.len() as int] == page[i]);
    }
}

/// What is read of an element is among what is collected.
proof fn lemma_collected<A>(items: Seq<JsonV>, read: spec_fn(JsonV) -> Option<A>, i: int)
    requires
        0 <= i < items.len(),
        read(items[i]) is Some,
    ensures
        collect(items, read).contains(read(items[i])->0),
    decreases items.len(),
{
    let rest = items.drop_last();
    let before = collect(rest, read);
    let all = collect(items, read);
    if i < rest.len() {
        assert(rest[i] == items[i]);
        lemma_collected(rest, read, i);
        let k = choose|k: int| 0 <= k < before.len() && before[k] == read(items[i])->0;
        assert(all[k] == read(items[i])->0);
    } else {
        assert(all[before.len() as int] == read(items[i])->0);
    }
}

proof fn lemma_nothing_collected<A>(items: Seq<JsonV>, read: spec_fn(JsonV) -> Option<A>)
    requires
        forall|i: int| 0 <= i < items.len() ==> read(#[trigger] items[i]) is None,
    ensures
        collect(items, read).len() == 0,
    decreases items.len(),
{
    if items.len() > 0 {
        let rest = items.drop_last();
        assert forall|i: int| 0 <= i < rest.len() implies read(#[trigger] rest[i]) is None by {
            assert(rest[i] == items[i]);
        }
        lemma_nothing_collected(rest, read);
        assert(items[items.len() - 1] == items.last());
    }
}

/// Reading the same page again, once what it recovered is stored, recovers nothing.
pub proof fn law_a_second_refill_recovers_nothing(
    page: Seq<JsonV>,
    known: Seq<Seq<char>>,
    later: Seq<Seq<char>>,
    user_id: Seq<char>,
    own_display_name: Option<Seq<char>>,
)
    requires
        forall|id: Seq<char>| known.contains(id) ==> #[trigger] later.contains(id),
        forall|i: int|
            0 <= i < recovered_from(page, known, user_id, own_display_name).len()
                ==> later.contains(
                (#[trigger] recovered_from(page, known, user_id, own_display_name)[i]).id,
            ),
    ensures
        recovered_from(page, later, user_id, own_display_name).len() == 0,
{
    let reader = kept_reader(user_id, own_display_name);
    let first = missing(page, known).reverse();
    let again = missing(page, later).reverse();
    let kept = recovered_from(page, known, user_id, own_display_name);
    lemma_missing_is_of_the_page(page, later);
    assert forall|i: int| 0 <= i < again.len() implies reader(#[trigger] again[i]) is None by {
        let m = again[i];
        assert(m == missing(page, later)[missing(page, later).len() - 1 - i]);
        let id = m.at("id"@).text()->0;
        if reader(m) is Some {
            let k = choose|k: int| 0 <= k < page.len() && page[k] == m;
            assert(!known.contains(id)) by {
                if known.contains(id) {
                    assert(later.contains(id));
                }
            }
            lemma_is_missing(page, known, k);
            let all = missing(page, known);
            let j = choose|j: int| 0 <= j < all.len() && all[j] == m;
            assert(first[all.len() - 1 - j] == m);
            lemma_collected(first, reader, all.len() - 1 - j);
            let n = choose|n: int| 0 <= n < kept.len() && kept[n] == reader(m)->0;
            assert(kept[n].id == id);
            assert(later.contains(kept[n].id));
        }
    }
    lemma_nothing_collected(again, reader);
}

/// The direct conversations among those registered: each channel that is one, once.
pub fn direct_channels(channel_map: &TextMap<Known>) -> (r: Vec<String>)
    ensures
        texts(r@).no_duplicates(),
        forall|id: Seq<char>| #[trigger]
            texts(r@).contains(id) <==> channel_map@.contains_key(id) && channel_map@[id].kind@
                == "dm"@,
{
    let n: usize = channel_map.len();
    let ghost order = channel_map.order();
    let mut out: Vec<String> = Vec::new();
    let mut i: usize = 0;
    while i < n
        invariant
            i <= n,
            n == order.len(),
            order == channel_map.order(),
            order.no_duplicates(),
            forall|k: int| 0 <= k < out.len() ==> exists|m: int|
                0 <= m < i && order[m] == (#[trigger] out@[k])@,
            forall|k: int|
                0 <= k < out.len() ==> channel_map@.contains_key((#[trigger] out@[k])@)
                    && channel_map@[out@[k]@].kind@ == "dm"@,
            forall|m: int|
                0 <= m < i && channel_map@.contains_key(#[trigger] order[m])
                    && channel_map@[order[m]].kind@ == "dm"@ ==> texts(out@).contains(order[m]),
            texts(out@).no_duplicates(),
        decreases n - i,
    {
        let ghost before = out@;
        let id = channel_map.key(i);
        if same(channel_map.value(i).kind.as_str(), "dm") {
            proof {
                assert forall|k: int| 0 <= k < before.len() implies (#[trigger] before[k])@
                    != id@ by {
                    let m = choose|m: int| 0 <= m < i && order[m] == before[k]@;
                    assert(order[m] != order[i as int]);
                }
            }
            out.push(id.to_owned());
            proof {
                assert(texts(out@) =~= texts(before).push(id@));
                assert(texts(out@)[before.len() as int] == id@);
                assert forall|m: int|
                    0 <= m < i + 1 && channel_map@.contains_key(#[trigger] order[m])
                        && channel_map@[order[m]].kind@ == "dm"@ implies texts(out@).contains(
                    order[m],
                ) by {
                    if m < i {
                        let k = choose|k: int|
                            0 <= k < texts(before).len() && texts(before)[k] == order[m];
                        assert(texts(out@)[k] == order[m]);
                    }
                }
                assert forall|k: int| 0 <= k < out.len() implies exists|m: int|
                    0 <= m < i + 1 && order[m] == (#[trigger] out@[k])@ by {
                    if k < before.len() {
                        let m = choose|m: int| 0 <= m < i && order[m] == before[k]@;
                        assert(order[m] == out@[k]@);
                    } else {
                        assert(order[i as int] == out@[k]@);
                    }
                }
            }
        }
        i += 1;
    }
    proof {
        assert forall|id: Seq<char>| #[trigger]
            texts(out@).contains(id) <==> channel_map@.contains_key(id) && channel_map@[id].kind@
                == "dm"@ by {
            if texts(out@).contains(id) {
                let k = choose|k: int| 0 <= k < texts(out@).len() && texts(out@)[k] == id;
                assert(out@[k]@ == id);
            }
            if channel_map@.contains_key(id) && channel_map@[id].kind@ == "dm"@ {
                assert(order.contains(id));
                let m = choose|m: int| 0 <= m < order.len() && order[m] == id;
                assert(channel_map@.contains_key(order[m]));
            }
        }
    }
    out
}

/// A page beside a message is asked for by an account with a token, of a channel, fifty messages of it
/// on the side that is named.
pub proof fn law_a_page_beside_a_message_is_asked_for(
    token: Option<Seq<char>>,
    channel_id: Option<Seq<char>>,
    side: Seq<char>,
    message_id: Seq<char>,
)
    ensures
        ({
            let r = page_beside(token, channel_id, side, message_id);
            &&& r is Ok <==> token is Some && channel_id is Some
            &&& token is None ==> r == Err::<RequestV, Seq<char>>(not_connected())
            &&& token is Some && channel_id is None ==> r == Err::<RequestV, Seq<char>>(no_channel())
            &&& r is Ok ==> {
                let q = r->Ok_0;
                &&& q.url == "https://discord.com/api/v10"@ + ("/channels/"@ + channel_id->0
                    + "/messages"@)
                &&& q.headers.len() == 1 && q.headers[0].value == token->0
                &&& q.query.len() == 2
                &&& q.query[0].name == "limit"@ && q.query[0].value == "50"@
                &&& q.query[1].name == side && q.query[1].value == message_id
            }
        }),
{
}

/// As many messages are read again as was asked, but for at least one and at most a hundred.
pub proof fn law_a_page_holds_one_to_a_hundred(limit: u32)
    ensures
        1 <= limit <= 100 ==> page_size(limit) == limit,
        limit == 0 ==> page_size(limit) == 1,
        limit > 100 ==> page_size(limit) == 100,
{
}

/// A conversation is read again where it is there, its account has a token and its channel is known:
/// as many messages of that channel as the page holds.
pub proof fn law_a_conversation_is_read_again_by_its_channel(
    has_buffer: bool,
    token: Option<Seq<char>>,
    channel_id: Option<Seq<char>>,
    limit: u32,
)
    ensures
        ({
            let r = refill_page(has_buffer, token, channel_id, limit);
            &&& r is Ok <==> has_buffer && token is Some && channel_id is Some
            &&& !has_buffer ==> r->Err_0 == "no such buffer"@
            &&& has_buffer && token is None ==> r->Err_0 == not_connected()
            &&& has_buffer && token is Some && channel_id is None ==> r->Err_0
                == "no known Discord channel for this buffer"@
            &&& r is Ok ==> {
                let q = r->Ok_0;
                &&& q.url == "https://discord.com/api/v10"@ + ("/channels/"@ + channel_id->0
                    + "/messages"@)
                &&& q.headers.len() == 1 && q.headers[0].value == token->0
                &&& q.query.len() == 1
                &&& q.query[0].name == "limit"@ && q.query[0].value == decimal_text(
                    page_size(limit),
                )
            }
        }),
{
}

/// A message of a page is missing where it has an id that is not known, and the missing ones are in the
/// order of the page.
pub proof fn law_unknown_messages_are_missing(
    page: Seq<JsonV>,
    last: JsonV,
    known: Seq<Seq<char>>,
)
    ensures
        missing(Seq::empty(), known).len() == 0,
        ({
            let before = missing(page, known);
            let after = missing(page.push(last), known);
            let unknown = last.at("id"@) is Str && !known.contains(last.at("id"@)->Str_0);
            &&& unknown ==> after == before.push(last)
            &&& !unknown ==> after == before
        }),
{
    assert(page.push(last).drop_last() =~= page);
}

/// What is recovered is the oldest first: a message further down the page comes before one further up.
pub proof fn law_the_oldest_is_recovered_first(
    page: Seq<JsonV>,
    older: JsonV,
    known: Seq<Seq<char>>,
    user_id: Seq<char>,
    own_display_name: Option<Seq<char>>,
)
    requires
        older.at("id"@) is Str,
        !known.contains(older.at("id"@)->Str_0),
    ensures
        ({
            let before = recovered_from(page, known, user_id, own_display_name);
            let after = recovered_from(page.push(older), known, user_id, own_display_name);
            let kept = super::messages::kept_message(older, user_id, own_display_name);
            &&& kept is Some ==> after == seq![kept->0] + before
            &&& kept is None ==> after == before
        }),
{
    let gone = missing(page, known);
    let read = kept_reader(user_id, own_display_name);
    assert(page.push(older).drop_last() =~= page);
    assert(missing(page.push(older), known) == gone.push(older));
    assert(gone.push(older).reverse() =~= seq![older] + gone.reverse());
    crate::json::law_collecting_goes_list_by_list(seq![older], gone.reverse(), read);
    crate::json::law_collecting_one(older, read);
    let one = collect(seq![older], read);
    let rest = collect(gone.reverse(), read);
    if one.len() == 0 {
        assert(one + rest =~= rest);
    }
}

/// A conversation is read again in vain where the service holds back, refuses or answers with no list,
/// each in its own words; else what is recovered is what the page has and the store does not.
pub proof fn law_a_refill_fails_in_three_ways(
    status: u16,
    text: Seq<char>,
    known: Seq<Seq<char>>,
    user_id: Seq<char>,
    own_display_name: Option<Seq<char>>,
)
    ensures
        ({
            let r = refilled(status, text, known, user_id, own_display_name);
            let read = parsed_json(text);
            let came = 200 <= status < 300;
            &&& status == 429 ==> r is Err && r->Err_0 is RateLimited
            &&& status != 429 && !came ==> r is Err && r->Err_0 == RefillFaultV::Refused(
                "Discord refused the request ("@ + status_line(status) + ")"@,
            )
            &&& came && read is Some && read->0 is List ==> r is Ok && r->Ok_0 == recovered_from(
                read->0->List_0,
                known,
                user_id,
                own_display_name,
            )
            &&& came && !(read is Some && read->0 is List) ==> r is Err && r->Err_0
                == RefillFaultV::Refused("parsing re-read history"@)
        }),
{
}

/// Reading forward gives what the page holds, the oldest first, where it came and is a list.
pub proof fn law_reading_forward_gives_the_page(
    status: u16,
    text: Seq<char>,
    user_id: Seq<char>,
    own_display_name: Option<Seq<char>>,
)
    ensures
        ({
            let r = newer_in(status, text, user_id, own_display_name);
            let read = parsed_json(text);
            let came = 200 <= status < 300;
            &&& r is Ok <==> came && read is Some && read->0 is List
            &&& r is Ok ==> r->Ok_0 == collect(
                read->0->List_0.reverse(),
                |m: JsonV| super::messages::kept_message(m, user_id, own_display_name),
            )
        }),
{
}

/// When a message was written is what the page says of the first message with its id.
pub proof fn law_a_moment_is_that_of_the_message(page: Seq<JsonV>, message_id: Seq<char>)
    ensures
        ({
            let found = message_with(page, message_id);
            let r = moment_in(page, message_id);
            &&& found is None ==> r is None
            &&& found is Some && found->0.at("timestamp"@) is Str ==> r == moment_of(
                found->0.at("timestamp"@)->Str_0,
            )
            &&& found is Some && !(found->0.at("timestamp"@) is Str) ==> r is None
        }),
{
}

/// Reading forward fails in the words of the reply where it failed, and by what was being done where it
/// came back as something other than a list.
pub proof fn law_reading_forward_says_what_it_was_doing(
    status: u16,
    text: Seq<char>,
    user_id: Seq<char>,
    own_display_name: Option<Seq<char>>,
)
    ensures
        ({
            let r = newer_in(status, text, user_id, own_display_name);
            let doing = "reading the rest of the channel"@;
            let listed = parsed_json(text) is Some && parsed_json(text)->0 is List;
            &&& 200 <= status < 300 && !listed ==> r == Err::<Seq<MessageV>, Seq<char>>(doing)
            &&& !(200 <= status < 300) ==> r == Err::<Seq<MessageV>, Seq<char>>(
                error_sentence(status, reply_of(text), text, captcha_sentence(doing)),
            )
        }),
{
}

} // verus!
