//! Who is in a conversation, and whether they are around.
use vstd::prelude::*;
use crate::json::{Json, JsonV, collect, elements, is_str, jstr, law_put_then_read, lemma_collect_step, nothing, text_or, text_or_v};
use crate::text::{chars_of, comes_after, law_texts_stand_in_one_order, lowercase, same, text_after, texts, views};
use crate::text_map::TextMap;
use super::guilds::copy_list;
use super::http::{Method, Request, asking};
use super::people::{called, display_name, filled, first_of, only_filled, or_else};

verus! {

/// The status to show: idle where that was chosen, else online.
pub open spec fn shown_status(status: Seq<char>) -> Seq<char> {
    if status == "idle"@ {
        "idle"@
    } else {
        "online"@
    }
}

pub open spec fn presence_of(status: Seq<char>) -> JsonV {
    nothing().put("status"@, jstr(shown_status(status))).put("since"@, JsonV::Int(0)).put(
        "activities"@,
        JsonV::List(Seq::empty()),
    ).put("afk"@, JsonV::Bool(status == "idle"@))
}

fn show_status(status: &str) -> (r: &'static str)
    ensures
        r@ == shown_status(status@),
{
    if same(status, "idle") {
        "idle"
    } else {
        "online"
    }
}

/// How a status is told to the service.
pub fn presence_payload(status: &str) -> (r: Json)
    ensures
        r@ == presence_of(status@),
{
    let none: Vec<Json> = Vec::new();
    assert(views(none@) =~= Seq::empty());
    Json::object().put("status", Json::string(show_status(status))).put(
        "since",
        Json::Int(0),
    ).put("activities", Json::list(none)).put("afk", Json::Bool(same(status, "idle")))
}

/// Sets the status that this session shows.
pub fn status_update(status: &str) -> (r: Json)
    ensures
        r@ == nothing().put("op"@, JsonV::Int(3)).put("d"@, presence_of(status@)),
{
    Json::object().put("op", Json::Int(3)).put("d", presence_payload(status))
}

/// Sets the status that the account keeps, which every new session starts from.
pub fn apply_status(token: &str, status: &str) -> (r: Request)
    ensures
        r@ == asking(Method::Patch, "/users/@me/settings"@, token@).with_body(
            nothing().put("status"@, jstr(shown_status(status@))),
        ),
{
    Request::new(Method::Patch, "/users/@me/settings", token).with_body(
        Json::object().put("status", Json::string(show_status(status))),
    )
}

/// The range of a member list that is asked for.
pub open spec fn first_hundred() -> JsonV {
    JsonV::List(seq![JsonV::List(seq![JsonV::Int(0), JsonV::Int(99)])])
}

pub open spec fn member_list_wanted(guild_id: Seq<char>, channel_id: Seq<char>) -> JsonV {
    nothing().put("op"@, JsonV::Int(14)).put(
        "d"@,
        nothing().put("guild_id"@, jstr(guild_id)).put("typing"@, JsonV::Bool(true)).put(
            "threads"@,
            JsonV::Bool(false),
        ).put("activities"@, JsonV::Bool(true)).put(
            "channels"@,
            nothing().put(channel_id, first_hundred()),
        ),
    )
}

/// Asks for a channel's member list. A direct conversation has none.
pub fn request_member_list(channel_id: Option<&str>, guild_id: Option<&str>) -> (r: Option<Json>)
    ensures
        match (channel_id, guild_id, r) {
            (Some(c), Some(g), Some(j)) => j@ == member_list_wanted(g@, c@),
            (Some(_), Some(_), None) => false,
            (_, _, x) => x is None,
        },
{
    match (channel_id, guild_id) {
        (Some(channel_id), Some(guild_id)) => {
            let mut range: Vec<Json> = Vec::new();
            range.push(Json::Int(0));
            range.push(Json::Int(99));
            assert(views(range@) =~= seq![JsonV::Int(0), JsonV::Int(99)]);
            let mut ranges: Vec<Json> = Vec::new();
            ranges.push(Json::list(range));
            assert(views(ranges@) =~= first_hundred()->List_0);
            Some(
                Json::object().put("op", Json::Int(14)).put(
                    "d",
                    Json::object().put("guild_id", Json::string(guild_id)).put(
                        "typing",
                        Json::Bool(true),
                    ).put("threads", Json::Bool(false)).put("activities", Json::Bool(true)).put(
                        "channels",
                        Json::object().put(channel_id, Json::list(ranges)),
                    ),
                ),
            )
        },
        _ => None,
    }
}

/// A row of a member list.
pub open spec fn member_row(nick: Seq<char>, user_id: Seq<char>, status: Seq<char>) -> JsonV {
    nothing().put("nick"@, jstr(nick)).put("userId"@, jstr(user_id)).put("prefix"@, jstr(""@)).put(
        "away"@,
        JsonV::Bool(status == "offline"@),
    ).put("status"@, jstr(status))
}

fn row(nick: &str, user_id: &str, status: &str) -> (r: Json)
    ensures
        r@ == member_row(nick@, user_id@, status@),
{
    Json::object().put("nick", Json::string(nick)).put("userId", Json::string(user_id)).put(
        "prefix",
        Json::string(""),
    ).put("away", Json::Bool(same(status, "offline"))).put("status", Json::string(status))
}

/// Somebody that a member list told of: their id, their name and their membership.
#[derive(Debug, PartialEq, Eq)]
pub struct Learned {
    pub user_id: String,
    pub name: String,
    pub member: Json,
}

pub struct LearnedV {
    pub user_id: Seq<char>,
    pub name: Seq<char>,
    pub member: JsonV,
}

impl View for Learned {
    type V = LearnedV;

    open spec fn view(&self) -> LearnedV {
        LearnedV { user_id: self.user_id@, name: self.name@, member: self.member@ }
    }
}

/// Who an entry of a member list is about; an entry without a member, or a member without an id,
/// is about nobody.
pub open spec fn learned_from(item: JsonV) -> Option<LearnedV> {
    let member = item.at("member"@);
    let user = member.at("user"@);
    let name = or_else(
        or_else(filled(member.at("nick"@).text()), filled(user.at("global_name"@).text())),
        user.at("username"@).text(),
    );
    match user.at("id"@).text() {
        Some(user_id) => Some(
            LearnedV {
                user_id,
                name: match name {
                    Some(n) => n,
                    None => "unknown"@,
                },
                member,
            },
        ),
        None => None,
    }
}

/// The row for an entry of a member list.
pub open spec fn row_of(item: JsonV) -> Option<JsonV> {
    match learned_from(item) {
        Some(who) => Some(
            member_row(
                who.name,
                who.user_id,
                text_or_v(who.member.at("presence"@).at("status"@), "offline"@),
            ),
        ),
        None => None,
    }
}

pub open spec fn row_reader() -> spec_fn(JsonV) -> Option<JsonV> {
    |item: JsonV| row_of(item)
}

pub open spec fn learned_reader() -> spec_fn(JsonV) -> Option<LearnedV> {
    |item: JsonV| learned_from(item)
}

/// The row for an entry of a member list, and who it is about.
pub fn member_entry(item: &Json) -> (r: Option<(Json, Learned)>)
    ensures
        match r {
            Some(x) => row_of(item@) == Some(x.0@) && learned_from(item@) == Some(x.1@),
            None => row_of(item@) is None && learned_from(item@) is None,
        },
{
    let member = item.at("member");
    let user = member.at("user");
    let user_id = match user.at("id").text() {
        Some(id) => id,
        None => {
            return None;
        },
    };
    let name = match first_of(
        first_of(only_filled(member.at("nick").text()), only_filled(user.at("global_name").text())),
        user.at("username").text(),
    ) {
        Some(n) => n,
        None => "unknown",
    };
    let status = text_or(member.at("presence").at("status"), "offline");
    Some(
        (
            row(name, user_id, status),
            Learned { user_id: user_id.to_owned(), name: name.to_owned(), member: member.copy() },
        ),
    )
}

/// The place that an operation is about.
pub open spec fn op_index(op: JsonV) -> Option<int> {
    op.at("index"@).as_u64()
}

/// Where the range of an operation starts.
pub open spec fn op_start(op: JsonV) -> int {
    let range = op.at("range"@).items();
    if range.len() > 0 {
        match range[0].as_u64() {
            Some(n) => n,
            None => 0,
        }
    } else {
        0
    }
}

/// The member list after an operation; nothing where the operation does not fit it.
pub open spec fn after_op(window: Seq<JsonV>, op: JsonV) -> Option<Seq<JsonV>> {
    let name = op.at("op"@).text_or_empty();
    let item = row_of(op.at("item"@));
    if name == "SYNC"@ {
        let rows = collect(op.at("items"@).items(), row_reader());
        let start = op_start(op);
        if start < window.len() {
            Some(window.take(start) + rows)
        } else if start == 0 {
            Some(rows)
        } else {
            Some(window + rows)
        }
    } else if name == "INSERT"@ {
        match (op_index(op), item) {
            (Some(i), Some(entry)) => if i <= window.len() {
                Some(window.insert(i, entry))
            } else {
                None
            },
            _ => None,
        }
    } else if name == "UPDATE"@ {
        match (op_index(op), item) {
            (Some(i), Some(entry)) => if i < window.len() {
                Some(window.update(i, entry))
            } else {
                None
            },
            _ => None,
        }
    } else if name == "DELETE"@ {
        match op_index(op) {
            Some(i) => if i < window.len() {
                Some(window.remove(i))
            } else {
                None
            },
            None => None,
        }
    } else {
        None
    }
}

/// Whom an operation tells of, whether it fits or not.
pub open spec fn op_tells(op: JsonV) -> Seq<LearnedV> {
    let name = op.at("op"@).text_or_empty();
    if name == "SYNC"@ {
        collect(op.at("items"@).items(), learned_reader())
    } else if name == "INSERT"@ || name == "UPDATE"@ {
        match learned_from(op.at("item"@)) {
            Some(who) => seq![who],
            None => Seq::empty(),
        }
    } else {
        Seq::empty()
    }
}

fn start_of(op: &Json) -> (r: u64)
    ensures
        r == op_start(op@),
{
    match op.at("range").list_items() {
        Some(range) => if range.len() > 0 {
            assert(views(range@)[0] == range@[0]@);
            match range[0].as_u64() {
                Some(n) => n,
                None => 0,
            }
        } else {
            0
        },
        None => 0,
    }
}

/// The rows of a list of entries, with whom they are about added to what was learned.
fn read_rows(items: &Vec<Json>, learned: &mut Vec<Learned>) -> (r: Vec<Json>)
    ensures
        views(r@) == collect(views(items@), row_reader()),
        views(final(learned)@) == views(old(learned)@) + collect(views(items@), learned_reader()),
{
    let ghost all = views(items@);
    let ghost start = views(learned@);
    let mut rows: Vec<Json> = Vec::new();
    let mut i: usize = 0;
    proof {
        assert(views(rows@) =~= collect(all.take(0), row_reader()));
        assert(start + collect(all.take(0), learned_reader()) =~= start);
    }
    while i < items.len()
        invariant
            i <= items.len(),
            all == views(items@),
            start == views(old(learned)@),
            views(rows@) == collect(all.take(i as int), row_reader()),
            views(learned@) == start + collect(all.take(i as int), learned_reader()),
        decreases items.len() - i,
    {
        let ghost before = rows@;
        let ghost known = learned@;
        proof {
            lemma_collect_step(all, row_reader(), i as int);
            lemma_collect_step(all, learned_reader(), i as int);
        }
        match member_entry(&items[i]) {
            Some((entry, who)) => {
                rows.push(entry);
                learned.push(who);
                proof {
                    assert(views(rows@) =~= views(before).push(entry@));
                    assert(views(learned@) =~= views(known).push(who@));
                    assert(views(learned@) =~= start + collect(
                        all.take(i as int),
                        learned_reader(),
                    ).push(who@));
                }
            },
            None => {},
        }
        i += 1;
    }
    assert(all.take(i as int) =~= all);
    rows
}

/// Applies one operation to a member list, which is kept in the service's own order. One that does
/// not fit changes nothing.
pub fn apply_member_op(window: &mut Vec<Json>, op: &Json, learned: &mut Vec<Learned>) -> (r: bool)
    ensures
        r == (after_op(views(old(window)@), op@) is Some),
        views(final(window)@) == (match after_op(views(old(window)@), op@) {
            Some(after) => after,
            None => views(old(window)@),
        }),
        views(final(learned)@) == views(old(learned)@) + op_tells(op@),
{
    let name = op.at("op").text_or_empty();
    let ghost before = views(window@);
    let ghost known = views(learned@);
    proof {
        assert(known + Seq::<LearnedV>::empty() =~= known);
    }
    if same(name, "SYNC") {
        let empty: Vec<Json> = Vec::new();
        let items = elements(op.at("items"), &empty);
        let mut rows = read_rows(items, learned);
        let start: u64 = start_of(op);
        if start == 0 {
            proof {
                assert(before.take(0) + views(rows@) =~= views(rows@));
            }
            *window = rows;
        } else {
            if start < window.len() as u64 {
                window.truncate(start as usize);
                assert(views(window@) =~= before.take(start as int));
            }
            let ghost kept = window@;
            let ghost added = rows@;
            window.append(&mut rows);
            assert(views(window@) =~= views(kept) + views(added));
        }
        return true;
    }
    if same(name, "INSERT") || same(name, "UPDATE") {
        let (entry, who) = match member_entry(op.at("item")) {
            Some(x) => x,
            None => {
                return false;
            },
        };
        let ghost told = learned@;
        learned.push(who);
        assert(views(learned@) =~= known + seq![who@]);
        let i: u64 = match op.at("index").as_u64() {
            Some(i) => i,
            None => {
                return false;
            },
        };
        if same(name, "INSERT") {
            if i > window.len() as u64 {
                return false;
            }
            let ghost rows = window@;
            window.insert(i as usize, entry);
            assert(views(window@) =~= views(rows).insert(i as int, entry@));
        } else {
            if i >= window.len() as u64 {
                return false;
            }
            let ghost rows = window@;
            window.set(i as usize, entry);
            assert(views(window@) =~= views(rows).update(i as int, entry@));
        }
        return true;
    }
    if same(name, "DELETE") {
        let i: u64 = match op.at("index").as_u64() {
            Some(i) => i,
            None => {
                return false;
            },
        };
        if i >= window.len() as u64 {
            return false;
        }
        let ghost rows = window@;
        let _ = window.remove(i as usize);
        assert(views(window@) =~= views(rows).remove(i as int));
        return true;
    }
    false
}

/// What somebody is listed as.
pub open spec fn row_name(row: JsonV) -> Seq<char> {
    row.at("nick"@).text_or_empty()
}

/// Whether a row is listed after another: by name in lower case, and where `exact` by the name
/// itself among those that are the same so.
pub open spec fn listed_after(a: JsonV, b: JsonV, exact: bool) -> bool {
    let (x, y) = (row_name(a), row_name(b));
    text_after(lowercase(x), lowercase(y)) || (exact && lowercase(x) == lowercase(y) && text_after(
        x,
        y,
    ))
}

fn is_listed_after(a: &Json, b: &Json, exact: bool) -> (r: bool)
    ensures
        r == listed_after(a@, b@, exact),
{
    let x = a.at("nick").text_or_empty();
    let y = b.at("nick").text_or_empty();
    let low_x = x.to_lowercase();
    let low_y = y.to_lowercase();
    let p = chars_of(low_x.as_str());
    let q = chars_of(low_y.as_str());
    if comes_after(&p, &q) {
        return true;
    }
    if exact && same(low_x.as_str(), low_y.as_str()) {
        let u = chars_of(x);
        let v = chars_of(y);
        return comes_after(&u, &v);
    }
    false
}

/// A list in order with one more row, behind every row that is not listed after it.
pub open spec fn insert_row(list: Seq<JsonV>, row: JsonV, exact: bool) -> Seq<JsonV>
    decreases list.len(),
{
    if list.len() == 0 || !listed_after(list.last(), row, exact) {
        list.push(row)
    } else {
        insert_row(list.drop_last(), row, exact).push(list.last())
    }
}

/// The rows in the order in which they are shown.
pub open spec fn in_order(rows: Seq<JsonV>, exact: bool) -> Seq<JsonV>
    decreases rows.len(),
{
    if rows.len() == 0 {
        Seq::empty()
    } else {
        insert_row(in_order(rows.drop_last(), exact), rows.last(), exact)
    }
}

proof fn lemma_insert_row(list: Seq<JsonV>, row: JsonV, exact: bool, i: int)
    requires
        0 <= i <= list.len(),
        i == 0 || !listed_after(list[i - 1], row, exact),
        forall|j: int| i <= j < list.len() ==> listed_after(#[trigger] list[j], row, exact),
    ensures
        insert_row(list, row, exact) == list.insert(i, row),
    decreases list.len(),
{
    if list.len() == i {
        assert(list.insert(i, row) =~= list.push(row));
    } else {
        assert(list.last() == list[list.len() - 1]);
        lemma_insert_row(list.drop_last(), row, exact, i);
        assert(list.drop_last().insert(i, row).push(list.last()) =~= list.insert(i, row));
    }
}

/// The rows in the order in which they are shown.
pub fn sort_rows(rows: &Vec<Json>, exact: bool) -> (r: Vec<Json>)
    ensures
        views(r@) == in_order(views(rows@), exact),
{
    let ghost all = views(rows@);
    let mut list: Vec<Json> = Vec::new();
    let mut i: usize = 0;
    assert(views(list@) =~= in_order(all.take(0), exact));
    while i < rows.len()
        invariant
            i <= rows.len(),
            all == views(rows@),
            views(list@) == in_order(all.take(i as int), exact),
        decreases rows.len() - i,
    {
        let item = rows[i].copy();
        let ghost before = list@;
        proof {
            assert(all.take(i + 1).drop_last() =~= all.take(i as int));
            assert(all.take(i + 1).last() == item@);
        }
        let mut k: usize = list.len();
        while k > 0 && is_listed_after(&list[k - 1], &item, exact)
            invariant
                list@ == before,
                k <= list.len(),
                forall|j: int|
                    k <= j < list.len() ==> listed_after(#[trigger] list@[j]@, item@, exact),
            decreases k,
        {
            k -= 1;
        }
        proof {
            assert forall|j: int| k <= j < views(before).len() implies listed_after(
                #[trigger] views(before)[j],
                item@,
                exact,
            ) by {
                assert(listed_after(list@[j]@, item@, exact));
            }
            if k > 0 {
                assert(!listed_after(views(before)[k - 1], item@, exact));
            }
            lemma_insert_row(views(before), item@, exact, k as int);
        }
        list.insert(k, item);
        assert(views(list@) =~= views(before).insert(k as int, item@));
        i += 1;
    }
    assert(all.take(i as int) =~= all);
    list
}

/// The member list after all the operations that fit, one after another.
pub open spec fn after_ops(window: Seq<JsonV>, ops: Seq<JsonV>) -> Seq<JsonV>
    decreases ops.len(),
{
    if ops.len() == 0 {
        window
    } else {
        let before = after_ops(window, ops.drop_last());
        match after_op(before, ops.last()) {
            Some(after) => after,
            None => before,
        }
    }
}

/// Whether any of the operations fits.
pub open spec fn any_fits(window: Seq<JsonV>, ops: Seq<JsonV>) -> bool
    decreases ops.len(),
{
    ops.len() > 0 && (any_fits(window, ops.drop_last()) || after_op(
        after_ops(window, ops.drop_last()),
        ops.last(),
    ) is Some)
}

/// Whom the operations tell of.
pub open spec fn all_told(ops: Seq<JsonV>) -> Seq<LearnedV>
    decreases ops.len(),
{
    if ops.len() == 0 {
        Seq::empty()
    } else {
        all_told(ops.drop_last()) + op_tells(ops.last())
    }
}

/// What a member list update comes to.
#[derive(Debug, PartialEq, Eq)]
pub struct MemberUpdate {
    /// The rows to show, where anything changed.
    pub shown: Option<Vec<Json>>,
    pub learned: Vec<Learned>,
}

/// Takes a member list update: the list is kept in the service's order and shown in its own.
pub fn update_member_list(window: &mut Vec<Json>, d: &Json) -> (r: MemberUpdate)
    ensures
        views(final(window)@) == after_ops(views(old(window)@), d@.at("ops"@).items()),
        views(r.learned@) == all_told(d@.at("ops"@).items()),
        match r.shown {
            Some(rows) => any_fits(views(old(window)@), d@.at("ops"@).items()) && views(rows@)
                == in_order(views(final(window)@), true),
            None => !any_fits(views(old(window)@), d@.at("ops"@).items()),
        },
{
    let empty: Vec<Json> = Vec::new();
    let ops = elements(d.at("ops"), &empty);
    let ghost all = views(ops@);
    let ghost start = views(window@);
    let mut learned: Vec<Learned> = Vec::new();
    let mut changed = false;
    let mut i: usize = 0;
    proof {
        assert(all.take(0) =~= Seq::empty());
        assert(views(learned@) =~= Seq::empty());
    }
    while i < ops.len()
        invariant
            i <= ops.len(),
            all == views(ops@),
            start == views(old(window)@),
            views(window@) == after_ops(start, all.take(i as int)),
            views(learned@) == all_told(all.take(i as int)),
            changed == any_fits(start, all.take(i as int)),
        decreases ops.len() - i,
    {
        proof {
            assert(all.take(i + 1).drop_last() =~= all.take(i as int));
            assert(all.take(i + 1).last() == ops@[i as int]@);
        }
        if apply_member_op(window, &ops[i], &mut learned) {
            changed = true;
        }
        i += 1;
    }
    assert(all.take(i as int) =~= all);
    if changed {
        MemberUpdate { shown: Some(sort_rows(window, true)), learned }
    } else {
        MemberUpdate { shown: None, learned }
    }
}

/// An operation that does not fit leaves the list as it was.
pub proof fn law_an_op_that_does_not_fit_changes_nothing(window: Seq<JsonV>, op: JsonV)
    requires
        after_op(window, op) is None,
    ensures
        after_ops(window, seq![op]) == window,
        !any_fits(window, seq![op]),
{
    let ops = seq![op];
    assert(ops.drop_last() =~= Seq::empty());
    assert(ops.last() == op);
    reveal_with_fuel(after_ops, 2);
    reveal_with_fuel(any_fits, 2);
}

/// Taking out what was just put in gives the list back.
pub proof fn law_delete_undoes_insert(window: Seq<JsonV>, insert: JsonV, delete: JsonV)
    requires
        insert.at("op"@).text() == Some("INSERT"@),
        delete.at("op"@).text() == Some("DELETE"@),
        op_index(insert) == op_index(delete),
        after_op(window, insert) is Some,
    ensures
        after_op(after_op(window, insert)->0, delete) == Some(window),
{
    reveal_strlit("SYNC");
    reveal_strlit("INSERT");
    reveal_strlit("UPDATE");
    reveal_strlit("DELETE");
    assert("INSERT"@[0] == 'I' && "SYNC"@[0] == 'S' && "DELETE"@[0] == 'D' && "UPDATE"@[0] == 'U');
    let i = op_index(insert)->0;
    let entry = row_of(insert.at("item"@))->0;
    assert(window.insert(i, entry).remove(i) =~= window);
}

proof fn lemma_in_order(rows: Seq<JsonV>, exact: bool)
    ensures
        in_order(rows, exact).to_multiset() == rows.to_multiset(),
    decreases rows.len(),
{
    broadcast use vstd::seq_lib::group_to_multiset_ensures;

    if rows.len() == 0 {
        assert(in_order(rows, exact) =~= rows);
    } else {
        lemma_in_order(rows.drop_last(), exact);
        lemma_insert_row_keeps(in_order(rows.drop_last(), exact), rows.last(), exact);
        assert(rows =~= rows.drop_last().push(rows.last()));
    }
}

proof fn lemma_insert_row_keeps(list: Seq<JsonV>, row: JsonV, exact: bool)
    ensures
        insert_row(list, row, exact).to_multiset() == list.to_multiset().insert(row),
    decreases list.len(),
{
    broadcast use vstd::seq_lib::group_to_multiset_ensures;

    if list.len() > 0 && listed_after(list.last(), row, exact) {
        lemma_insert_row_keeps(list.drop_last(), row, exact);
        assert(list =~= list.drop_last().push(list.last()));
    }
    assert(insert_row(list, row, exact).to_multiset() =~= list.to_multiset().insert(row));
}

/// Showing a list in order neither loses nor doubles anybody.
pub proof fn law_showing_a_list_keeps_everybody(rows: Seq<JsonV>, exact: bool)
    ensures
        in_order(rows, exact).to_multiset() == rows.to_multiset(),
{
    lemma_in_order(rows, exact);
}

/// The status that each of a list of presences gives, a later one in place of an earlier.
pub open spec fn statuses(presences: Seq<JsonV>) -> Map<Seq<char>, Seq<char>>
    decreases presences.len(),
{
    if presences.len() == 0 {
        Map::empty()
    } else {
        let before = statuses(presences.drop_last());
        let last = presences.last();
        match last.at("user"@).at("id"@).text() {
            Some(id) => before.insert(id, text_or_v(last.at("status"@), "offline"@)),
            None => before,
        }
    }
}

/// A map of texts, by what they are.
pub open spec fn text_values(map: Map<Seq<char>, String>) -> Map<Seq<char>, Seq<char>> {
    Map::new(|k: Seq<char>| map.contains_key(k), |k: Seq<char>| map[k]@)
}

/// The statuses that a session starts with.
pub fn read_presences(list: &Json) -> (r: TextMap<String>)
    ensures
        text_values(r@) == statuses(list@.items()),
{
    let empty: Vec<Json> = Vec::new();
    let items = elements(list, &empty);
    let ghost all = views(items@);
    let mut out: TextMap<String> = TextMap::new();
    let mut i: usize = 0;
    assert(text_values(out@) =~= statuses(all.take(0)));
    while i < items.len()
        invariant
            i <= items.len(),
            all == views(items@),
            text_values(out@) == statuses(all.take(i as int)),
        decreases items.len() - i,
    {
        let p = &items[i];
        let ghost before = out@;
        proof {
            assert(all.take(i + 1).drop_last() =~= all.take(i as int));
            assert(all.take(i + 1).last() == p@);
        }
        match p.at("user").at("id").text() {
            Some(id) => {
                let status = text_or(p.at("status"), "offline").to_owned();
                out.insert(id, status);
                assert(text_values(out@) =~= text_values(before).insert(id@, status@));
            },
            None => {},
        }
        i += 1;
    }
    assert(all.take(i as int) =~= all);
    out
}

/// The status that is known of somebody, offline where none is.
pub open spec fn known_status(known: Map<Seq<char>, Seq<char>>, user_id: Seq<char>) -> Seq<char> {
    if known.contains_key(user_id) {
        known[user_id]
    } else {
        "offline"@
    }
}

/// The row for somebody in a direct conversation.
pub open spec fn recipient_row(r: JsonV, known: Map<Seq<char>, Seq<char>>) -> Option<JsonV> {
    match r.at("id"@).text() {
        Some(user_id) => Some(
            member_row(
                match called(r) {
                    Some(n) => n,
                    None => "unknown"@,
                },
                user_id,
                known_status(known, user_id),
            ),
        ),
        None => None,
    }
}

pub open spec fn recipient_reader(known: Map<Seq<char>, Seq<char>>) -> spec_fn(JsonV) -> Option<
    JsonV,
> {
    |r: JsonV| recipient_row(r, known)
}

/// The people in a direct conversation, in the order in which they are shown.
pub open spec fn dm_roster(channel: JsonV, known: Map<Seq<char>, Seq<char>>) -> Seq<JsonV> {
    in_order(collect(channel.at("recipients"@).items(), recipient_reader(known)), false)
}

fn read_recipient(r: &Json, presences: &TextMap<String>) -> (out: Option<Json>)
    ensures
        match out {
            Some(x) => recipient_row(r@, text_values(presences@)) == Some(x@),
            None => recipient_row(r@, text_values(presences@)) is None,
        },
{
    match r.at("id").text() {
        Some(user_id) => {
            let nick = match display_name(r) {
                Some(n) => n,
                None => "unknown",
            };
            let status = match presences.get(user_id) {
                Some(s) => s.as_str(),
                None => "offline",
            };
            Some(row(nick, user_id, status))
        },
        None => None,
    }
}

/// A direct conversation's list of members: whoever is in it.
pub fn set_dm_presence(channel: &Json, presences: &TextMap<String>) -> (r: Vec<Json>)
    ensures
        views(r@) == dm_roster(channel@, text_values(presences@)),
{
    let empty: Vec<Json> = Vec::new();
    let recipients = elements(channel.at("recipients"), &empty);
    let ghost all = views(recipients@);
    let ghost reader = recipient_reader(text_values(presences@));
    let mut rows: Vec<Json> = Vec::new();
    let mut i: usize = 0;
    assert(views(rows@) =~= collect(all.take(0), reader));
    while i < recipients.len()
        invariant
            i <= recipients.len(),
            all == views(recipients@),
            reader == recipient_reader(text_values(presences@)),
            views(rows@) == collect(all.take(i as int), reader),
        decreases recipients.len() - i,
    {
        let ghost before = rows@;
        proof {
            lemma_collect_step(all, reader, i as int);
        }
        match read_recipient(&recipients[i], presences) {
            Some(x) => {
                rows.push(x);
                assert(views(rows@) =~= views(before).push(x@));
            },
            None => {},
        }
        i += 1;
    }
    assert(all.take(i as int) =~= all);
    sort_rows(&rows, false)
}

/// A row with a new status, where it is somebody's.
pub open spec fn restated(row: JsonV, user_id: Seq<char>, status: Seq<char>) -> JsonV {
    if row.at("userId"@).text() == Some(user_id) {
        row.set("status"@, jstr(status)).set("away"@, JsonV::Bool(status == "offline"@))
    } else {
        row
    }
}

pub open spec fn is_listed(rows: Seq<JsonV>, user_id: Seq<char>) -> bool {
    exists|i: int|
        0 <= i < rows.len() && (#[trigger] rows[i]).at("userId"@).text() == Some(user_id)
}

/// A list of members after somebody's status changed; nothing where they are not on it.
pub open spec fn roster_after(roster: JsonV, user_id: Seq<char>, status: Seq<char>) -> Option<JsonV> {
    let rows = roster.items();
    if is_listed(rows, user_id) {
        Some(JsonV::List(Seq::new(rows.len(), |i: int| restated(rows[i], user_id, status))))
    } else {
        None
    }
}

fn listed(rows: &Vec<Json>, user_id: &str) -> (r: bool)
    ensures
        r == is_listed(views(rows@), user_id@),
{
    let ghost all = views(rows@);
    let mut i: usize = 0;
    while i < rows.len()
        invariant
            i <= rows.len(),
            all == views(rows@),
            forall|j: int| 0 <= j < i ==> (#[trigger] all[j]).at("userId"@).text() != Some(user_id@),
        decreases rows.len() - i,
    {
        if is_str(rows[i].at("userId"), user_id) {
            assert(all[i as int].at("userId"@).text() == Some(user_id@));
            return true;
        }
        i += 1;
    }
    false
}

/// Updates somebody's status in a list of members that they are on.
pub fn update_presence_in_roster(roster: &Json, user_id: &str, status: &str) -> (r: Option<Json>)
    ensures
        match r {
            Some(x) => roster_after(roster@, user_id@, status@) == Some(x@),
            None => roster_after(roster@, user_id@, status@) is None,
        },
{
    let rows = match roster.list_items() {
        Some(rows) => rows,
        None => {
            return None;
        },
    };
    if !listed(rows, user_id) {
        return None;
    }
    let ghost all = views(rows@);
    let mut out: Vec<Json> = Vec::new();
    let mut i: usize = 0;
    while i < rows.len()
        invariant
            i <= rows.len(),
            all == views(rows@),
            out.len() == i,
            forall|j: int|
                0 <= j < i ==> (#[trigger] out@[j])@ == restated(all[j], user_id@, status@),
        decreases rows.len() - i,
    {
        let copy = rows[i].copy();
        let next = if is_str(rows[i].at("userId"), user_id) {
            copy.set("status", Json::string(status)).set(
                "away",
                Json::Bool(same(status, "offline")),
            )
        } else {
            copy
        };
        out.push(next);
        i += 1;
    }
    assert(views(out@) =~= Seq::new(all.len(), |i: int| restated(all[i], user_id@, status@)));
    Some(Json::list(out))
}

/// The list of members of a conversation.
#[derive(Debug, PartialEq, Eq)]
pub struct Roster {
    pub buffer_id: String,
    pub members: Json,
}

pub struct RosterV {
    pub buffer_id: Seq<char>,
    pub members: JsonV,
}

impl View for Roster {
    type V = RosterV;

    open spec fn view(&self) -> RosterV {
        RosterV { buffer_id: self.buffer_id@, members: self.members@ }
    }
}

/// The lists that somebody's status changes, each as it is afterwards.
pub open spec fn rosters_after(
    rosters: Seq<RosterV>,
    user_id: Seq<char>,
    status: Seq<char>,
) -> Seq<RosterV>
    decreases rosters.len(),
{
    if rosters.len() == 0 {
        Seq::empty()
    } else {
        let before = rosters_after(rosters.drop_last(), user_id, status);
        let last = rosters.last();
        match roster_after(last.members, user_id, status) {
            Some(members) => before.push(RosterV { buffer_id: last.buffer_id, members }),
            None => before,
        }
    }
}

/// Updates somebody's status wherever they are listed. A conversation that does not list them is
/// not among those that come back.
pub fn update_presence_in_rosters(rosters: &Vec<Roster>, user_id: &str, status: &str) -> (r: Vec<
    Roster,
>)
    ensures
        views(r@) == rosters_after(views(rosters@), user_id@, status@),
{
    let ghost all = views(rosters@);
    let mut out: Vec<Roster> = Vec::new();
    let mut i: usize = 0;
    assert(views(out@) =~= rosters_after(all.take(0), user_id@, status@));
    while i < rosters.len()
        invariant
            i <= rosters.len(),
            all == views(rosters@),
            views(out@) == rosters_after(all.take(i as int), user_id@, status@),
        decreases rosters.len() - i,
    {
        let ghost before = out@;
        assert(all.take(i + 1).drop_last() =~= all.take(i as int));
        match update_presence_in_roster(&rosters[i].members, user_id, status) {
            Some(members) => {
                let next = Roster { buffer_id: rosters[i].buffer_id.clone(), members };
                out.push(next);
                assert(views(out@) =~= views(before).push(next@));
            },
            None => {},
        }
        i += 1;
    }
    assert(all.take(i as int) =~= all);
    out
}

/// What is told of a list of members that changed.
pub open spec fn roster_notice(roster: RosterV) -> JsonV {
    nothing().put("bufferId"@, jstr(roster.buffer_id)).put("members"@, roster.members)
}

pub fn tell_roster(roster: &Roster) -> (r: Json)
    ensures
        r@ == roster_notice(roster@),
{
    Json::object().put("bufferId", Json::string(roster.buffer_id.as_str())).put(
        "members",
        roster.members.copy(),
    )
}

/// A status change touches the one person's rows and nobody else's.
pub proof fn law_a_status_change_touches_one_person(
    row: JsonV,
    user_id: Seq<char>,
    status: Seq<char>,
)
    ensures
        row.at("userId"@).text() != Some(user_id) ==> restated(row, user_id, status) == row,
        row.at("userId"@).text() == Some(user_id) ==> {
            &&& restated(row, user_id, status).at("status"@) == jstr(status)
            &&& restated(row, user_id, status).at("away"@) == JsonV::Bool(status == "offline"@)
            &&& restated(row, user_id, status).at("nick"@) == row.at("nick"@)
            &&& restated(row, user_id, status).at("userId"@) == row.at("userId"@)
        },
{
    if row.at("userId"@).text() == Some(user_id) {
        reveal_strlit("status");
        reveal_strlit("away");
        reveal_strlit("nick");
        reveal_strlit("userId");
        assert("status"@[0] == 's' && "away"@[0] == 'a' && "nick"@[0] == 'n' && "userId"@[0]
            == 'u');
        let once = row.set("status"@, jstr(status));
        let away = JsonV::Bool(status == "offline"@);
        crate::json::law_set_then_read(row, "status"@, jstr(status), "nick"@);
        crate::json::law_set_then_read(row, "status"@, jstr(status), "userId"@);
        crate::json::law_set_then_read(once, "away"@, away, "status"@);
        crate::json::law_set_then_read(once, "away"@, away, "nick"@);
        crate::json::law_set_then_read(once, "away"@, away, "userId"@);
    }
}

/// Who an entry of a member list is about: the member whose user has an id, by the nickname they
/// have there, else by the name they chose, else by the one they signed up with.
pub proof fn law_an_entry_is_about_its_user(item: JsonV)
    ensures
        ({
            let member = item.at("member"@);
            let user = member.at("user"@);
            let nick = member.at("nick"@).text_or_empty();
            let chosen = user.at("global_name"@).text_or_empty();
            let who = learned_from(item);
            &&& who is Some <==> user.at("id"@) is Str
            &&& who is Some ==> {
                &&& user.at("id"@) == JsonV::Str(who->0.user_id)
                &&& who->0.member == member
                &&& nick.len() > 0 ==> who->0.name == nick
                &&& nick.len() == 0 && chosen.len() > 0 ==> who->0.name == chosen
                &&& nick.len() == 0 && chosen.len() == 0 && user.at("username"@) is Str
                    ==> user.at("username"@) == JsonV::Str(who->0.name)
                &&& nick.len() == 0 && chosen.len() == 0 && !(user.at("username"@) is Str)
                    ==> who->0.name == "unknown"@
            }
        }),
{
}

/// The row of an entry shows the person that the entry is about, under their name, with the status
/// that came with them, and away where that is none or offline.
pub proof fn law_a_row_shows_its_entry(item: JsonV)
    ensures
        ({
            let member = item.at("member"@);
            let status = member.at("presence"@).at("status"@);
            let r = row_of(item);
            &&& r is Some <==> member.at("user"@).at("id"@) is Str
            &&& r is Some ==> {
                &&& r->0.at("userId"@) == member.at("user"@).at("id"@)
                &&& r->0.at("nick"@) == JsonV::Str(learned_from(item)->0.name)
                &&& r->0.at("prefix"@) == JsonV::Str(""@)
                &&& status is Str ==> r->0.at("status"@) == status
                &&& !(status is Str) ==> r->0.at("status"@) == JsonV::Str("offline"@)
                &&& r->0.at("away"@) == JsonV::Bool(r->0.at("status"@) == JsonV::Str("offline"@))
            }
        }),
{
    broadcast use law_put_then_read;

    reveal_strlit("nick");
    reveal_strlit("userId");
    reveal_strlit("prefix");
    reveal_strlit("away");
    reveal_strlit("status");
    assert("nick"@.len() == 4);
    assert("userId"@.len() == 6);
    assert("prefix"@.len() == 6);
    assert("away"@.len() == 4);
    assert("status"@.len() == 6);
    assert("away"@[0] == 'a');
    assert("nick"@[0] == 'n');
    assert("prefix"@[0] == 'p');
    assert("status"@[0] == 's');
    assert("userId"@[0] == 'u');
}

/// An update fits where it names a place in the list and somebody to put there. The list is then as
/// long as it was, the row at that place is the one of the item, and every other row is what it was.
pub proof fn law_an_update_replaces_one_row(window: Seq<JsonV>, op: JsonV)
    requires
        op.at("op"@) == JsonV::Str("UPDATE"@),
    ensures
        ({
            let after = after_op(window, op);
            let place = op.at("index"@).as_u64();
            &&& after is Some <==> place is Some && place->0 < window.len() && op.at("item"@).at(
                "member"@,
            ).at("user"@).at("id"@) is Str
            &&& after is Some ==> {
                &&& after->0.len() == window.len()
                &&& row_of(op.at("item"@)) == Some(after->0[place->0])
                &&& forall|j: int|
                    0 <= j < window.len() && j != place->0 ==> #[trigger] after->0[j] == window[j]
            }
        }),
{
    reveal_strlit("SYNC");
    reveal_strlit("INSERT");
    reveal_strlit("UPDATE");
    reveal_strlit("DELETE");
    assert("SYNC"@.len() == 4);
    assert("INSERT"@.len() == 6);
    assert("UPDATE"@.len() == 6);
    assert("DELETE"@.len() == 6);
    assert("DELETE"@[0] == 'D');
    assert("INSERT"@[0] == 'I');
    assert("UPDATE"@[0] == 'U');
}

/// An insertion fits where it names a place in the list or its end, and somebody to put there. The
/// row of the item then stands at that place, what stood before it stands there still, and what
/// stood there and behind has moved on by one.
pub proof fn law_an_insertion_moves_the_rest_on(window: Seq<JsonV>, op: JsonV)
    requires
        op.at("op"@) == JsonV::Str("INSERT"@),
    ensures
        ({
            let after = after_op(window, op);
            let place = op.at("index"@).as_u64();
            &&& after is Some <==> place is Some && place->0 <= window.len() && op.at("item"@).at(
                "member"@,
            ).at("user"@).at("id"@) is Str
            &&& after is Some ==> {
                &&& after->0.len() == window.len() + 1
                &&& row_of(op.at("item"@)) == Some(after->0[place->0])
                &&& forall|j: int| 0 <= j < place->0 ==> #[trigger] after->0[j] == window[j]
                &&& forall|j: int|
                    place->0 < j <= window.len() ==> #[trigger] after->0[j] == window[j - 1]
            }
        }),
{
    reveal_strlit("SYNC");
    reveal_strlit("INSERT");
    reveal_strlit("UPDATE");
    reveal_strlit("DELETE");
    assert("SYNC"@.len() == 4);
    assert("INSERT"@.len() == 6);
    assert("UPDATE"@.len() == 6);
    assert("DELETE"@.len() == 6);
    assert("DELETE"@[0] == 'D');
    assert("INSERT"@[0] == 'I');
    assert("UPDATE"@[0] == 'U');
}

/// A deletion fits where it names a place in the list. The row there is gone, what stood before it
/// stands there still, and what stood behind it has moved up by one.
pub proof fn law_a_deletion_takes_one_row_out(window: Seq<JsonV>, op: JsonV)
    requires
        op.at("op"@) == JsonV::Str("DELETE"@),
    ensures
        ({
            let after = after_op(window, op);
            let place = op.at("index"@).as_u64();
            &&& after is Some <==> place is Some && place->0 < window.len()
            &&& after is Some ==> {
                &&& after->0.len() == window.len() - 1
                &&& forall|j: int| 0 <= j < place->0 ==> #[trigger] after->0[j] == window[j]
                &&& forall|j: int|
                    place->0 <= j < window.len() - 1 ==> #[trigger] after->0[j] == window[j + 1]
            }
        }),
{
    reveal_strlit("SYNC");
    reveal_strlit("INSERT");
    reveal_strlit("UPDATE");
    reveal_strlit("DELETE");
    assert("SYNC"@.len() == 4);
    assert("INSERT"@.len() == 6);
    assert("UPDATE"@.len() == 6);
    assert("DELETE"@.len() == 6);
    assert("DELETE"@[0] == 'D');
    assert("INSERT"@[0] == 'I');
    assert("UPDATE"@[0] == 'U');
}

/// A synchronisation always fits. What stands before the start of its range stays, and behind that
/// stand the rows of its items and nothing else.
pub proof fn law_a_sync_replaces_the_rest(window: Seq<JsonV>, op: JsonV)
    requires
        op.at("op"@) == JsonV::Str("SYNC"@),
    ensures
        ({
            let after = after_op(window, op);
            let range = op.at("range"@).items();
            let start = if range.len() > 0 && range[0].as_u64() is Some {
                range[0].as_u64()->0
            } else {
                0
            };
            let kept = if start < window.len() {
                start
            } else {
                window.len() as int
            };
            &&& after is Some
            &&& after->0.len() >= kept
            &&& forall|j: int| 0 <= j < kept ==> #[trigger] after->0[j] == window[j]
            &&& after->0.skip(kept) == collect(op.at("items"@).items(), |item: JsonV| row_of(item))
        }),
{
    reveal_strlit("SYNC");
    reveal_strlit("INSERT");
    reveal_strlit("UPDATE");
    reveal_strlit("DELETE");
    assert("SYNC"@.len() == 4);
    assert("INSERT"@.len() == 6);
    assert("UPDATE"@.len() == 6);
    assert("DELETE"@.len() == 6);
    assert("DELETE"@[0] == 'D');
    assert("INSERT"@[0] == 'I');
    assert("UPDATE"@[0] == 'U');
    let rows = collect(op.at("items"@).items(), row_reader());
    let start = op_start(op);
    let after = after_op(window, op)->0;
    if start < window.len() {
        assert((window.take(start) + rows).skip(start) =~= rows);
    } else if start == 0 {
        assert(rows.skip(0) =~= rows);
    } else {
        assert((window + rows).skip(window.len() as int) =~= rows);
    }
}

/// No other operation fits.
pub proof fn law_only_four_operations_are_known(window: Seq<JsonV>, op: JsonV)
    requires
        op.at("op"@) != JsonV::Str("SYNC"@),
        op.at("op"@) != JsonV::Str("INSERT"@),
        op.at("op"@) != JsonV::Str("UPDATE"@),
        op.at("op"@) != JsonV::Str("DELETE"@),
    ensures
        after_op(window, op) is None,
        op_tells(op).len() == 0,
{
    reveal_strlit("SYNC");
    reveal_strlit("INSERT");
    reveal_strlit("UPDATE");
    reveal_strlit("DELETE");
    assert("SYNC"@.len() == 4);
    assert("INSERT"@.len() == 6);
    assert("UPDATE"@.len() == 6);
    assert("DELETE"@.len() == 6);
    assert("DELETE"@[0] == 'D');
    assert("INSERT"@[0] == 'I');
    assert("UPDATE"@[0] == 'U');
}

/// Whoever an operation puts in is told of, whether it fits or not; what takes out tells of nobody.
pub proof fn law_an_operation_tells_whom_it_names(op: JsonV)
    ensures
        op.at("op"@) == JsonV::Str("DELETE"@) ==> op_tells(op).len() == 0,
        op.at("op"@) == JsonV::Str("UPDATE"@) || op.at("op"@) == JsonV::Str("INSERT"@) ==> {
            let who = learned_from(op.at("item"@));
            &&& who is Some ==> op_tells(op) == seq![who->0]
            &&& who is None ==> op_tells(op).len() == 0
        },
        op.at("op"@) == JsonV::Str("SYNC"@) ==> op_tells(op) == collect(
            op.at("items"@).items(),
            |item: JsonV| learned_from(item),
        ),
{
    reveal_strlit("SYNC");
    reveal_strlit("INSERT");
    reveal_strlit("UPDATE");
    reveal_strlit("DELETE");
    assert("SYNC"@.len() == 4);
    assert("INSERT"@.len() == 6);
    assert("UPDATE"@.len() == 6);
    assert("DELETE"@.len() == 6);
    assert("DELETE"@[0] == 'D');
    assert("INSERT"@[0] == 'I');
    assert("UPDATE"@[0] == 'U');
}

/// Operations apply one after another: each to what the ones before it left, and one that does not
/// fit is passed over.
pub proof fn law_operations_apply_in_turn(window: Seq<JsonV>, ops: Seq<JsonV>, op: JsonV)
    ensures
        after_ops(window, Seq::empty()) == window,
        !any_fits(window, Seq::empty()),
        after_op(after_ops(window, ops), op) is Some ==> {
            &&& after_ops(window, ops.push(op)) == after_op(after_ops(window, ops), op)->0
            &&& any_fits(window, ops.push(op))
        },
        after_op(after_ops(window, ops), op) is None ==> {
            &&& after_ops(window, ops.push(op)) == after_ops(window, ops)
            &&& any_fits(window, ops.push(op)) == any_fits(window, ops)
        },
        all_told(Seq::empty()).len() == 0,
        all_told(ops.push(op)) == all_told(ops) + op_tells(op),
{
    assert(ops.push(op).drop_last() =~= ops);
    assert(ops.push(op).last() == op);
}

/// A list is shown by name in lower case, and where the order is exact by the name itself among
/// those that are the same so: no row stands before one whose name comes before its own.
pub proof fn law_a_list_is_shown_by_name(rows: Seq<JsonV>, exact: bool, i: int)
    requires
        0 <= i < in_order(rows, exact).len() - 1,
    ensures
        ({
            let this = in_order(rows, exact)[i].at("nick"@).text_or_empty();
            let next = in_order(rows, exact)[i + 1].at("nick"@).text_or_empty();
            &&& !text_after(lowercase(this), lowercase(next))
            &&& exact && lowercase(this) == lowercase(next) ==> !text_after(this, next)
        }),
{
    lemma_in_order_sorted(rows, exact);
    assert(!listed_after(in_order(rows, exact)[i], in_order(rows, exact)[i + 1], exact));
}

proof fn lemma_in_order_sorted(rows: Seq<JsonV>, exact: bool)
    ensures
        forall|i: int|
            0 <= i < in_order(rows, exact).len() - 1 ==> !listed_after(
                #[trigger] in_order(rows, exact)[i],
                in_order(rows, exact)[i + 1],
                exact,
            ),
    decreases rows.len(),
{
    if rows.len() > 0 {
        lemma_in_order_sorted(rows.drop_last(), exact);
        lemma_insert_row_sorted(in_order(rows.drop_last(), exact), rows.last(), exact);
    }
}

proof fn lemma_insert_row_sorted(list: Seq<JsonV>, row: JsonV, exact: bool)
    requires
        forall|i: int|
            0 <= i < list.len() - 1 ==> !listed_after(#[trigger] list[i], list[i + 1], exact),
    ensures
        forall|i: int|
            0 <= i < insert_row(list, row, exact).len() - 1 ==> !listed_after(
                #[trigger] insert_row(list, row, exact)[i],
                insert_row(list, row, exact)[i + 1],
                exact,
            ),
        insert_row(list, row, exact).len() == list.len() + 1,
        insert_row(list, row, exact).last() == row || (list.len() > 0 && insert_row(
            list,
            row,
            exact,
        ).last() == list.last()),
    decreases list.len(),
{
    if list.len() > 0 && listed_after(list.last(), row, exact) {
        let front = list.drop_last();
        assert forall|i: int| 0 <= i < front.len() - 1 implies !listed_after(
            #[trigger] front[i],
            front[i + 1],
            exact,
        ) by {
            assert(front[i] == list[i] && front[i + 1] == list[i + 1]);
        }
        lemma_insert_row_sorted(front, row, exact);
        let inner = insert_row(front, row, exact);
        let out = insert_row(list, row, exact);
        let (x, y) = (row_name(list.last()), row_name(row));
        law_texts_stand_in_one_order(lowercase(x), lowercase(y));
        law_texts_stand_in_one_order(x, y);
        assert(!listed_after(row, list.last(), exact));
        if front.len() > 0 {
            assert(front.last() == list[list.len() - 2]);
            assert(!listed_after(list[list.len() - 2], list[list.len() - 1], exact));
        }
        assert forall|i: int| 0 <= i < out.len() - 1 implies !listed_after(
            #[trigger] out[i],
            out[i + 1],
            exact,
        ) by {
            if i < inner.len() - 1 {
                assert(out[i] == inner[i] && out[i + 1] == inner[i + 1]);
            } else {
                assert(out[i] == inner.last());
            }
        }
    } else {
        let out = list.push(row);
        assert forall|i: int| 0 <= i < out.len() - 1 implies !listed_after(
            #[trigger] out[i],
            out[i + 1],
            exact,
        ) by {
            if i < list.len() - 1 {
                assert(out[i] == list[i] && out[i + 1] == list[i + 1]);
            }
        }
    }
}

/// The last presence of somebody is the one that counts, offline where it gives no status; one that
/// is about nobody changes nothing.
pub proof fn law_the_last_presence_counts(presences: Seq<JsonV>, last: JsonV)
    ensures
        ({
            let before = statuses(presences);
            let after = statuses(presences.push(last));
            let id = last.at("user"@).at("id"@);
            &&& !(id is Str) ==> after == before
            &&& id is Str ==> {
                let user = id->Str_0;
                &&& after.contains_key(user)
                &&& last.at("status"@) is Str ==> last.at("status"@) == JsonV::Str(after[user])
                &&& !(last.at("status"@) is Str) ==> after[user] == "offline"@
                &&& forall|other: Seq<char>|
                    #![auto]
                    other != user ==> after.contains_key(other) == before.contains_key(other) && (
                    before.contains_key(other) ==> after[other] == before[other])
            }
        }),
        statuses(Seq::empty()) == Map::<Seq<char>, Seq<char>>::empty(),
{
    assert(presences.push(last).drop_last() =~= presences);
    assert(presences.push(last).last() == last);
}

/// The row of somebody in a direct conversation shows their id, their name, and the status that is
/// known of them; somebody of whom none is known is offline, and away.
pub proof fn law_a_recipient_is_shown(r: JsonV, known: Map<Seq<char>, Seq<char>>)
    ensures
        ({
            let row = recipient_row(r, known);
            let chosen = r.at("global_name"@).text_or_empty();
            &&& row is Some <==> r.at("id"@) is Str
            &&& row is Some ==> {
                let id = r.at("id"@)->Str_0;
                &&& row->0.at("userId"@) == r.at("id"@)
                &&& chosen.len() > 0 ==> row->0.at("nick"@) == JsonV::Str(chosen)
                &&& chosen.len() == 0 && r.at("username"@) is Str ==> row->0.at("nick"@) == r.at(
                    "username"@,
                )
                &&& chosen.len() == 0 && !(r.at("username"@) is Str) ==> row->0.at("nick"@)
                    == JsonV::Str("unknown"@)
                &&& known.contains_key(id) ==> row->0.at("status"@) == JsonV::Str(known[id])
                &&& !known.contains_key(id) ==> row->0.at("status"@) == JsonV::Str("offline"@)
                &&& row->0.at("away"@) == JsonV::Bool(
                    row->0.at("status"@) == JsonV::Str("offline"@),
                )
            }
        }),
{
    broadcast use law_put_then_read;

    reveal_strlit("nick");
    reveal_strlit("userId");
    reveal_strlit("prefix");
    reveal_strlit("away");
    reveal_strlit("status");
    assert("nick"@.len() == 4);
    assert("userId"@.len() == 6);
    assert("prefix"@.len() == 6);
    assert("away"@.len() == 4);
    assert("status"@.len() == 6);
    assert("away"@[0] == 'a');
    assert("nick"@[0] == 'n');
    assert("prefix"@[0] == 'p');
    assert("status"@[0] == 's');
    assert("userId"@[0] == 'u');
}

/// A direct conversation lists whoever is in it, once each, by name.
pub proof fn law_a_direct_conversation_lists_its_people(
    channel: JsonV,
    known: Map<Seq<char>, Seq<char>>,
)
    ensures
        dm_roster(channel, known).to_multiset() == collect(
            channel.at("recipients"@).items(),
            |r: JsonV| recipient_row(r, known),
        ).to_multiset(),
        forall|i: int|
            0 <= i < dm_roster(channel, known).len() - 1 ==> !text_after(
                lowercase((#[trigger] dm_roster(channel, known)[i]).at("nick"@).text_or_empty()),
                lowercase(dm_roster(channel, known)[i + 1].at("nick"@).text_or_empty()),
            ),
{
    let rows = collect(channel.at("recipients"@).items(), recipient_reader(known));
    lemma_in_order(rows, false);
    assert forall|i: int| 0 <= i < dm_roster(channel, known).len() - 1 implies !text_after(
        lowercase((#[trigger] dm_roster(channel, known)[i]).at("nick"@).text_or_empty()),
        lowercase(dm_roster(channel, known)[i + 1].at("nick"@).text_or_empty()),
    ) by {
        law_a_list_is_shown_by_name(rows, false, i);
    }
}

/// Only a list that somebody is on changes with their status. It keeps its length and its order;
/// their rows show the new status, and nobody else's row changes.
pub proof fn law_a_list_follows_a_status(roster: JsonV, user_id: Seq<char>, status: Seq<char>)
    ensures
        ({
            let rows = roster.items();
            let after = roster_after(roster, user_id, status);
            &&& after is Some <==> exists|i: int|
                0 <= i < rows.len() && (#[trigger] rows[i]).at("userId"@) == JsonV::Str(user_id)
            &&& after is Some ==> {
                &&& after->0.items().len() == rows.len()
                &&& forall|i: int|
                    0 <= i < rows.len() ==> (if rows[i].at("userId"@) == JsonV::Str(user_id) {
                        &&& (#[trigger] after->0.items()[i]).at("status"@) == JsonV::Str(status)
                        &&& after->0.items()[i].at("away"@) == JsonV::Bool(status == "offline"@)
                        &&& after->0.items()[i].at("nick"@) == rows[i].at("nick"@)
                        &&& after->0.items()[i].at("userId"@) == rows[i].at("userId"@)
                    } else {
                        after->0.items()[i] == rows[i]
                    })
            }
        }),
{
    let rows = roster.items();
    assert forall|i: int| 0 <= i < rows.len() implies ((#[trigger] rows[i]).at("userId"@)
        == JsonV::Str(user_id)) == (rows[i].at("userId"@).text() == Some(user_id)) by {}
    if roster_after(roster, user_id, status) is Some {
        let after = roster_after(roster, user_id, status)->0;
        assert forall|i: int| 0 <= i < rows.len() implies (if rows[i].at("userId"@) == JsonV::Str(
            user_id,
        ) {
            &&& (#[trigger] after.items()[i]).at("status"@) == JsonV::Str(status)
            &&& after.items()[i].at("away"@) == JsonV::Bool(status == "offline"@)
            &&& after.items()[i].at("nick"@) == rows[i].at("nick"@)
            &&& after.items()[i].at("userId"@) == rows[i].at("userId"@)
        } else {
            after.items()[i] == rows[i]
        }) by {
            law_a_status_change_touches_one_person(rows[i], user_id, status);
        }
    }
}

/// Lists are gone through one after another: each that somebody is on comes back under its own
/// conversation, and no other does.
pub proof fn law_lists_follow_a_status_in_turn(
    rosters: Seq<RosterV>,
    last: RosterV,
    user_id: Seq<char>,
    status: Seq<char>,
)
    ensures
        ({
            let before = rosters_after(rosters, user_id, status);
            let after = rosters_after(rosters.push(last), user_id, status);
            let members = roster_after(last.members, user_id, status);
            &&& members is None ==> after == before
            &&& members is Some ==> {
                &&& after.len() == before.len() + 1
                &&& after.take(before.len() as int) == before
                &&& after.last().buffer_id == last.buffer_id
                &&& after.last().members == members->0
            }
        }),
        rosters_after(Seq::empty(), user_id, status).len() == 0,
{
    assert(rosters.push(last).drop_last() =~= rosters);
    assert(rosters.push(last).last() == last);
    let before = rosters_after(rosters, user_id, status);
    let after = rosters_after(rosters.push(last), user_id, status);
    if roster_after(last.members, user_id, status) is Some {
        assert(after.take(before.len() as int) =~= before);
    }
}

/// A status is told as idle, and away from the keyboard, where it is idle; as online where it is
/// anything else.
pub proof fn law_idle_is_told_as_away(status: Seq<char>)
    ensures
        ({
            let p = presence_of(status);
            &&& status == "idle"@ ==> p.at("status"@) == JsonV::Str("idle"@) && p.at("afk"@)
                == JsonV::Bool(true)
            &&& status != "idle"@ ==> p.at("status"@) == JsonV::Str("online"@) && p.at("afk"@)
                == JsonV::Bool(false)
            &&& p.at("since"@) == JsonV::Int(0)
            &&& p.at("activities"@) == JsonV::List(Seq::empty())
        }),
{
    broadcast use law_put_then_read;

    reveal_strlit("status");
    reveal_strlit("since");
    reveal_strlit("activities");
    reveal_strlit("afk");
    assert("status"@.len() == 6);
    assert("since"@.len() == 5);
    assert("activities"@.len() == 10);
    assert("afk"@.len() == 3);
}

/// A member list is asked for by its server and its channel: the first hundred rows of that channel.
pub proof fn law_a_member_list_is_asked_for(guild_id: Seq<char>, channel_id: Seq<char>)
    ensures
        ({
            let j = member_list_wanted(guild_id, channel_id);
            let ranges = j.at("d"@).at("channels"@).at(channel_id);
            &&& j.at("op"@) == JsonV::Int(14)
            &&& j.at("d"@).at("guild_id"@) == JsonV::Str(guild_id)
            &&& j.at("d"@).at("typing"@) == JsonV::Bool(true)
            &&& j.at("d"@).at("threads"@) == JsonV::Bool(false)
            &&& j.at("d"@).at("activities"@) == JsonV::Bool(true)
            &&& j.at("d"@).at("channels"@).entries().len() == 1
            &&& ranges.items().len() == 1
            &&& ranges.items()[0].items() == seq![JsonV::Int(0), JsonV::Int(99)]
        }),
{
    broadcast use law_put_then_read;

    reveal_strlit("op");
    reveal_strlit("d");
    reveal_strlit("guild_id");
    reveal_strlit("typing");
    reveal_strlit("threads");
    reveal_strlit("activities");
    reveal_strlit("channels");
    assert("op"@.len() == 2);
    assert("d"@.len() == 1);
    assert("guild_id"@.len() == 8);
    assert("typing"@.len() == 6);
    assert("threads"@.len() == 7);
    assert("activities"@.len() == 10);
    assert("channels"@.len() == 8);
    assert("channels"@[0] == 'c');
    assert("guild_id"@[0] == 'g');
    let wanted = nothing().put(channel_id, first_hundred());
    assert(wanted.get(channel_id) == Some(first_hundred()));
}

/// What is told of a list names its conversation and holds its rows.
pub proof fn law_a_list_is_told_of_its_conversation(roster: RosterV)
    ensures
        roster_notice(roster).at("bufferId"@) == JsonV::Str(roster.buffer_id),
        roster_notice(roster).at("members"@) == roster.members,
{
    broadcast use law_put_then_read;

    reveal_strlit("bufferId");
    reveal_strlit("members");
    assert("bufferId"@.len() == 8);
    assert("members"@.len() == 7);
}

/// Of the statuses there are two are shown: idle as it is, and everything else as online.
pub proof fn law_two_statuses_are_shown(status: Seq<char>)
    ensures
        status == "idle"@ ==> shown_status(status) == "idle"@,
        status != "idle"@ ==> shown_status(status) == "online"@,
{
}

} // verus!
