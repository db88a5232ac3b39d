//! Names that somebody typed, turned into the mentions that notify.
use vstd::prelude::*;
use crate::json::{Json, JsonV, collect, elements, lemma_collect_step};
use crate::text::{after_last, byte_length, bytes_between, chars_of, following, is_space, lowercase, maybe, maybe_str, same, same_but_case, same_ignoring_case, slice_text, views};

verus! {

/// Somebody, or a role, that can be mentioned: what they are called and the id to write.
#[derive(Debug, PartialEq, Eq)]
pub struct Candidate {
    pub name: String,
    pub id: String,
}

pub struct CandidateV {
    pub name: Seq<char>,
    pub id: Seq<char>,
}

impl View for Candidate {
    type V = CandidateV;

    open spec fn view(&self) -> CandidateV {
        CandidateV { name: self.name@, id: self.id@ }
    }
}

/// Whether a mention can start after this character.
pub open spec fn opens_word(before: Option<char>) -> bool {
    match before {
        Some(c) => is_space(c) || c == '(',
        None => true,
    }
}

/// Whether a mention can end before this character.
pub open spec fn closes_word(after: Option<char>) -> bool {
    match after {
        Some(c) => is_space(c) || c == ',' || c == '.' || c == '!' || c == '?' || c == ':' || c
            == ';' || c == ')' || c == '\'',
        None => true,
    }
}

/// The character before place `i` of a text.
pub open spec fn char_before(text: Seq<char>, i: int) -> Option<char> {
    if 0 < i <= text.len() {
        Some(text[i - 1])
    } else {
        None
    }
}

/// The character at place `i` of a text, where it is not over by then.
pub open spec fn char_at(text: Seq<char>, i: int) -> Option<char> {
    if 0 <= i < text.len() {
        Some(text[i])
    } else {
        None
    }
}

/// Whether a name is mentioned at place `i` of a text, in the `m` characters behind the at sign: the
/// sign opens a word, what follows it is the name whatever the case, and a word ends there.
pub open spec fn is_mention(text: Seq<char>, name: Seq<char>, i: int, m: int) -> bool {
    &&& 0 <= i
    &&& 0 <= m
    &&& i + 1 + m <= text.len()
    &&& text[i] == '@'
    &&& opens_word(char_before(text, i))
    &&& lowercase(text.subrange(i + 1, i + 1 + m)) == lowercase(name)
    &&& closes_word(char_at(text, i + 1 + m))
}

/// Whether the mention at place `i` takes `m` characters behind the at sign: the fewest that are one.
pub open spec fn mention_takes(text: Seq<char>, name: Seq<char>, i: int, m: int) -> bool {
    &&& is_mention(text, name, i, m)
    &&& forall|k: int| 0 <= k < m ==> !is_mention(text, name, i, k)
}

/// A text from place `i` on, with each mention of the name rewritten and all else as it was typed.
pub open spec fn rewritten(text: Seq<char>, name: Seq<char>, tag: Seq<char>, i: int) -> Seq<char>
    decreases text.len() - i,
{
    if i < 0 || i >= text.len() {
        Seq::empty()
    } else if exists|m: int| mention_takes(text, name, i, m) {
        let m = choose|m: int| mention_takes(text, name, i, m);
        tag + rewritten(text, name, tag, i + 1 + m)
    } else {
        seq![text[i]] + rewritten(text, name, tag, i + 1)
    }
}

/// What the service pings on: the id between brackets. That of a role starts with an ampersand.
pub open spec fn mention_tag(id: Seq<char>) -> Seq<char> {
    "<@"@ + id + ">"@
}

/// A text with one name's mentions rewritten to the id.
pub open spec fn mention_replaced(body: Seq<char>, name: Seq<char>, id: Seq<char>) -> Seq<char> {
    rewritten(body, name, mention_tag(id), 0)
}

fn may_open(before: Option<char>) -> (r: bool)
    ensures
        r == opens_word(before),
{
    match before {
        Some(c) => c.is_whitespace() || c == '(',
        None => true,
    }
}

fn may_close(after: Option<char>) -> (r: bool)
    ensures
        r == closes_word(after),
{
    match after {
        Some(c) => c.is_whitespace() || c == ',' || c == '.' || c == '!' || c == '?' || c == ':'
            || c == ';' || c == ')' || c == '\'',
        None => true,
    }
}

/// How many characters the mention at a place takes behind its at sign, where there is one.
fn mention_at(text: &Vec<char>, name: &str, low_name: &str, i: usize) -> (r: Option<usize>)
    requires
        i < text.len(),
        low_name@ == lowercase(name@),
    ensures
        match r {
            Some(m) => mention_takes(text@, name@, i as int, m as int),
            None => forall|m: int| !is_mention(text@, name@, i as int, m),
        },
{
    if text[i] != '@' {
        return None;
    }
    let before: Option<char> = if i > 0 {
        Some(text[i - 1])
    } else {
        None
    };
    if !may_open(before) {
        return None;
    }
    let start: usize = i + 1;
    let mut end: usize = start;
    loop
        invariant
            start == i + 1,
            start <= end <= text.len(),
            low_name@ == lowercase(name@),
            text@[i as int] == '@',
            opens_word(char_before(text@, i as int)),
            forall|k: int| 0 <= k < end - start ==> !is_mention(text@, name@, i as int, k),
        decreases text.len() - end,
    {
        let after: Option<char> = if end < text.len() {
            Some(text[end])
        } else {
            None
        };
        let ghost m = end - start;
        assert(i + 1 + m == end);
        if may_close(after) {
            let typed = slice_text(text, start, end);
            let low = typed.as_str().to_lowercase();
            if same(low.as_str(), low_name) {
                assert(is_mention(text@, name@, i as int, m));
                return Some(end - start);
            }
        }
        assert(!is_mention(text@, name@, i as int, m));
        if end == text.len() {
            return None;
        }
        end += 1;
    }
}

/// One mention further.
proof fn lemma_one_mention(text: Seq<char>, name: Seq<char>, tag: Seq<char>, i: int, m: int)
    requires
        mention_takes(text, name, i, m),
    ensures
        rewritten(text, name, tag, i) == tag + rewritten(text, name, tag, i + 1 + m),
{
    let n = choose|n: int| mention_takes(text, name, i, n);
    if n < m {
        assert(!is_mention(text, name, i, n));
    } else if m < n {
        assert(!is_mention(text, name, i, m));
    }
}

/// One name, everywhere it was typed as a mention: case does not matter, word boundaries do.
pub fn replace_mention(body: &str, name: &str, id: &str) -> (r: String)
    ensures
        r@ == mention_replaced(body@, name@, id@),
{
    let text = chars_of(body);
    let low_name = name.to_lowercase();
    let tag = "<@".to_owned().concat(id).concat(">");
    let mut out = String::new();
    let mut at: usize = 0;
    assert(out@ + rewritten(text@, name@, tag@, 0) =~= rewritten(text@, name@, tag@, 0));
    while at < text.len()
        invariant
            at <= text.len(),
            text@ == body@,
            low_name@ == lowercase(name@),
            tag@ == mention_tag(id@),
            mention_replaced(body@, name@, id@) == out@ + rewritten(text@, name@, tag@, at as int),
        decreases text.len() - at,
    {
        let ghost done = out@;
        match mention_at(&text, name, low_name.as_str(), at) {
            Some(m) => {
                out.append(tag.as_str());
                proof {
                    lemma_one_mention(text@, name@, tag@, at as int, m as int);
                    assert(done + (tag@ + rewritten(text@, name@, tag@, at + 1 + m)) =~= out@
                        + rewritten(text@, name@, tag@, at + 1 + m));
                }
                at = at + 1 + m;
            },
            None => {
                out.push(text[at]);
                proof {
                    assert(!exists|m: int| mention_takes(text@, name@, at as int, m));
                    assert(done + (seq![text@[at as int]] + rewritten(text@, name@, tag@, at + 1))
                        =~= out@ + rewritten(text@, name@, tag@, at + 1));
                }
                at += 1;
            },
        }
    }
    assert(rewritten(text@, name@, tag@, at as int) =~= Seq::empty());
    out
}

/// A list from the longest name down with one more candidate, after those with names as long.
pub open spec fn insert_by_length(list: Seq<CandidateV>, item: CandidateV) -> Seq<CandidateV>
    decreases list.len(),
{
    if list.len() == 0 || byte_length(list.last().name) >= byte_length(item.name) {
        list.push(item)
    } else {
        insert_by_length(list.drop_last(), item).push(list.last())
    }
}

/// The candidates from the longest name down.
pub open spec fn longest_first(list: Seq<CandidateV>) -> Seq<CandidateV>
    decreases list.len(),
{
    if list.len() == 0 {
        Seq::empty()
    } else {
        insert_by_length(longest_first(list.drop_last()), list.last())
    }
}

proof fn lemma_insert_by_length(list: Seq<CandidateV>, item: CandidateV, i: int)
    requires
        0 <= i <= list.len(),
        i == 0 || byte_length(list[i - 1].name) >= byte_length(item.name),
        forall|j: int|
            i <= j < list.len() ==> byte_length((#[trigger] list[j]).name) < byte_length(
                item.name,
            ),
    ensures
        insert_by_length(list, item) == list.insert(i, item),
    decreases list.len(),
{
    if list.len() == i {
        assert(list.insert(i, item) =~= list.push(item));
    } else {
        assert(list.last() == list[list.len() - 1]);
        lemma_insert_by_length(list.drop_last(), item, i);
        assert(list.drop_last().insert(i, item).push(list.last()) =~= list.insert(i, item));
    }
}

fn name_bytes(name: &str) -> (r: u128)
    ensures
        r == byte_length(name@),
{
    let chars = chars_of(name);
    assert(chars@.subrange(0, chars@.len() as int) =~= chars@);
    bytes_between(&chars, 0, chars.len())
}

fn sort_candidates(candidates: Vec<Candidate>) -> (r: Vec<Candidate>)
    ensures
        views(r@) == longest_first(views(candidates@)),
{
    let mut list: Vec<Candidate> = Vec::new();
    let ghost all = views(candidates@);
    let mut i: usize = 0;
    assert(views(list@) =~= longest_first(all.take(0)));
    while i < candidates.len()
        invariant
            i <= candidates.len(),
            all == views(candidates@),
            views(list@) == longest_first(all.take(i as int)),
        decreases candidates.len() - i,
    {
        let item = Candidate {
            name: candidates[i].name.clone(),
            id: candidates[i].id.clone(),
        };
        let size: u128 = name_bytes(item.name.as_str());
        let ghost before = list@;
        proof {
            assert(all.take(i + 1).drop_last() =~= all.take(i as int));
            assert(all.take(i + 1).last() == item@);
        }
        let mut k: usize = list.len();
        while k > 0 && name_bytes(list[k - 1].name.as_str()) < size
            invariant
                list@ == before,
                k <= list.len(),
                size == byte_length(item.name@),
                forall|j: int|
                    k <= j < list.len() ==> byte_length((#[trigger] list@[j]).name@)
                        < byte_length(item.name@),
            decreases k,
        {
            k -= 1;
        }
        proof {
            assert forall|j: int| k <= j < views(before).len() implies byte_length(
                (#[trigger] views(before)[j]).name,
            ) < byte_length(item@.name) by {
                assert(byte_length(list@[j].name@) < byte_length(item.name@));
            }
            if k > 0 {
                assert(byte_length(views(before)[k - 1].name) >= byte_length(item@.name));
            }
            lemma_insert_by_length(views(before), item@, k as int);
        }
        list.insert(k, item);
        assert(views(list@) =~= views(before).insert(k as int, item@));
        i += 1;
    }
    assert(all.take(i as int) =~= all);
    list
}

/// Whether a candidate can be mentioned by name: a name is not empty, and is none of the words
/// that the service keeps for itself.
pub open spec fn mentionable(name: Seq<char>) -> bool {
    name.len() > 0 && !same_but_case(name, "everyone"@) && !same_but_case(name, "here"@)
}

/// A text with the mentions of all the candidates rewritten, one after another.
pub open spec fn all_replaced(body: Seq<char>, candidates: Seq<CandidateV>) -> Seq<char>
    decreases candidates.len(),
{
    if candidates.len() == 0 {
        body
    } else {
        let last = candidates.last();
        let text = all_replaced(body, candidates.drop_last());
        if mentionable(last.name) {
            mention_replaced(text, last.name, last.id)
        } else {
            text
        }
    }
}

/// Turns the names that somebody typed into mentions, the longest names first.
pub fn resolve_outgoing_mentions(body: &str, candidates: Vec<Candidate>) -> (r: String)
    ensures
        r@ == all_replaced(body@, longest_first(views(candidates@))),
{
    let sorted = sort_candidates(candidates);
    let ghost all = views(sorted@);
    let mut out = body.to_owned();
    let mut i: usize = 0;
    assert(all.take(0) =~= Seq::empty());
    while i < sorted.len()
        invariant
            i <= sorted.len(),
            all == views(sorted@),
            all == longest_first(views(candidates@)),
            all_replaced(body@, all.take(i as int)) == out@,
        decreases sorted.len() - i,
    {
        let name = sorted[i].name.as_str();
        proof {
            assert(all.take(i + 1).drop_last() =~= all.take(i as int));
            assert(all.take(i + 1).last() == sorted@[i as int]@);
        }
        if !name.is_empty() && !same_ignoring_case(name, "everyone") && !same_ignoring_case(
            name,
            "here",
        ) {
            out = replace_mention(out.as_str(), name, sorted[i].id.as_str());
        }
        i += 1;
    }
    assert(all.take(i as int) =~= all);
    out
}

/// A text that holds no mention from a place on is left as it was typed from there on.
proof fn lemma_nothing_to_rewrite(text: Seq<char>, name: Seq<char>, tag: Seq<char>, i: int)
    requires
        0 <= i <= text.len(),
        forall|j: int, m: int| i <= j ==> !is_mention(text, name, j, m),
    ensures
        rewritten(text, name, tag, i) == text.skip(i),
    decreases text.len() - i,
{
    if i < text.len() {
        lemma_nothing_to_rewrite(text, name, tag, i + 1);
        assert(!exists|m: int| mention_takes(text, name, i, m));
        assert(seq![text[i]] + text.skip(i + 1) =~= text.skip(i));
    } else {
        assert(text.skip(i) =~= Seq::empty());
    }
}

/// Nothing is rewritten before the first mention.
proof fn lemma_up_to_the_mention(text: Seq<char>, name: Seq<char>, tag: Seq<char>, from: int, i: int)
    requires
        0 <= from <= i <= text.len(),
        forall|j: int, m: int| from <= j < i ==> !is_mention(text, name, j, m),
    ensures
        rewritten(text, name, tag, from) == text.subrange(from, i) + rewritten(text, name, tag, i),
    decreases i - from,
{
    if from < i {
        lemma_up_to_the_mention(text, name, tag, from + 1, i);
        assert(!exists|m: int| mention_takes(text, name, from, m));
        assert(seq![text[from]] + (text.subrange(from + 1, i) + rewritten(text, name, tag, i))
            =~= text.subrange(from, i) + rewritten(text, name, tag, i));
    } else {
        assert(text.subrange(from, i) + rewritten(text, name, tag, i) =~= rewritten(
            text,
            name,
            tag,
            i,
        ));
    }
}

/// A text in which the name is not mentioned is left as it was typed.
pub proof fn law_text_without_the_name_is_untouched(
    body: Seq<char>,
    name: Seq<char>,
    id: Seq<char>,
)
    requires
        forall|i: int, m: int| !is_mention(body, name, i, m),
    ensures
        mention_replaced(body, name, id) == body,
{
    lemma_nothing_to_rewrite(body, name, mention_tag(id), 0);
    assert(body.skip(0) =~= body);
}

/// A text without an at sign is left as it was typed, whoever could have been mentioned.
pub proof fn law_text_without_an_at_sign_is_untouched(
    body: Seq<char>,
    candidates: Seq<CandidateV>,
)
    requires
        !body.contains('@'),
    ensures
        all_replaced(body, candidates) == body,
    decreases candidates.len(),
{
    if candidates.len() > 0 {
        law_text_without_an_at_sign_is_untouched(body, candidates.drop_last());
        let last = candidates.last();
        assert forall|i: int, m: int| !is_mention(body, last.name, i, m) by {
            if is_mention(body, last.name, i, m) {
                assert(body.contains(body[i]));
            }
        }
        law_text_without_the_name_is_untouched(body, last.name, last.id);
    }
}

/// A name that was typed as a mention becomes the tag, whatever case it was typed in. What stands
/// before it and after it, where no other mention does, is left as it was typed.
pub proof fn law_a_typed_name_becomes_its_mention(
    body: Seq<char>,
    name: Seq<char>,
    id: Seq<char>,
    i: int,
    m: int,
)
    requires
        mention_takes(body, name, i, m),
        forall|j: int, k: int| (j < i || i + 1 + m <= j) ==> !is_mention(body, name, j, k),
    ensures
        mention_replaced(body, name, id) == body.take(i) + mention_tag(id) + body.skip(i + 1 + m),
{
    let tag = mention_tag(id);
    lemma_up_to_the_mention(body, name, tag, 0, i);
    lemma_one_mention(body, name, tag, i, m);
    lemma_nothing_to_rewrite(body, name, tag, i + 1 + m);
    assert(body.subrange(0, i) =~= body.take(i));
    assert(body.take(i) + (tag + body.skip(i + 1 + m)) =~= body.take(i) + tag + body.skip(
        i + 1 + m,
    ));
}

/// The candidates who can be mentioned.
pub open spec fn mentionable_ones(list: Seq<CandidateV>) -> Seq<CandidateV>
    decreases list.len(),
{
    if list.len() == 0 {
        Seq::empty()
    } else if mentionable(list.last().name) {
        mentionable_ones(list.drop_last()).push(list.last())
    } else {
        mentionable_ones(list.drop_last())
    }
}

/// From the longest name down.
spec fn descending(list: Seq<CandidateV>) -> bool {
    forall|i: int, j: int|
        0 <= i < j < list.len() ==> byte_length((#[trigger] list[i]).name) >= byte_length(
            (#[trigger] list[j]).name,
        )
}

/// The last of those who can be mentioned is somebody on the list.
proof fn lemma_last_mentionable(list: Seq<CandidateV>)
    requires
        mentionable_ones(list).len() > 0,
    ensures
        list.contains(mentionable_ones(list).last()),
    decreases list.len(),
{
    let ones = mentionable_ones(list);
    if mentionable(list.last().name) {
        assert(list[list.len() - 1] == ones.last());
    } else {
        lemma_last_mentionable(list.drop_last());
        let k = choose|k: int| 0 <= k < list.len() - 1 && list.drop_last()[k] == ones.last();
        assert(list[k] == ones.last());
    }
}

/// Putting somebody in their place and leaving out who cannot be mentioned can be done in either
/// order.
proof fn lemma_insert_among_mentionable(list: Seq<CandidateV>, item: CandidateV)
    requires
        descending(list),
    ensures
        mentionable_ones(insert_by_length(list, item)) == if mentionable(item.name) {
            insert_by_length(mentionable_ones(list), item)
        } else {
            mentionable_ones(list)
        },
    decreases list.len(),
{
    let ones = mentionable_ones(list);
    if list.len() == 0 || byte_length(list.last().name) >= byte_length(item.name) {
        assert(list.push(item).drop_last() =~= list);
        if ones.len() > 0 {
            lemma_last_mentionable(list);
            let k = choose|k: int| 0 <= k < list.len() && list[k] == ones.last();
            assert(byte_length(list[k].name) >= byte_length(list[list.len() - 1].name));
        }
    } else {
        let rest = list.drop_last();
        assert(descending(rest)) by {
            assert forall|i: int, j: int| 0 <= i < j < rest.len() implies byte_length(
                (#[trigger] rest[i]).name,
            ) >= byte_length((#[trigger] rest[j]).name) by {
                assert(rest[i] == list[i] && rest[j] == list[j]);
            }
        }
        lemma_insert_among_mentionable(rest, item);
        let longer = insert_by_length(rest, item);
        assert(longer.push(list.last()).drop_last() =~= longer);
        if mentionable(list.last().name) {
            assert(mentionable_ones(rest).push(list.last()).drop_last() =~= mentionable_ones(rest));
        }
    }
}

proof fn lemma_longest_mentionable_first(list: Seq<CandidateV>)
    ensures
        mentionable_ones(longest_first(list)) == longest_first(mentionable_ones(list)),
    decreases list.len(),
{
    if list.len() > 0 {
        let rest = list.drop_last();
        lemma_longest_mentionable_first(rest);
        lemma_longest_first(rest);
        lemma_insert_among_mentionable(longest_first(rest), list.last());
        if mentionable(list.last().name) {
            assert(mentionable_ones(rest).push(list.last()).drop_last() =~= mentionable_ones(rest));
        }
    }
}

proof fn lemma_only_mentionable_ones_count(body: Seq<char>, candidates: Seq<CandidateV>)
    ensures
        all_replaced(body, candidates) == all_replaced(body, mentionable_ones(candidates)),
    decreases candidates.len(),
{
    if candidates.len() > 0 {
        let rest = candidates.drop_last();
        lemma_only_mentionable_ones_count(body, rest);
        if mentionable(candidates.last().name) {
            assert(mentionable_ones(rest).push(candidates.last()).drop_last() =~= mentionable_ones(
                rest,
            ));
        }
    }
}

/// Whoever is called by one of the words that the service keeps for itself, or by nothing, plays no
/// part: the text comes out as it would without them.
pub proof fn law_everyone_and_here_are_left_alone(
    body: Seq<char>,
    candidates: Seq<CandidateV>,
)
    ensures
        all_replaced(body, longest_first(candidates)) == all_replaced(
            body,
            longest_first(mentionable_ones(candidates)),
        ),
{
    lemma_only_mentionable_ones_count(body, longest_first(candidates));
    lemma_longest_mentionable_first(candidates);
}

proof fn lemma_insert_by_length_sorted(list: Seq<CandidateV>, item: CandidateV)
    requires
        forall|i: int, j: int|
            0 <= i < j < list.len() ==> byte_length((#[trigger] list[i]).name) >= byte_length(
                (#[trigger] list[j]).name,
            ),
    ensures
        ({
            let r = insert_by_length(list, item);
            &&& forall|i: int, j: int|
                0 <= i < j < r.len() ==> byte_length((#[trigger] r[i]).name) >= byte_length(
                    (#[trigger] r[j]).name,
                )
            &&& r.to_multiset() == list.to_multiset().insert(item)
            &&& forall|i: int| 0 <= i < r.len() ==> #[trigger] r[i] == item || list.contains(r[i])
        }),
    decreases list.len(),
{
    broadcast use vstd::seq_lib::group_to_multiset_ensures;

    let r = insert_by_length(list, item);
    if list.len() == 0 || byte_length(list.last().name) >= byte_length(item.name) {
        assert(r.to_multiset() =~= list.to_multiset().insert(item));
        assert forall|i: int| 0 <= i < r.len() implies #[trigger] r[i] == item || list.contains(
            r[i],
        ) by {
            if i < list.len() {
                assert(list[i] == r[i]);
            }
        }
    } else {
        let rest = list.drop_last();
        lemma_insert_by_length_sorted(rest, item);
        let q = insert_by_length(rest, item);
        assert(list =~= rest.push(list.last()));
        assert(r.to_multiset() =~= list.to_multiset().insert(item));
        assert forall|i: int| 0 <= i < r.len() implies #[trigger] r[i] == item || list.contains(
            r[i],
        ) by {
            if i < q.len() {
                assert(r[i] == q[i]);
                if q[i] != item {
                    let k = choose|k: int| 0 <= k < rest.len() && rest[k] == q[i];
                    assert(list[k] == q[i]);
                }
            } else {
                assert(list[list.len() - 1] == r[i]);
            }
        }
        assert forall|i: int, j: int| 0 <= i < j < r.len() implies byte_length(
            (#[trigger] r[i]).name,
        ) >= byte_length((#[trigger] r[j]).name) by {
            if j < q.len() {
                assert(byte_length(q[i].name) >= byte_length(q[j].name));
            } else {
                assert(r[i] == q[i]);
                if q[i] != item {
                    let k = choose|k: int| 0 <= k < rest.len() && rest[k] == q[i];
                    assert(byte_length(list[k].name) >= byte_length(list[list.len() - 1].name));
                }
            }
        }
    }
}

proof fn lemma_longest_first(list: Seq<CandidateV>)
    ensures
        forall|i: int, j: int|
            0 <= i < j < longest_first(list).len() ==> byte_length(
                (#[trigger] longest_first(list)[i]).name,
            ) >= byte_length((#[trigger] longest_first(list)[j]).name),
        longest_first(list).to_multiset() == list.to_multiset(),
    decreases list.len(),
{
    broadcast use vstd::seq_lib::group_to_multiset_ensures;

    if list.len() == 0 {
        assert(longest_first(list) =~= list);
    } else {
        lemma_longest_first(list.drop_last());
        lemma_insert_by_length_sorted(longest_first(list.drop_last()), list.last());
        assert(list =~= list.drop_last().push(list.last()));
    }
}

/// Longer names are tried before shorter ones, and no candidate is lost or tried twice.
pub proof fn law_the_longer_name_goes_first(candidates: Seq<CandidateV>, i: int, j: int)
    requires
        0 <= i < j < longest_first(candidates).len(),
    ensures
        byte_length(longest_first(candidates)[i].name) >= byte_length(
            longest_first(candidates)[j].name,
        ),
        longest_first(candidates).to_multiset() == candidates.to_multiset(),
{
    lemma_longest_first(candidates);
}

/// Somebody in a conversation's list of members who can be mentioned.
pub open spec fn member_candidate(member: JsonV) -> Option<CandidateV> {
    match (member.at("nick"@).text(), member.at("userId"@).text()) {
        (Some(name), Some(id)) => Some(CandidateV { name, id }),
        _ => None,
    }
}

pub open spec fn member_candidate_reader() -> spec_fn(JsonV) -> Option<CandidateV> {
    |m: JsonV| member_candidate(m)
}

/// A role that can be mentioned: its id carries an ampersand.
pub open spec fn role_candidate(role: JsonV) -> Option<CandidateV> {
    match (role.at("name"@).text(), role.at("id"@).text()) {
        (Some(name), Some(id)) => Some(CandidateV { name, id: "&"@ + id }),
        _ => None,
    }
}

pub open spec fn role_candidate_reader() -> spec_fn(JsonV) -> Option<CandidateV> {
    |r: JsonV| role_candidate(r)
}

/// The server that a conversation belongs to, by the id of its rail entry.
pub open spec fn guild_of_group(group_id: Option<Seq<char>>) -> Option<Seq<char>> {
    match group_id {
        Some(g) => following(g, "guild:"@),
        None => None,
    }
}

pub fn guild_in_group(group_id: Option<&str>) -> (r: Option<String>)
    ensures
        maybe(r) == guild_of_group(maybe_str(group_id)),
{
    match group_id {
        Some(g) => after_last(g, "guild:"),
        None => None,
    }
}

/// Everybody a conversation could be talking about: its members, then the roles of its server,
/// then whoever else is known.
pub fn mention_candidates(
    members: Option<&Json>,
    roles: &Vec<Json>,
    known: Vec<Candidate>,
) -> (r: Vec<Candidate>)
    ensures
        views(r@) == collect(
            match members {
                Some(m) => m@.items(),
                None => Seq::empty(),
            },
            member_candidate_reader(),
        ) + collect(views(roles@), role_candidate_reader()) + views(known@),
{
    let empty: Vec<Json> = Vec::new();
    let rows: &Vec<Json> = match members {
        Some(m) => elements(m, &empty),
        None => {
            assert(views(empty@) =~= Seq::empty());
            &empty
        },
    };
    let ghost people = views(rows@);
    let mut out: Vec<Candidate> = Vec::new();
    let mut i: usize = 0;
    assert(views(out@) =~= collect(people.take(0), member_candidate_reader()));
    while i < rows.len()
        invariant
            i <= rows.len(),
            people == views(rows@),
            views(out@) == collect(people.take(i as int), member_candidate_reader()),
        decreases rows.len() - i,
    {
        let ghost before = out@;
        proof {
            lemma_collect_step(people, member_candidate_reader(), i as int);
        }
        match (rows[i].at("nick").text(), rows[i].at("userId").text()) {
            (Some(nick), Some(id)) => {
                let c = Candidate { name: nick.to_owned(), id: id.to_owned() };
                out.push(c);
                assert(views(out@) =~= views(before).push(c@));
            },
            _ => {},
        }
        i += 1;
    }
    assert(people.take(i as int) =~= people);
    let ghost first = views(out@);
    let ghost all = views(roles@);
    let mut k: usize = 0;
    assert(first + collect(all.take(0), role_candidate_reader()) =~= first);
    while k < roles.len()
        invariant
            k <= roles.len(),
            all == views(roles@),
            views(out@) == first + collect(all.take(k as int), role_candidate_reader()),
        decreases roles.len() - k,
    {
        let ghost before = out@;
        proof {
            lemma_collect_step(all, role_candidate_reader(), k as int);
        }
        match (roles[k].at("name").text(), roles[k].at("id").text()) {
            (Some(name), Some(id)) => {
                let c = Candidate { name: name.to_owned(), id: "&".to_owned().concat(id) };
                out.push(c);
                proof {
                    assert(views(out@) =~= views(before).push(c@));
                    assert(views(out@) =~= first + collect(
                        all.take(k as int),
                        role_candidate_reader(),
                    ).push(c@));
                }
            },
            _ => {},
        }
        k += 1;
    }
    assert(all.take(k as int) =~= all);
    let ghost second = out@;
    let mut rest = known;
    let ghost third = rest@;
    out.append(&mut rest);
    assert(views(out@) =~= views(second) + views(third));
    out
}

/// A name is mentioned only behind an at sign that starts a word, and only where a word ends with it: an
/// at sign within an address mentions nobody.
pub proof fn law_a_mention_is_a_word_of_its_own(text: Seq<char>, name: Seq<char>, i: int, m: int)
    requires
        0 <= i,
        0 <= m,
        i + 1 + m <= text.len(),
    ensures
        ({
            let starts = i == 0 || is_space(text[i - 1]) || text[i - 1] == '(';
            let end = i + 1 + m;
            let ends = end == text.len() || is_space(text[end]) || text[end] == ',' || text[end]
                == '.' || text[end] == '!' || text[end] == '?' || text[end] == ':' || text[end]
                == ';' || text[end] == ')' || text[end] == '\'';
            is_mention(text, name, i, m) <==> text[i] == '@' && starts && ends && lowercase(
                text.subrange(i + 1, end),
            ) == lowercase(name)
        }),
{
}

/// A text is gone through from its start: each mention becomes the tag and the rest is gone through
/// behind it, and what is no mention stays as it was typed.
pub proof fn law_every_mention_is_rewritten(
    text: Seq<char>,
    name: Seq<char>,
    id: Seq<char>,
    i: int,
    m: int,
)
    requires
        0 <= i < text.len(),
    ensures
        mention_replaced(text, name, id) == rewritten(text, name, "<@"@ + id + ">"@, 0),
        ({
            let tag = "<@"@ + id + ">"@;
            &&& is_mention(text, name, i, m) && (forall|k: int|
                0 <= k < m ==> !#[trigger] is_mention(text, name, i, k)) ==> rewritten(
                text,
                name,
                tag,
                i,
            ) == tag + rewritten(text, name, tag, i + 1 + m)
            &&& (forall|k: int| !#[trigger] is_mention(text, name, i, k)) ==> rewritten(
                text,
                name,
                tag,
                i,
            ) == seq![text[i]] + rewritten(text, name, tag, i + 1)
            &&& rewritten(text, name, tag, text.len() as int).len() == 0
        }),
{
    let tag = "<@"@ + id + ">"@;
    if is_mention(text, name, i, m) && (forall|k: int|
        0 <= k < m ==> !#[trigger] is_mention(text, name, i, k)) {
        assert(mention_takes(text, name, i, m));
        lemma_one_mention(text, name, tag, i, m);
    }
    if forall|k: int| !#[trigger] is_mention(text, name, i, k) {
        assert(!exists|k: int| mention_takes(text, name, i, k));
    }
}

/// Of two mentions of a name both are rewritten, and what is before, between and behind them stays.
pub proof fn law_two_mentions_are_both_rewritten(
    body: Seq<char>,
    name: Seq<char>,
    id: Seq<char>,
    i: int,
    m: int,
    j: int,
    k: int,
)
    requires
        mention_takes(body, name, i, m),
        mention_takes(body, name, j, k),
        i + 1 + m <= j,
        forall|a: int, b: int|
            #![trigger is_mention(body, name, a, b)]
            a < i || i + 1 + m <= a < j || j + 1 + k <= a ==> !is_mention(body, name, a, b),
    ensures
        mention_replaced(body, name, id) == body.take(i) + mention_tag(id) + body.subrange(
            i + 1 + m,
            j,
        ) + mention_tag(id) + body.skip(j + 1 + k),
{
    let tag = mention_tag(id);
    lemma_up_to_the_mention(body, name, tag, 0, i);
    lemma_one_mention(body, name, tag, i, m);
    lemma_up_to_the_mention(body, name, tag, i + 1 + m, j);
    lemma_one_mention(body, name, tag, j, k);
    lemma_nothing_to_rewrite(body, name, tag, j + 1 + k);
    assert(body.subrange(0, i) =~= body.take(i));
    assert(mention_replaced(body, name, id) =~= body.take(i) + tag + body.subrange(i + 1 + m, j)
        + tag + body.skip(j + 1 + k));
}

/// Candidates are gone through in turn, each on what those before it left; one that cannot be mentioned
/// is passed over. A name can be mentioned unless it is empty or, in whatever case, a word that the
/// service keeps for itself.
pub proof fn law_candidates_are_gone_through_in_turn(
    body: Seq<char>,
    candidates: Seq<CandidateV>,
    last: CandidateV,
)
    ensures
        all_replaced(body, Seq::empty()) == body,
        ({
            let before = all_replaced(body, candidates);
            let reserved = last.name.len() == 0 || same_but_case(last.name, "everyone"@)
                || same_but_case(last.name, "here"@);
            &&& reserved ==> all_replaced(body, candidates.push(last)) == before
            &&& !reserved ==> all_replaced(body, candidates.push(last)) == mention_replaced(
                before,
                last.name,
                last.id,
            )
        }),
        mention_tag(last.id) == "<@"@ + last.id + ">"@,
{
    assert(candidates.push(last).drop_last() =~= candidates);
}

/// Somebody listed can be mentioned by the name they are listed under, as themselves; a role by its name,
/// as a role.
pub proof fn law_members_and_roles_are_mentioned_by_name(member: JsonV, role: JsonV)
    ensures
        ({
            let r = member_candidate(member);
            &&& r is Some <==> member.at("nick"@) is Str && member.at("userId"@) is Str
            &&& r is Some ==> member.at("nick"@) == JsonV::Str(r->0.name) && member.at("userId"@)
                == JsonV::Str(r->0.id)
        }),
        ({
            let r = role_candidate(role);
            &&& r is Some <==> role.at("name"@) is Str && role.at("id"@) is Str
            &&& r is Some ==> role.at("name"@) == JsonV::Str(r->0.name) && r->0.id == "&"@ + role.at(
                "id"@,
            )->Str_0
        }),
{
}

/// The server of a conversation is read back from the id of its rail entry, whatever account it is of.
pub proof fn law_a_server_is_read_back_from_its_entry(account_id: Seq<char>, guild_id: Seq<char>)
    requires
        !guild_id.contains(':'),
    ensures
        guild_of_group(Some(super::guilds::guild_group(account_id, guild_id))) == Some(guild_id),
        guild_of_group(None) is None,
{
    let entry = super::guilds::guild_group(account_id, guild_id);
    let part = "guild:"@;
    reveal_strlit("guild:");
    reveal_strlit("|guild:");
    assert(part =~= seq!['g', 'u', 'i', 'l', 'd', ':']);
    assert("|guild:"@ =~= seq!['|', 'g', 'u', 'i', 'l', 'd', ':']);
    let at = account_id.len() as int + 1;
    assert(entry.subrange(at, at + 6) =~= part);
    assert(crate::text::stands_at(entry, part, at));
    crate::text::law_the_last_place_is_the_last(entry, part);
    let found = crate::text::last_place(entry, part, entry.len() as int);
    assert(crate::text::has_part(entry, part));
    if found->0 > at {
        let k = found->0;
        assert(entry.subrange(k, k + 6)[5] == entry[k + 5]);
        assert(entry[k + 5] == guild_id[k + 5 - at - 6]);
        assert(guild_id.contains(guild_id[k + 5 - at - 6]));
    }
    assert(entry.skip(at + 6) =~= guild_id);
}

/// Members and roles are gone through one by one, and each is a candidate by itself.
pub proof fn law_each_candidate_stands_by_itself(list: Seq<JsonV>, last: JsonV)
    ensures
        ({
            let before = collect(list, member_candidate_reader());
            let after = collect(list.push(last), member_candidate_reader());
            &&& member_candidate(last) is Some ==> after == before.push(member_candidate(last)->0)
            &&& member_candidate(last) is None ==> after == before
        }),
        ({
            let before = collect(list, role_candidate_reader());
            let after = collect(list.push(last), role_candidate_reader());
            &&& role_candidate(last) is Some ==> after == before.push(role_candidate(last)->0)
            &&& role_candidate(last) is None ==> after == before
        }),
{
    assert(list.push(last).drop_last() =~= list);
}

} // verus!
