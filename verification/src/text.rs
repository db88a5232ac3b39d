//! Text as sequences of characters: comparison, slicing, searching and decimal numbers.
use vstd::prelude::*;
use vstd::utf8::*;

verus! {

/// `String::push` appends one character.
pub assume_specification[ String::push ](text: &mut String, c: char)
    ensures
        final(text)@ == old(text)@.push(c),
;

/// Whether two texts hold the same characters.
pub fn same(a: &str, b: &str) -> (r: bool)
    ensures
        r == (a@ == b@),
{
    let x = a.as_bytes();
    let y = b.as_bytes();
    proof {
        encode_utf8_decode_utf8(a@);
        encode_utf8_decode_utf8(b@);
    }
    if x.len() != y.len() {
        return false;
    }
    let mut i: usize = 0;
    while i < x.len()
        invariant
            x@ == encode_utf8(a@),
            y@ == encode_utf8(b@),
            x.len() == y.len(),
            i <= x.len(),
            forall|j: int| 0 <= j < i ==> x@[j] == y@[j],
        decreases x.len() - i,
    {
        if x[i] != y[i] {
            return false;
        }
        i += 1;
    }
    assert(x@ =~= y@);
    true
}

/// What the elements of a list are.
pub open spec fn views<T: View>(list: Seq<T>) -> Seq<T::V> {
    Seq::new(list.len(), |i: int| list[i]@)
}

/// The texts of a list.
pub open spec fn texts(list: Seq<String>) -> Seq<Seq<char>> {
    Seq::new(list.len(), |i: int| list[i]@)
}

/// The text of an optional text.
pub open spec fn maybe(text: Option<String>) -> Option<Seq<char>> {
    match text {
        Some(t) => Some(t@),
        None => None,
    }
}

/// The text of an optional text.
pub open spec fn maybe_str(text: Option<&str>) -> Option<Seq<char>> {
    match text {
        Some(t) => Some(t@),
        None => None,
    }
}

/// An optional text of its own.
pub fn own(text: Option<&str>) -> (r: Option<String>)
    ensures
        maybe(r) == maybe_str(text),
{
    match text {
        Some(t) => Some(t.to_owned()),
        None => None,
    }
}

/// An optional text, borrowed.
pub fn lend(text: &Option<String>) -> (r: Option<&str>)
    ensures
        maybe_str(r) == maybe(*text),
{
    match text {
        Some(t) => Some(t.as_str()),
        None => None,
    }
}

/// Whether an optional text is there and is `b`.
pub fn is_text(a: Option<&str>, b: &str) -> (r: bool)
    ensures
        r == (maybe_str(a) == Some(b@)),
{
    match a {
        Some(t) => same(t, b),
        None => false,
    }
}

/// Whether two optional texts are the same.
pub fn same_opt(a: Option<&str>, b: Option<&str>) -> (r: bool)
    ensures
        r == (maybe_str(a) == maybe_str(b)),
{
    match (a, b) {
        (Some(x), Some(y)) => same(x, y),
        (None, None) => true,
        _ => false,
    }
}

/// Whether a list of texts has `text` in it.
pub fn holds(list: &Vec<String>, text: &str) -> (r: bool)
    ensures
        r == texts(list@).contains(text@),
{
    let mut i: usize = 0;
    while i < list.len()
        invariant
            i <= list.len(),
            forall|j: int| 0 <= j < i ==> list@[j]@ != text@,
        decreases list.len() - i,
    {
        if same(list[i].as_str(), text) {
            assert(texts(list@)[i as int] == text@);
            return true;
        }
        i += 1;
    }
    false
}

/// A list of texts of its own.
pub fn copy_texts(list: &Vec<String>) -> (r: Vec<String>)
    ensures
        texts(r@) == texts(list@),
{
    let mut out: Vec<String> = Vec::new();
    let mut i: usize = 0;
    while i < list.len()
        invariant
            i <= list.len(),
            out.len() == i,
            forall|j: int| 0 <= j < i ==> out@[j]@ == list@[j]@,
        decreases list.len() - i,
    {
        out.push(list[i].clone());
        i += 1;
    }
    assert(texts(out@) =~= texts(list@));
    out
}

/// The characters of a text.
pub fn chars_of(text: &str) -> (r: Vec<char>)
    ensures
        r@ == text@,
{
    let mut out: Vec<char> = Vec::new();
    for c in it: text.chars()
        invariant
            it.seq() == text@,
            out@ == text@.take(it.index()),
    {
        out.push(c);
    }
    out
}

/// The text made of the characters `from..to`.
pub fn slice_text(chars: &Vec<char>, from: usize, to: usize) -> (r: String)
    requires
        from <= to <= chars.len(),
    ensures
        r@ == chars@.subrange(from as int, to as int),
{
    let mut out = String::new();
    let mut i: usize = from;
    while i < to
        invariant
            from <= i <= to <= chars.len(),
            out@ == chars@.subrange(from as int, i as int),
        decreases to - i,
    {
        out.push(chars[i]);
        i += 1;
        assert(out@ =~= chars@.subrange(from as int, i as int));
    }
    out
}

/// The text made of all of `chars`.
pub fn text_of(chars: &Vec<char>) -> (r: String)
    ensures
        r@ == chars@,
{
    slice_text(chars, 0, chars.len())
}

/// Whether `text` starts with `start`.
pub fn starts_with(text: &str, start: &str) -> (r: bool)
    ensures
        r == start@.is_prefix_of(text@),
{
    let a = chars_of(text);
    let b = chars_of(start);
    if b.len() > a.len() {
        return false;
    }
    let mut i: usize = 0;
    while i < b.len()
        invariant
            a@ == text@,
            b@ == start@,
            i <= b.len() <= a.len(),
            forall|j: int| 0 <= j < i ==> a@[j] == b@[j],
        decreases b.len() - i,
    {
        if a[i] != b[i] {
            assert(a@.subrange(0, b@.len() as int)[i as int] != b@[i as int]);
            return false;
        }
        i += 1;
    }
    assert(b@ =~= a@.subrange(0, b@.len() as int));
    true
}

/// Whether a character is white space: one of those with the Unicode property `White_Space`.
pub open spec fn is_space(c: char) -> bool {
    let n = c as int;
    ||| 0x09 <= n <= 0x0D
    ||| n == 0x20
    ||| n == 0x85
    ||| n == 0xA0
    ||| n == 0x1680
    ||| 0x2000 <= n <= 0x200A
    ||| n == 0x2028
    ||| n == 0x2029
    ||| n == 0x202F
    ||| n == 0x205F
    ||| n == 0x3000
}

/// `char::is_whitespace` goes by the Unicode property `White_Space`, which those characters have and
/// no others.
pub assume_specification[ char::is_whitespace ](c: char) -> (r: bool)
    ensures
        r == is_space(c),
;

/// A text without the white space at its start.
pub open spec fn trim_start(s: Seq<char>) -> Seq<char>
    decreases s.len(),
{
    if s.len() > 0 && is_space(s[0]) {
        trim_start(s.skip(1))
    } else {
        s
    }
}

/// A text without the white space at its end.
pub open spec fn trim_end(s: Seq<char>) -> Seq<char>
    decreases s.len(),
{
    if s.len() > 0 && is_space(s.last()) {
        trim_end(s.drop_last())
    } else {
        s
    }
}

/// A text without the white space around it.
pub open spec fn trimmed(s: Seq<char>) -> Seq<char> {
    trim_end(trim_start(s))
}

/// A text without the white space around it.
pub fn trim(text: &str) -> (r: String)
    ensures
        r@ == trimmed(text@),
{
    let chars = chars_of(text);
    let ghost all = chars@;
    let mut from: usize = 0;
    assert(all.skip(0) =~= all);
    while from < chars.len() && chars[from].is_whitespace()
        invariant
            chars@ == all,
            from <= all.len(),
            trim_start(all) == trim_start(all.skip(from as int)),
        decreases all.len() - from,
    {
        assert(all.skip(from as int).skip(1) =~= all.skip(from + 1));
        from += 1;
    }
    let mut to: usize = chars.len();
    assert(all.subrange(from as int, to as int) =~= all.skip(from as int));
    while to > from && chars[to - 1].is_whitespace()
        invariant
            chars@ == all,
            from <= to <= all.len(),
            trim_end(all.skip(from as int)) == trim_end(all.subrange(from as int, to as int)),
        decreases to,
    {
        assert(all.subrange(from as int, to as int).drop_last() =~= all.subrange(
            from as int,
            to - 1,
        ));
        to -= 1;
    }
    slice_text(&chars, from, to)
}

/// Whether a text holds nothing but white space.
pub open spec fn is_blank(s: Seq<char>) -> bool {
    trimmed(s).len() == 0
}

pub fn blank(text: &str) -> (r: bool)
    ensures
        r == is_blank(text@),
{
    trim(text).as_str().is_empty()
}

/// The parts of a text between the places where `c` stands.
pub open spec fn split_on(s: Seq<char>, c: char) -> Seq<Seq<char>>
    decreases s.len(),
{
    if s.len() == 0 {
        seq![Seq::empty()]
    } else {
        let before = split_on(s.drop_last(), c);
        if s.last() == c {
            before.push(Seq::empty())
        } else {
            before.drop_last().push(before.last().push(s.last()))
        }
    }
}

/// The parts of a text between the places where `c` stands; there is always one.
pub fn split(text: &str, c: char) -> (r: Vec<String>)
    ensures
        texts(r@) == split_on(text@, c),
        r@.len() >= 1,
{
    let chars = chars_of(text);
    let ghost all = chars@;
    let mut done: Vec<String> = Vec::new();
    let mut part = String::new();
    let mut i: usize = 0;
    assert(texts(done@).push(part@) =~= split_on(all.take(0), c));
    while i < chars.len()
        invariant
            chars@ == all,
            i <= all.len(),
            texts(done@).push(part@) == split_on(all.take(i as int), c),
        decreases all.len() - i,
    {
        let x = chars[i];
        let ghost before = done@;
        proof {
            assert(all.take(i + 1).drop_last() =~= all.take(i as int));
            assert(texts(before).push(part@).drop_last() =~= texts(before));
        }
        if x == c {
            done.push(part);
            assert(texts(done@) =~= texts(before).push(done@[before.len() as int]@));
            part = String::new();
        } else {
            part.push(x);
        }
        i += 1;
    }
    assert(all.take(i as int) =~= all);
    let ghost before = done@;
    done.push(part);
    assert(texts(done@) =~= texts(before).push(part@));
    done
}

/// Whether `part` stands in `s` at place `i`.
pub open spec fn stands_at(s: Seq<char>, part: Seq<char>, i: int) -> bool {
    0 <= i && i + part.len() <= s.len() && s.subrange(i, i + part.len()) == part
}

/// Whether `part` stands anywhere in `s`.
pub open spec fn has_part(s: Seq<char>, part: Seq<char>) -> bool {
    exists|i: int| stands_at(s, part, i)
}

/// Whether `part` stands in `chars` at place `i`.
pub fn at_place(chars: &Vec<char>, part: &Vec<char>, i: usize) -> (r: bool)
    ensures
        r == stands_at(chars@, part@, i as int),
{
    if i > chars.len() || part.len() > chars.len() - i {
        return false;
    }
    let mut k: usize = 0;
    while k < part.len()
        invariant
            k <= part.len(),
            i + part.len() <= chars.len(),
            forall|j: int| 0 <= j < k ==> chars@[i + j] == part@[j],
        decreases part.len() - k,
    {
        if chars[i + k] != part[k] {
            assert(chars@.subrange(i as int, i + part@.len())[k as int] != part@[k as int]);
            return false;
        }
        k += 1;
    }
    assert(chars@.subrange(i as int, i + part@.len()) =~= part@);
    true
}

/// The first place at or after `from` where `part` stands.
pub fn find_from(chars: &Vec<char>, part: &Vec<char>, from: usize) -> (r: Option<usize>)
    ensures
        match r {
            Some(i) => from <= i && stands_at(chars@, part@, i as int) && forall|j: int|
                from <= j < i ==> !stands_at(chars@, part@, j),
            None => forall|j: int| from <= j ==> !stands_at(chars@, part@, j),
        },
{
    let mut i: usize = from;
    while i <= chars.len()
        invariant
            from <= i,
            i <= chars.len() + 1 || i == from,
            forall|j: int| from <= j < i ==> !stands_at(chars@, part@, j),
        decreases chars.len() + 1 - i,
    {
        if at_place(chars, part, i) {
            return Some(i);
        }
        if i == usize::MAX {
            return None;
        }
        i += 1;
    }
    None
}

/// Whether `part` stands anywhere in `text`.
pub fn contains_text(text: &str, part: &str) -> (r: bool)
    ensures
        r == has_part(text@, part@),
{
    let chars = chars_of(text);
    let wanted = chars_of(part);
    match find_from(&chars, &wanted, 0) {
        Some(i) => {
            assert(stands_at(text@, part@, i as int));
            true
        },
        None => false,
    }
}

/// `s` with every `part` replaced by `with`, from the left, none of them overlapping.
pub open spec fn replaced(s: Seq<char>, part: Seq<char>, with: Seq<char>) -> Seq<char>
    decreases s.len(),
{
    if part.len() == 0 || s.len() < part.len() {
        s
    } else if s.take(part.len() as int) == part {
        with + replaced(s.skip(part.len() as int), part, with)
    } else {
        seq![s[0]] + replaced(s.skip(1), part, with)
    }
}

/// `text` with every `part` replaced by `with`; an empty part is not looked for.
pub fn replace(text: &str, part: &str, with: &str) -> (r: String)
    ensures
        r@ == replaced(text@, part@, with@),
{
    let chars = chars_of(text);
    let wanted = chars_of(part);
    let ghost all = chars@;
    if wanted.len() == 0 {
        return text.to_owned();
    }
    let mut out = String::new();
    let mut i: usize = 0;
    assert(all.skip(0) =~= all);
    assert(out@ + replaced(all.skip(0), part@, with@) =~= replaced(all, part@, with@));
    while i < chars.len()
        invariant
            chars@ == all,
            wanted@ == part@,
            wanted@.len() > 0,
            i <= all.len(),
            out@ + replaced(all.skip(i as int), part@, with@) == replaced(all, part@, with@),
        decreases all.len() - i,
    {
        let ghost rest = all.skip(i as int);
        let ghost before = out@;
        if at_place(&chars, &wanted, i) {
            proof {
                assert(rest.take(part@.len() as int) =~= all.subrange(
                    i as int,
                    i + part@.len(),
                ));
                assert(rest.skip(part@.len() as int) =~= all.skip(i + part@.len()));
            }
            out.append(with);
            i += wanted.len();
            assert(out@ + replaced(all.skip(i as int), part@, with@) =~= before + (with@
                + replaced(all.skip(i as int), part@, with@)));
        } else {
            proof {
                if rest.len() >= part@.len() {
                    assert(rest.take(part@.len() as int) =~= all.subrange(
                        i as int,
                        i + part@.len(),
                    ));
                } else {
                    lemma_replaced_short(rest.skip(1), part@, with@);
                    assert(rest =~= seq![rest[0]] + rest.skip(1));
                }
                assert(rest.skip(1) =~= all.skip(i + 1));
            }
            out.push(chars[i]);
            i += 1;
            assert(out@ + replaced(all.skip(i as int), part@, with@) =~= before + (seq![rest[0]]
                + replaced(all.skip(i as int), part@, with@)));
        }
    }
    assert(all.skip(i as int) =~= Seq::empty());
    assert(out@ + Seq::<char>::empty() =~= out@);
    out
}

proof fn lemma_replaced_short(s: Seq<char>, part: Seq<char>, with: Seq<char>)
    requires
        s.len() < part.len(),
    ensures
        replaced(s, part, with) == s,
{
}

/// A text that does not have the part in it stays as it is.
pub proof fn law_replacing_nothing(s: Seq<char>, part: Seq<char>, with: Seq<char>)
    requires
        !has_part(s, part),
    ensures
        replaced(s, part, with) == s,
    decreases s.len(),
{
    if part.len() > 0 && s.len() >= part.len() {
        assert(s.subrange(0, part.len() as int) =~= s.take(part.len() as int));
        assert(!stands_at(s, part, 0));
        let rest = s.skip(1);
        assert forall|i: int| !stands_at(rest, part, i) by {
            if stands_at(rest, part, i) {
                assert(s.subrange(i + 1, i + 1 + part.len()) =~= rest.subrange(i, i + part.len()));
                assert(stands_at(s, part, i + 1));
            }
        }
        law_replacing_nothing(rest, part, with);
        assert(s =~= seq![s[0]] + rest);
    }
}

/// How many lines a text has: a line break at its end ends the last line and starts none.
pub open spec fn line_count(s: Seq<char>) -> int {
    let parts = split_on(s, '\n');
    if parts.last().len() == 0 {
        parts.len() - 1
    } else {
        parts.len() as int
    }
}

/// The last place up to `from` where `part` stands.
pub open spec fn last_place(s: Seq<char>, part: Seq<char>, from: int) -> Option<int>
    decreases from + 1,
{
    if from < 0 {
        None
    } else if stands_at(s, part, from) {
        Some(from)
    } else {
        last_place(s, part, from - 1)
    }
}

/// What follows the last `part` in `s`.
pub open spec fn following(s: Seq<char>, part: Seq<char>) -> Option<Seq<char>> {
    match last_place(s, part, s.len() as int) {
        Some(i) => Some(s.skip(i + part.len())),
        None => None,
    }
}

/// What follows the last `part` in `text`.
pub fn after_last(text: &str, part: &str) -> (r: Option<String>)
    ensures
        maybe(r) == following(text@, part@),
{
    let chars = chars_of(text);
    let wanted = chars_of(part);
    let mut i: usize = chars.len();
    loop
        invariant
            chars@ == text@,
            wanted@ == part@,
            i <= chars.len(),
            last_place(text@, part@, text@.len() as int) == last_place(text@, part@, i as int),
        decreases i,
    {
        if at_place(&chars, &wanted, i) {
            let rest = slice_text(&chars, i + wanted.len(), chars.len());
            assert(rest@ =~= text@.skip(i + part@.len()));
            return Some(rest);
        }
        if i == 0 {
            assert(last_place(text@, part@, -1) is None);
            return None;
        }
        i -= 1;
    }
}

/// The first place where `part` stands.
pub open spec fn first_place(s: Seq<char>, part: Seq<char>) -> Option<int>
    decreases s.len(),
{
    if stands_at(s, part, 0) {
        Some(0)
    } else if s.len() == 0 {
        None
    } else {
        match first_place(s.skip(1), part) {
            Some(i) => Some(i + 1),
            None => None,
        }
    }
}

pub proof fn lemma_first_place(s: Seq<char>, part: Seq<char>, i: int)
    requires
        0 <= i,
        stands_at(s, part, i),
        forall|j: int| 0 <= j < i ==> !stands_at(s, part, j),
    ensures
        first_place(s, part) == Some(i),
    decreases s.len(),
{
    if i > 0 {
        assert(!stands_at(s, part, 0));
        let rest = s.skip(1);
        assert(rest.subrange(i - 1, i - 1 + part.len()) =~= s.subrange(i, i + part.len()));
        assert forall|j: int| 0 <= j < i - 1 implies !stands_at(rest, part, j) by {
            if stands_at(rest, part, j) {
                assert(rest.subrange(j, j + part.len()) =~= s.subrange(
                    j + 1,
                    j + 1 + part.len(),
                ));
                assert(stands_at(s, part, j + 1));
            }
        }
        lemma_first_place(rest, part, i - 1);
    }
}

pub proof fn lemma_no_first_place(s: Seq<char>, part: Seq<char>)
    requires
        forall|j: int| 0 <= j ==> !stands_at(s, part, j),
    ensures
        first_place(s, part) is None,
    decreases s.len(),
{
    assert(!stands_at(s, part, 0));
    if s.len() > 0 {
        let rest = s.skip(1);
        assert forall|j: int| 0 <= j implies !stands_at(rest, part, j) by {
            if stands_at(rest, part, j) {
                assert(rest.subrange(j, j + part.len()) =~= s.subrange(
                    j + 1,
                    j + 1 + part.len(),
                ));
                assert(stands_at(s, part, j + 1));
            }
        }
        lemma_no_first_place(rest, part);
    }
}

/// `s` with the first `part` replaced by `with`.
pub open spec fn replaced_once(s: Seq<char>, part: Seq<char>, with: Seq<char>) -> Seq<char> {
    match first_place(s, part) {
        Some(i) => s.take(i) + with + s.skip(i + part.len()),
        None => s,
    }
}

/// `text` with the first `part` replaced by `with`.
pub fn replace_once(text: &str, part: &str, with: &str) -> (r: String)
    ensures
        r@ == replaced_once(text@, part@, with@),
{
    let chars = chars_of(text);
    let wanted = chars_of(part);
    match find_from(&chars, &wanted, 0) {
        Some(i) => {
            proof {
                lemma_first_place(text@, part@, i as int);
                assert(i + wanted.len() <= chars.len());
            }
            let mut out = slice_text(&chars, 0, i);
            assert(out@ =~= text@.take(i as int));
            out.append(with);
            let rest = slice_text(&chars, i + wanted.len(), chars.len());
            assert(rest@ =~= text@.skip(i + part@.len()));
            out.append(rest.as_str());
            out
        },
        None => {
            proof {
                lemma_no_first_place(text@, part@);
            }
            text.to_owned()
        },
    }
}

/// A text in lower case.
pub uninterp spec fn lowercase(s: Seq<char>) -> Seq<char>;

/// `str::to_lowercase` goes by the Unicode property `Lowercase`. What it makes of which text is
/// left to the standard library.
pub assume_specification[ str::to_lowercase ](text: &str) -> (r: String)
    ensures
        r@ == lowercase(text@),
;

/// An ASCII letter in lower case; any other character as it is.
pub open spec fn ascii_lower(c: char) -> char {
    if 'A' <= c <= 'Z' {
        ((c as u32) + 32) as char
    } else {
        c
    }
}

/// Whether two texts are the same but for the case of ASCII letters.
pub open spec fn same_but_case(a: Seq<char>, b: Seq<char>) -> bool {
    a.len() == b.len() && forall|i: int|
        0 <= i < a.len() ==> ascii_lower(#[trigger] a[i]) == ascii_lower(b[i])
}

fn lower(c: char) -> (r: char)
    ensures
        r == ascii_lower(c),
{
    if 'A' <= c && c <= 'Z' {
        ((c as u32) as u8 + 32) as char
    } else {
        c
    }
}

pub fn same_ignoring_case(a: &str, b: &str) -> (r: bool)
    ensures
        r == same_but_case(a@, b@),
{
    let x = chars_of(a);
    let y = chars_of(b);
    if x.len() != y.len() {
        return false;
    }
    let mut i: usize = 0;
    while i < x.len()
        invariant
            x@ == a@,
            y@ == b@,
            x.len() == y.len(),
            i <= x.len(),
            forall|j: int| 0 <= j < i ==> ascii_lower(#[trigger] x@[j]) == ascii_lower(y@[j]),
        decreases x.len() - i,
    {
        if lower(x[i]) != lower(y[i]) {
            assert(ascii_lower(a@[i as int]) != ascii_lower(b@[i as int]));
            return false;
        }
        i += 1;
    }
    true
}

/// Whether `a` comes after `b` in the order of their characters.
pub open spec fn text_after(a: Seq<char>, b: Seq<char>) -> bool
    decreases a.len(),
{
    if a.len() == 0 {
        false
    } else if b.len() == 0 {
        true
    } else if a[0] == b[0] {
        text_after(a.skip(1), b.skip(1))
    } else {
        a[0] > b[0]
    }
}

/// Whether `a` comes after `b` in the order of their characters.
pub fn comes_after(a: &Vec<char>, b: &Vec<char>) -> (r: bool)
    ensures
        r == text_after(a@, b@),
{
    let mut i: usize = 0;
    assert(a@.skip(0) =~= a@);
    assert(b@.skip(0) =~= b@);
    while i < a.len() && i < b.len() && a[i] == b[i]
        invariant
            i <= a.len(),
            i <= b.len(),
            text_after(a@, b@) == text_after(a@.skip(i as int), b@.skip(i as int)),
        decreases a.len() - i,
    {
        assert(a@.skip(i as int).skip(1) =~= a@.skip(i + 1));
        assert(b@.skip(i as int).skip(1) =~= b@.skip(i + 1));
        i += 1;
    }
    if i >= a.len() {
        false
    } else if i >= b.len() {
        true
    } else {
        a[i] > b[i]
    }
}

/// The order of characters is strict and total.
pub proof fn lemma_text_after(a: Seq<char>, b: Seq<char>, c: Seq<char>)
    ensures
        text_after(a, b) && text_after(b, c) ==> text_after(a, c),
        text_after(a, b) ==> !text_after(b, a),
        !text_after(a, b) && !text_after(b, a) ==> a == b,
    decreases a.len(),
{
    if a.len() > 0 && b.len() > 0 && c.len() > 0 {
        lemma_text_after(a.skip(1), b.skip(1), c.skip(1));
        if a[0] == b[0] && !text_after(a, b) && !text_after(b, a) {
            assert(a =~= seq![a[0]] + a.skip(1));
            assert(b =~= seq![b[0]] + b.skip(1));
        }
    } else if a.len() > 0 && b.len() > 0 {
        lemma_text_after(a.skip(1), b.skip(1), Seq::empty());
        if a[0] == b[0] && !text_after(a, b) && !text_after(b, a) {
            assert(a =~= seq![a[0]] + a.skip(1));
            assert(b =~= seq![b[0]] + b.skip(1));
        }
    } else if a.len() == 0 && b.len() == 0 {
        assert(a =~= b);
    }
}

/// How many bytes a character takes.
pub open spec fn width(c: char) -> int {
    if (c as int) < 0x80 {
        1
    } else if (c as int) < 0x800 {
        2
    } else if (c as int) < 0x10000 {
        3
    } else {
        4
    }
}

/// How many bytes a text takes.
pub open spec fn byte_length(s: Seq<char>) -> int
    decreases s.len(),
{
    if s.len() == 0 {
        0
    } else {
        byte_length(s.drop_last()) + width(s.last())
    }
}

fn char_width(c: char) -> (r: usize)
    ensures
        r == width(c),
        1 <= r <= 4,
{
    let n: u32 = c as u32;
    if n < 0x80 {
        1
    } else if n < 0x800 {
        2
    } else if n < 0x10000 {
        3
    } else {
        4
    }
}

/// How many bytes the characters `from..to` take.
pub fn bytes_between(chars: &Vec<char>, from: usize, to: usize) -> (r: u128)
    requires
        from <= to <= chars.len(),
    ensures
        r == byte_length(chars@.subrange(from as int, to as int)),
        r <= 4 * (to - from),
{
    let mut total: u128 = 0;
    let mut i: usize = from;
    assert(chars@.subrange(from as int, from as int) =~= Seq::empty());
    while i < to
        invariant
            from <= i <= to <= chars.len(),
            total == byte_length(chars@.subrange(from as int, i as int)),
            total <= 4 * (i - from),
        decreases to - i,
    {
        proof {
            assert(chars@.subrange(from as int, i + 1).drop_last() =~= chars@.subrange(
                from as int,
                i as int,
            ));
            assert(chars@.subrange(from as int, i + 1).last() == chars@[i as int]);
        }
        total = total + char_width(chars[i]) as u128;
        i += 1;
    }
    total
}

/// Texts put together with `separator` between them.
pub open spec fn joined(parts: Seq<Seq<char>>, separator: Seq<char>) -> Seq<char>
    decreases parts.len(),
{
    if parts.len() == 0 {
        Seq::empty()
    } else if parts.len() == 1 {
        parts[0]
    } else {
        joined(parts.drop_last(), separator) + separator + parts.last()
    }
}

/// Texts put together with `separator` between them.
pub fn join(parts: &Vec<String>, separator: &str) -> (r: String)
    ensures
        r@ == joined(texts(parts@), separator@),
{
    let ghost all = texts(parts@);
    let mut out = String::new();
    let mut i: usize = 0;
    while i < parts.len()
        invariant
            i <= parts.len(),
            all == texts(parts@),
            out@ == joined(all.take(i as int), separator@),
        decreases parts.len() - i,
    {
        if i > 0 {
            out.append(separator);
        }
        out.append(parts[i].as_str());
        proof {
            assert(all.take(i + 1).drop_last() =~= all.take(i as int));
            assert(all.take(i + 1).last() == parts@[i as int]@);
            assert(Seq::<char>::empty() + parts@[i as int]@ =~= parts@[i as int]@);
        }
        i += 1;
    }
    assert(all.take(i as int) =~= all);
    out
}

/// The character for one decimal digit.
pub open spec fn digit_char(d: int) -> char {
    (48 + d) as char
}

pub open spec fn is_digit(c: char) -> bool {
    '0' <= c <= '9'
}

pub open spec fn digit_value(c: char) -> int {
    c as int - 48
}

/// A natural number written in decimal.
pub open spec fn decimal_text(n: nat) -> Seq<char>
    decreases n,
{
    if n < 10 {
        seq![digit_char(n as int)]
    } else {
        decimal_text(n / 10).push(digit_char((n % 10) as int))
    }
}

/// An integer written in decimal, with a minus sign where it is negative.
pub open spec fn integer_text(n: int) -> Seq<char> {
    if n < 0 {
        seq!['-'] + decimal_text((-n) as nat)
    } else {
        decimal_text(n as nat)
    }
}

/// `n` written in decimal.
pub fn decimal(n: u64) -> (r: String)
    ensures
        r@ == decimal_text(n as nat),
    decreases n,
{
    let d: u8 = (n % 10) as u8;
    let c: char = (48u8 + d) as char;
    if n < 10 {
        let mut out = String::new();
        out.push(c);
        assert(out@ =~= decimal_text(n as nat));
        out
    } else {
        let mut out = decimal(n / 10);
        out.push(c);
        out
    }
}

/// `n` written in decimal.
pub fn integer(n: i64) -> (r: String)
    ensures
        r@ == integer_text(n as int),
{
    if n < 0 {
        let size: i128 = -(n as i128);
        let digits = decimal(size as u64);
        let out = "-".to_owned().concat(digits.as_str());
        proof {
            reveal_strlit("-");
            assert(out@ =~= integer_text(n as int));
        }
        out
    } else {
        decimal(n as u64)
    }
}

/// The character for one hexadecimal digit.
pub open spec fn hex_char(d: int) -> char {
    if d < 10 {
        (48 + d) as char
    } else {
        (87 + d) as char
    }
}

/// A natural number written in hexadecimal.
pub open spec fn hex_text(n: nat) -> Seq<char>
    decreases n,
{
    if n < 16 {
        seq![hex_char(n as int)]
    } else {
        hex_text(n / 16).push(hex_char((n % 16) as int))
    }
}

/// A text with zeros in front, so that it has at least so many characters.
pub open spec fn zero_padded(s: Seq<char>, width: nat) -> Seq<char>
    decreases width - s.len(),
{
    if s.len() >= width {
        s
    } else {
        zero_padded(seq!['0'] + s, width)
    }
}

/// `n` written in hexadecimal.
pub fn hexadecimal(n: u64) -> (r: String)
    ensures
        r@ == hex_text(n as nat),
    decreases n,
{
    let d: u8 = (n % 16) as u8;
    let c: char = if d < 10 {
        (48u8 + d) as char
    } else {
        (87u8 + d) as char
    };
    if n < 16 {
        let mut out = String::new();
        out.push(c);
        assert(out@ =~= hex_text(n as nat));
        out
    } else {
        let mut out = hexadecimal(n / 16);
        out.push(c);
        out
    }
}

/// A text with zeros in front, so that it has at least so many characters.
pub fn pad_zeros(text: String, width: usize) -> (r: String)
    ensures
        r@ == zero_padded(text@, width as nat),
{
    let mut out = text;
    let mut len: usize = out.as_str().unicode_len();
    while len < width
        invariant
            len == out@.len(),
            zero_padded(text@, width as nat) == zero_padded(out@, width as nat),
        decreases width - len,
    {
        let mut longer = "0".to_owned();
        longer.append(out.as_str());
        proof {
            reveal_strlit("0");
            assert("0"@ =~= seq!['0']);
        }
        out = longer;
        len += 1;
    }
    out
}

/// The number that a run of digits stands for.
pub open spec fn digits_value(s: Seq<char>) -> nat
    decreases s.len(),
{
    if s.len() == 0 {
        0
    } else {
        (digits_value(s.drop_last()) * 10 + digit_value(s.last())) as nat
    }
}

pub open spec fn all_digits(s: Seq<char>) -> bool {
    forall|i: int| 0 <= i < s.len() ==> is_digit(#[trigger] s[i])
}

/// A text read as a natural number: an optional plus sign and at least one digit, nothing else.
pub open spec fn natural_of(s: Seq<char>) -> Option<nat> {
    let digits = if s.len() > 0 && s[0] == '+' {
        s.skip(1)
    } else {
        s
    };
    if digits.len() > 0 && all_digits(digits) {
        Some(digits_value(digits))
    } else {
        None
    }
}

/// A text read as a number that fits in 64 bits.
pub open spec fn u64_of(s: Seq<char>) -> Option<int> {
    match natural_of(s) {
        Some(n) => if n <= u64::MAX {
            Some(n as int)
        } else {
            None
        },
        None => None,
    }
}

/// The value of a hexadecimal digit, where the character is one.
pub open spec fn hex_digit(c: char) -> Option<int> {
    if '0' <= c <= '9' {
        Some(c as int - 48)
    } else if 'a' <= c <= 'f' {
        Some(c as int - 87)
    } else if 'A' <= c <= 'F' {
        Some(c as int - 55)
    } else {
        None
    }
}

/// The number that a run of hexadecimal digits stands for.
pub open spec fn hex_value(s: Seq<char>) -> Option<nat>
    decreases s.len(),
{
    if s.len() == 0 {
        Some(0)
    } else {
        match (hex_value(s.drop_last()), hex_digit(s.last())) {
            (Some(n), Some(d)) => Some((n * 16 + d) as nat),
            _ => None,
        }
    }
}

/// A text read as a hexadecimal number that fits in 64 bits: an optional plus sign and at least
/// one digit, nothing else.
pub open spec fn hex_of(s: Seq<char>) -> Option<int> {
    let digits = if s.len() > 0 && s[0] == '+' {
        s.skip(1)
    } else {
        s
    };
    if digits.len() == 0 {
        None
    } else {
        match hex_value(digits) {
            Some(n) => if n <= u64::MAX {
                Some(n as int)
            } else {
                None
            },
            None => None,
        }
    }
}

proof fn lemma_hex_grows(s: Seq<char>, k: int)
    requires
        0 <= k <= s.len(),
    ensures
        hex_value(s.take(k)) is None ==> hex_value(s) is None,
        hex_value(s) is Some ==> hex_value(s.take(k)) is Some && hex_value(s.take(k))->0
            <= hex_value(s)->0,
    decreases s.len() - k,
{
    if k == s.len() {
        assert(s.take(k) =~= s);
    } else {
        lemma_hex_grows(s, k + 1);
        assert(s.take(k + 1).drop_last() =~= s.take(k));
    }
}

/// Reads a text as an unsigned 64-bit number in hexadecimal.
pub fn parse_hex(text: &str) -> (r: Option<u64>)
    ensures
        match r {
            Some(n) => hex_of(text@) == Some(n as int),
            None => hex_of(text@) is None,
        },
{
    let chars = chars_of(text);
    let start: usize = if chars.len() > 0 && chars[0] == '+' {
        1
    } else {
        0
    };
    let ghost digits = chars@.skip(start as int);
    assert(chars@.skip(0) =~= chars@);
    if start >= chars.len() {
        return None;
    }
    let mut value: u64 = 0;
    let mut i: usize = start;
    while i < chars.len()
        invariant
            start <= i <= chars.len(),
            start < chars.len(),
            chars@ == text@,
            digits == chars@.skip(start as int),
            digits == if text@.len() > 0 && text@[0] == '+' { text@.skip(1) } else { text@ },
            hex_value(digits.take(i - start)) == Some(value as nat),
        decreases chars.len() - i,
    {
        let c = chars[i];
        let ghost k = i - start;
        assert(digits.take(k + 1).drop_last() =~= digits.take(k));
        assert(digits.take(k + 1).last() == c);
        proof {
            lemma_hex_grows(digits, k + 1);
        }
        let d: u64 = if '0' <= c && c <= '9' {
            (c as u32 - 48) as u64
        } else if 'a' <= c && c <= 'f' {
            (c as u32 - 87) as u64
        } else if 'A' <= c && c <= 'F' {
            (c as u32 - 55) as u64
        } else {
            return None;
        };
        if value > 1152921504606846975 {
            return None;
        }
        value = value * 16 + d;
        i += 1;
    }
    assert(digits.take(i - start) =~= digits);
    Some(value)
}

proof fn lemma_digits_grow(s: Seq<char>, k: int)
    requires
        0 <= k <= s.len(),
        all_digits(s),
    ensures
        digits_value(s.take(k)) <= digits_value(s),
    decreases s.len() - k,
{
    if k == s.len() {
        assert(s.take(k) =~= s);
    } else {
        lemma_digits_grow(s, k + 1);
        assert(s.take(k + 1).drop_last() =~= s.take(k));
        assert(is_digit(s[k]));
    }
}

/// Reads a text as an unsigned 64-bit number.
pub fn parse_u64(text: &str) -> (r: Option<u64>)
    ensures
        match r {
            Some(n) => u64_of(text@) == Some(n as int),
            None => u64_of(text@) is None,
        },
{
    let chars = chars_of(text);
    let start: usize = if chars.len() > 0 && chars[0] == '+' {
        1
    } else {
        0
    };
    let ghost digits = chars@.skip(start as int);
    assert(chars@.skip(0) =~= chars@);
    if start >= chars.len() {
        return None;
    }
    let mut value: u64 = 0;
    let mut i: usize = start;
    while i < chars.len()
        invariant
            start <= i <= chars.len(),
            start < chars.len(),
            chars@ == text@,
            digits == chars@.skip(start as int),
            digits == if text@.len() > 0 && text@[0] == '+' { text@.skip(1) } else { text@ },
            forall|j: int| 0 <= j < i - start ==> is_digit(#[trigger] digits[j]),
            value == digits_value(digits.take(i - start)),
        decreases chars.len() - i,
    {
        let c = chars[i];
        assert(digits[i - start] == c);
        if c < '0' || c > '9' {
            assert(!is_digit(digits[i - start]));
            return None;
        }
        let d: u64 = (c as u32 - 48) as u64;
        let ghost k = i - start;
        assert(digits.take(k + 1).drop_last() =~= digits.take(k));
        assert(digits_value(digits.take(k + 1)) == value * 10 + d);
        if value > 1844674407370955161 || value * 10 > u64::MAX - d {
            proof {
                if all_digits(digits) {
                    lemma_digits_grow(digits, k + 1);
                }
            }
            return None;
        }
        value = value * 10 + d;
        i += 1;
    }
    assert(digits.take(i - start) =~= digits);
    Some(value)
}

/// The first character that differs decides which of two texts comes after the other.
pub proof fn law_the_first_difference_decides(
    front: Seq<char>,
    a: char,
    rest_a: Seq<char>,
    b: char,
    rest_b: Seq<char>,
)
    requires
        a != b,
    ensures
        text_after(front.push(a) + rest_a, front.push(b) + rest_b) == (a > b),
    decreases front.len(),
{
    let (x, y) = (front.push(a) + rest_a, front.push(b) + rest_b);
    if front.len() > 0 {
        assert(x.skip(1) =~= front.skip(1).push(a) + rest_a);
        assert(y.skip(1) =~= front.skip(1).push(b) + rest_b);
        law_the_first_difference_decides(front.skip(1), a, rest_a, b, rest_b);
    }
}

/// A text comes after everything that it starts with but itself.
pub proof fn law_longer_texts_come_after(front: Seq<char>, rest: Seq<char>)
    ensures
        text_after(front + rest, front) == (rest.len() > 0),
        !text_after(front, front + rest),
    decreases front.len(),
{
    if front.len() > 0 {
        assert((front + rest).skip(1) =~= front.skip(1) + rest);
        law_longer_texts_come_after(front.skip(1), rest);
    } else {
        assert(front + rest =~= rest);
    }
}

/// Of two different texts exactly one comes after the other, and none comes after itself.
pub proof fn law_texts_stand_in_one_order(a: Seq<char>, b: Seq<char>)
    ensures
        a == b ==> !text_after(a, b),
        a != b ==> text_after(a, b) != text_after(b, a),
    decreases a.len(),
{
    if a.len() > 0 && b.len() > 0 && a[0] == b[0] {
        law_texts_stand_in_one_order(a.skip(1), b.skip(1));
        if a.skip(1) == b.skip(1) {
            assert(a =~= seq![a[0]] + a.skip(1));
            assert(b =~= seq![b[0]] + b.skip(1));
        }
    } else if a.len() == 0 && b.len() == 0 {
        assert(a =~= b);
    }
}

/// What comes after a text comes after everything that the text comes after.
pub proof fn law_the_order_of_texts_carries_over(a: Seq<char>, b: Seq<char>, c: Seq<char>)
    requires
        text_after(a, b),
        text_after(b, c),
    ensures
        text_after(a, c),
    decreases a.len(),
{
    if c.len() > 0 && a[0] == b[0] && b[0] == c[0] {
        law_the_order_of_texts_carries_over(a.skip(1), b.skip(1), c.skip(1));
    }
}

/// Where a part cannot overlap itself, it is replaced where it stands, and what is before it and what
/// is behind it are gone through on their own.
pub proof fn law_replacing_goes_part_by_part(
    front: Seq<char>,
    part: Seq<char>,
    back: Seq<char>,
    with: Seq<char>,
)
    requires
        part.len() > 0,
        forall|k: int| 0 < k < part.len() ==> #[trigger] part[k] != part[0],
    ensures
        replaced(front + part + back, part, with) == replaced(front, part, with) + with + replaced(
            back,
            part,
            with,
        ),
    decreases front.len(),
{
    let s = front + part + back;
    let n = part.len() as int;
    let tail = replaced(back, part, with);
    if front.len() == 0 {
        assert(s.take(n) =~= part);
        assert(s.skip(n) =~= back);
        assert(with + tail =~= replaced(front, part, with) + with + tail);
    } else if s.take(n) == part {
        if front.len() < n {
            assert(s[front.len() as int] == part[0]);
            assert(s.take(n)[front.len() as int] == part[front.len() as int]);
        }
        assert(front.take(n) =~= s.take(n));
        assert(s.skip(n) =~= front.skip(n) + part + back);
        law_replacing_goes_part_by_part(front.skip(n), part, back, with);
        assert(with + (replaced(front.skip(n), part, with) + with + tail) =~= with + replaced(
            front.skip(n),
            part,
            with,
        ) + with + tail);
    } else {
        assert(s.skip(1) =~= front.skip(1) + part + back);
        assert(s[0] == front[0]);
        law_replacing_goes_part_by_part(front.skip(1), part, back, with);
        if front.len() >= n {
            assert(front.take(n) =~= s.take(n));
        } else {
            assert(replaced(front.skip(1), part, with) == front.skip(1));
            assert(seq![front[0]] + front.skip(1) =~= front);
        }
        assert(seq![s[0]] + (replaced(front.skip(1), part, with) + with + tail) =~= (seq![front[0]]
            + replaced(front.skip(1), part, with)) + with + tail);
    }
}

/// What cannot be part of a part splits a text: what is before it and what is behind it are gone
/// through on their own, and it stays.
pub proof fn law_replacing_leaves_the_rest(
    front: Seq<char>,
    middle: Seq<char>,
    back: Seq<char>,
    part: Seq<char>,
    with: Seq<char>,
)
    requires
        part.len() > 0,
        forall|i: int|
            front.len() - part.len() < i < front.len() + middle.len() && 0 <= i ==> !#[trigger] stands_at(
                front + middle + back,
                part,
                i,
            ),
    ensures
        replaced(front + middle + back, part, with) == replaced(front, part, with) + middle
            + replaced(back, part, with),
    decreases front.len() + middle.len(),
{
    let s = front + middle + back;
    let n = part.len() as int;
    let tail = replaced(back, part, with);
    if front.len() > 0 {
        if s.len() >= n {
            assert(s.subrange(0, n) =~= s.take(n));
        }
        if front.len() >= n {
            assert(front.take(n) =~= s.take(n));
        } else if s.len() >= n {
            assert(!stands_at(s, part, 0));
        }
        let step = if s.len() >= n && s.take(n) == part {
            n
        } else {
            1
        };
        let rest = front.skip(step);
        assert(s.skip(step) =~= rest + middle + back);
        assert forall|i: int|
            rest.len() - part.len() < i < rest.len() + middle.len() && 0
                <= i implies !#[trigger] stands_at(rest + middle + back, part, i) by {
            if stands_at(rest + middle + back, part, i) {
                assert(s.subrange(i + step, i + step + n) =~= (rest + middle + back).subrange(
                    i,
                    i + n,
                ));
                assert(stands_at(s, part, i + step));
            }
        }
        law_replacing_leaves_the_rest(rest, middle, back, part, with);
        if step == n && s.take(n) == part && s.len() >= n {
            assert(with + (replaced(rest, part, with) + middle + tail) =~= (with + replaced(
                rest,
                part,
                with,
            )) + middle + tail);
        } else {
            if front.len() < n {
                assert(replaced(rest, part, with) == rest);
                assert(seq![front[0]] + rest =~= front);
            }
            if s.len() < n {
                assert(replaced(rest + middle + back, part, with) == rest + middle + back);
                assert(tail == back);
            } else {
                assert(seq![s[0]] + (replaced(rest, part, with) + middle + tail) =~= (seq![front[0]]
                    + replaced(rest, part, with)) + middle + tail);
            }
        }
    } else if middle.len() > 0 {
        if s.len() >= n {
            assert(s.subrange(0, n) =~= s.take(n));
            assert(!stands_at(s, part, 0));
        }
        let rest = middle.skip(1);
        assert(s.skip(1) =~= front + rest + back);
        assert forall|i: int|
            front.len() - part.len() < i < front.len() + rest.len() && 0
                <= i implies !#[trigger] stands_at(front + rest + back, part, i) by {
            if stands_at(front + rest + back, part, i) {
                assert(s.subrange(i + 1, i + 1 + n) =~= (front + rest + back).subrange(i, i + n));
                assert(stands_at(s, part, i + 1));
            }
        }
        law_replacing_leaves_the_rest(front, rest, back, part, with);
        assert(replaced(front, part, with) == front);
        assert(seq![s[0]] + (front + rest + tail) =~= front + middle + tail);
        if s.len() < n {
            assert(s =~= front + middle + tail);
        }
    } else {
        assert(s =~= back);
        assert(replaced(front, part, with) == front);
        assert(front + middle + tail =~= tail);
    }
}

/// Putting two lists together puts the separator between what each of them gives.
pub proof fn law_joining_goes_list_by_list(
    front: Seq<Seq<char>>,
    back: Seq<Seq<char>>,
    separator: Seq<char>,
)
    requires
        front.len() > 0,
        back.len() > 0,
    ensures
        joined(front + back, separator) == joined(front, separator) + separator + joined(
            back,
            separator,
        ),
    decreases back.len(),
{
    let all = front + back;
    assert(all.drop_last() =~= front + back.drop_last());
    assert(all.last() == back.last());
    if back.len() == 1 {
        assert(front + back.drop_last() =~= front);
    } else {
        law_joining_goes_list_by_list(front, back.drop_last(), separator);
        assert(joined(front, separator) + separator + joined(back.drop_last(), separator)
            + separator + back.last() =~= joined(front, separator) + separator + (joined(
            back.drop_last(),
            separator,
        ) + separator + back.last()));
    }
}

/// One text put together is itself, and none is an empty text.
pub proof fn law_joining_one(part: Seq<char>, separator: Seq<char>)
    ensures
        joined(seq![part], separator) == part,
        joined(Seq::empty(), separator).len() == 0,
{
}

/// Every text stands in what they are put together to.
pub proof fn law_joining_keeps_every_part(parts: Seq<Seq<char>>, separator: Seq<char>, i: int)
    requires
        0 <= i < parts.len(),
    ensures
        has_part(joined(parts, separator), parts[i]),
    decreases parts.len(),
{
    let all = joined(parts, separator);
    if parts.len() == 1 {
        assert(all.subrange(0, all.len() as int) =~= parts[i]);
        assert(stands_at(all, parts[i], 0));
    } else if i == parts.len() - 1 {
        let start = all.len() - parts[i].len();
        assert(all.subrange(start, start + parts[i].len()) =~= parts[i]);
        assert(stands_at(all, parts[i], start));
    } else {
        let rest = parts.drop_last();
        law_joining_keeps_every_part(rest, separator, i);
        let k = choose|k: int| stands_at(joined(rest, separator), rest[i], k);
        assert(all.subrange(k, k + parts[i].len()) =~= joined(rest, separator).subrange(
            k,
            k + parts[i].len(),
        ));
        assert(stands_at(all, parts[i], k));
    }
}

/// What is put together starts with the first text.
pub proof fn law_joining_starts_with_the_first(parts: Seq<Seq<char>>, separator: Seq<char>)
    requires
        parts.len() > 0,
    ensures
        parts[0].is_prefix_of(joined(parts, separator)),
    decreases parts.len(),
{
    if parts.len() > 1 {
        law_joining_starts_with_the_first(parts.drop_last(), separator);
        let front = joined(parts.drop_last(), separator);
        let all = joined(parts, separator);
        assert(front.subrange(0, parts[0].len() as int) =~= parts[0]);
        assert(all.subrange(0, parts[0].len() as int) =~= front.subrange(0, parts[0].len() as int));
    } else {
        assert(parts[0].subrange(0, parts[0].len() as int) =~= parts[0]);
    }
}

/// Trimming takes white space from both ends and nothing else: what is left neither starts nor ends
/// with any, and stands in the text with nothing but white space before and behind it.
pub proof fn law_trimming_takes_only_white_space(s: Seq<char>)
    ensures
        trimmed(s).len() > 0 ==> !is_space(trimmed(s)[0]) && !is_space(trimmed(s).last()),
        exists|i: int|
            #![trigger stands_at(s, trimmed(s), i)]
            stands_at(s, trimmed(s), i) && (forall|j: int| 0 <= j < i ==> is_space(#[trigger] s[j]))
                && (forall|j: int|
                i + trimmed(s).len() <= j < s.len() ==> is_space(#[trigger] s[j])),
{
    lemma_trim_start(s);
    let a = trim_start(s);
    lemma_trim_end(a);
    let b = trimmed(s);
    let i = s.len() - a.len();
    assert(s.subrange(i, i + b.len()) =~= b) by {
        assert forall|k: int| 0 <= k < b.len() implies s[i + k] == b[k] by {
            assert(a[k] == s.skip(i)[k]);
            assert(b[k] == a.take(b.len() as int)[k]);
        }
    }
    assert forall|j: int| i + b.len() <= j < s.len() implies is_space(#[trigger] s[j]) by {
        assert(a[j - i] == s.skip(i)[j - i]);
    }
    if b.len() > 0 {
        assert(b[0] == a.take(b.len() as int)[0]);
    }
    assert(stands_at(s, b, i));
}

proof fn lemma_trim_start(s: Seq<char>)
    ensures
        trim_start(s).len() <= s.len(),
        trim_start(s) == s.skip(s.len() - trim_start(s).len()),
        forall|j: int| 0 <= j < s.len() - trim_start(s).len() ==> is_space(#[trigger] s[j]),
        trim_start(s).len() > 0 ==> !is_space(trim_start(s)[0]),
    decreases s.len(),
{
    if s.len() > 0 && is_space(s[0]) {
        let rest = s.skip(1);
        lemma_trim_start(rest);
        let n = trim_start(rest).len() as int;
        assert(rest.skip(rest.len() - n) =~= s.skip(s.len() - n));
        assert forall|j: int| 0 <= j < s.len() - n implies is_space(#[trigger] s[j]) by {
            if j > 0 {
                assert(rest[j - 1] == s[j]);
            }
        }
    } else {
        assert(s.skip(0) =~= s);
    }
}

proof fn lemma_trim_end(s: Seq<char>)
    ensures
        trim_end(s).len() <= s.len(),
        trim_end(s) == s.take(trim_end(s).len() as int),
        forall|j: int| trim_end(s).len() <= j < s.len() ==> is_space(#[trigger] s[j]),
        trim_end(s).len() > 0 ==> !is_space(trim_end(s).last()),
    decreases s.len(),
{
    if s.len() > 0 && is_space(s.last()) {
        let rest = s.drop_last();
        lemma_trim_end(rest);
        let n = trim_end(rest).len() as int;
        assert(rest.take(n) =~= s.take(n));
        assert forall|j: int| n <= j < s.len() implies is_space(#[trigger] s[j]) by {
            if j < rest.len() {
                assert(rest[j] == s[j]);
            }
        }
    } else {
        assert(s.take(s.len() as int) =~= s);
    }
}

/// A text is blank where every character of it is white space.
pub proof fn law_blank_is_white_space_only(s: Seq<char>)
    ensures
        is_blank(s) <==> forall|i: int| 0 <= i < s.len() ==> is_space(#[trigger] s[i]),
{
    lemma_trim_start(s);
    let a = trim_start(s);
    lemma_trim_end(a);
    let n = s.len() - a.len();
    if is_blank(s) {
        assert forall|i: int| 0 <= i < s.len() implies is_space(#[trigger] s[i]) by {
            if i >= n {
                assert(a[i - n] == s.skip(n)[i - n]);
            }
        }
    } else {
        assert(trimmed(s)[0] == a.take(trimmed(s).len() as int)[0]);
        assert(a[0] == s.skip(n)[0]);
        assert(a[0] == s[n]);
        assert(!is_space(s[n]));
    }
}

/// Splitting a text loses nothing but the character it is split on: none of the parts has that
/// character in it, and put together with it between them they are the text again.
pub proof fn law_splitting_is_undone_by_joining(s: Seq<char>, c: char)
    ensures
        joined(split_on(s, c), seq![c]) == s,
        split_on(s, c).len() >= 1,
        forall|i: int| 0 <= i < split_on(s, c).len() ==> !(#[trigger] split_on(s, c)[i]).contains(c),
    decreases s.len(),
{
    let parts = split_on(s, c);
    if s.len() == 0 {
        assert(parts =~= seq![Seq::<char>::empty()]);
        assert(s =~= Seq::empty());
    } else {
        let rest = s.drop_last();
        law_splitting_is_undone_by_joining(rest, c);
        let before = split_on(rest, c);
        assert(s =~= rest.push(s.last()));
        if s.last() == c {
            assert(parts.drop_last() =~= before);
            assert(parts.last() =~= Seq::<char>::empty());
            assert(joined(parts, seq![c]) =~= s);
            assert forall|i: int| 0 <= i < parts.len() implies !(#[trigger] parts[i]).contains(
                c,
            ) by {
                if i < before.len() {
                    assert(parts[i] == before[i]);
                }
            }
        } else {
            let longer = before.last().push(s.last());
            assert(parts.drop_last() =~= before.drop_last());
            assert(parts.last() == longer);
            if before.len() > 1 {
                assert(joined(before, seq![c]) == joined(before.drop_last(), seq![c]) + seq![c]
                    + before.last());
                assert(joined(parts, seq![c]) =~= s);
            } else {
                assert(before[0] == rest);
                assert(parts[0] == longer);
            }
            assert forall|i: int| 0 <= i < parts.len() implies !(#[trigger] parts[i]).contains(
                c,
            ) by {
                if i < before.len() - 1 {
                    assert(parts[i] == before[i]);
                } else {
                    assert(!before[before.len() - 1].contains(c));
                    if longer.contains(c) {
                        let k = choose|k: int| 0 <= k < longer.len() && longer[k] == c;
                        assert(before.last()[k] == c);
                    }
                }
            }
        }
    }
}

/// The last place of a part is one where it stands, and it stands nowhere behind; there is none where
/// it does not stand in the text at all.
pub proof fn law_the_last_place_is_the_last(s: Seq<char>, part: Seq<char>)
    ensures
        ({
            let r = last_place(s, part, s.len() as int);
            &&& r is Some <==> has_part(s, part)
            &&& r is Some ==> stands_at(s, part, r->0) && forall|j: int|
                r->0 < j ==> !#[trigger] stands_at(s, part, j)
        }),
        following(s, part) is Some <==> has_part(s, part),
        following(s, part) is Some ==> exists|i: int|
            #[trigger] stands_at(s, part, i) && following(s, part)->0 == s.skip(i + part.len()) && (
            forall|j: int| i < j ==> !stands_at(s, part, j)),
{
    lemma_last_place(s, part, s.len() as int);
    if has_part(s, part) {
        let i = choose|i: int| stands_at(s, part, i);
        assert(i <= s.len());
    }
}

proof fn lemma_last_place(s: Seq<char>, part: Seq<char>, from: int)
    ensures
        match last_place(s, part, from) {
            Some(i) => i <= from && stands_at(s, part, i) && forall|j: int|
                i < j <= from ==> !#[trigger] stands_at(s, part, j),
            None => forall|j: int| j <= from ==> !#[trigger] stands_at(s, part, j),
        },
    decreases from + 1,
{
    if from >= 0 && !stands_at(s, part, from) {
        lemma_last_place(s, part, from - 1);
    }
}

/// Replacing once touches the first place of a part and leaves the rest.
pub proof fn law_replacing_once_touches_the_first(
    s: Seq<char>,
    part: Seq<char>,
    with: Seq<char>,
    first: int,
)
    requires
        stands_at(s, part, first),
        forall|j: int| 0 <= j < first ==> !#[trigger] stands_at(s, part, j),
    ensures
        replaced_once(s, part, with) == s.take(first) + with + s.skip(first + part.len()),
    decreases s.len(),
{
    lemma_first_place_is(s, part, first);
}

proof fn lemma_first_place_is(s: Seq<char>, part: Seq<char>, first: int)
    requires
        stands_at(s, part, first),
        forall|j: int| 0 <= j < first ==> !#[trigger] stands_at(s, part, j),
    ensures
        first_place(s, part) == Some(first),
    decreases s.len(),
{
    if first > 0 {
        assert(!stands_at(s, part, 0));
        let rest = s.skip(1);
        assert(rest.subrange(first - 1, first - 1 + part.len()) =~= s.subrange(
            first,
            first + part.len(),
        ));
        assert forall|j: int| 0 <= j < first - 1 implies !#[trigger] stands_at(rest, part, j) by {
            if stands_at(rest, part, j) {
                assert(s.subrange(j + 1, j + 1 + part.len()) =~= rest.subrange(j, j + part.len()));
                assert(stands_at(s, part, j + 1));
            }
        }
        lemma_first_place_is(rest, part, first - 1);
    }
}

/// What is written out in decimal is read back as the number that it was.
pub proof fn law_decimals_read_back(n: nat)
    ensures
        natural_of(decimal_text(n)) == Some(n),
        n <= u64::MAX ==> u64_of(decimal_text(n)) == Some(n as int),
{
    lemma_decimal_digits(n);
}

proof fn lemma_decimal_digits(n: nat)
    ensures
        decimal_text(n).len() > 0,
        all_digits(decimal_text(n)),
        digits_value(decimal_text(n)) == n,
    decreases n,
{
    if n < 10 {
        let s = decimal_text(n);
        assert(s.len() == 1 && s[0] == digit_char(n as int));
        assert(s.drop_last() =~= Seq::empty());
        assert(digits_value(s.drop_last()) == 0);
        assert(s.last() == s[0]);
    } else {
        lemma_decimal_digits(n / 10);
        let s = decimal_text(n);
        assert(s.drop_last() =~= decimal_text(n / 10));
        assert forall|i: int| 0 <= i < s.len() implies is_digit(#[trigger] s[i]) by {
            if i < s.len() - 1 {
                assert(s[i] == decimal_text(n / 10)[i]);
            }
        }
    }
}

/// A text is filled up with zeros in front to the width that is wanted, and not cut.
pub proof fn law_padding_fills_up_with_zeros(s: Seq<char>, width: nat)
    ensures
        s.len() >= width ==> zero_padded(s, width) == s,
        s.len() <= width ==> zero_padded(s, width).len() == width,
        zero_padded(s, width).skip(zero_padded(s, width).len() - s.len()) == s,
        forall|i: int|
            0 <= i < zero_padded(s, width).len() - s.len() ==> #[trigger] zero_padded(s, width)[i]
                == '0',
    decreases width - s.len(),
{
    if s.len() >= width {
        assert(s.skip(0) =~= s);
    } else {
        let longer = seq!['0'] + s;
        law_padding_fills_up_with_zeros(longer, width);
        let out = zero_padded(s, width);
        assert(out.skip(out.len() - s.len()) =~= out.skip(out.len() - longer.len()).skip(1));
        assert(longer.skip(1) =~= s);
        assert(out[out.len() - longer.len()] == out.skip(out.len() - longer.len())[0]);
    }
}

/// What is written out in hexadecimal is read back as the number that it was.
pub proof fn law_hexadecimals_read_back(n: nat)
    ensures
        n <= u64::MAX ==> hex_of(hex_text(n)) == Some(n as int),
        hex_value(hex_text(n)) == Some(n),
        hex_text(n).len() > 0,
        hex_text(n)[0] != '+',
    decreases n,
{
    let s = hex_text(n);
    if n < 16 {
        assert(s.drop_last() =~= Seq::empty());
        assert(s.last() == hex_char(n as int));
        assert(hex_value(s.drop_last()) == Some(0nat));
    } else {
        law_hexadecimals_read_back(n / 16);
        assert(s.drop_last() =~= hex_text(n / 16));
        assert(s.last() == hex_char((n % 16) as int));
        assert(s[0] == hex_text(n / 16)[0]);
    }
}

/// A number is read digit by digit, the last counting once and the ones before it ten times, and nothing
/// but digits behind at most a plus sign is a number.
pub proof fn law_numbers_are_read_digit_by_digit(s: Seq<char>, c: char)
    requires
        s.len() > 0,
        s != seq!['+'],
    ensures
        natural_of(s.push(c)) is Some <==> natural_of(s) is Some && '0' <= c <= '9',
        natural_of(s.push(c)) is Some ==> natural_of(s.push(c))->0 == natural_of(s)->0 * 10 + (
        c as int - '0' as int),
        natural_of(Seq::empty()) is None,
{
    let t = s.push(c);
    let plus = s[0] == '+';
    let (d, e) = if plus {
        (s.skip(1), t.skip(1))
    } else {
        (s, t)
    };
    assert(e =~= d.push(c));
    assert(e.drop_last() =~= d);
    if plus && s.len() == 1 {
        assert(s =~= seq!['+']);
    }
    assert(d.len() > 0);
    if all_digits(e) {
        assert forall|i: int| 0 <= i < d.len() implies is_digit(#[trigger] d[i]) by {
            assert(e[i] == d[i]);
        }
        assert(is_digit(e[d.len() as int]));
    }
    if all_digits(d) && is_digit(c) {
        assert forall|i: int| 0 <= i < e.len() implies is_digit(#[trigger] e[i]) by {
            if i < d.len() {
                assert(e[i] == d[i]);
            }
        }
    }
}

/// How many bytes a text takes is what its parts take together: one for a character of ASCII, and up to
/// four for any other.
pub proof fn law_bytes_add_up(front: Seq<char>, back: Seq<char>, c: char)
    ensures
        byte_length(front + back) == byte_length(front) + byte_length(back),
        byte_length(seq![c]) == (if (c as int) < 0x80 {
            1int
        } else if (c as int) < 0x800 {
            2
        } else if (c as int) < 0x10000 {
            3
        } else {
            4
        }),
    decreases back.len(),
{
    if back.len() == 0 {
        assert(front + back =~= front);
    } else {
        law_bytes_add_up(front, back.drop_last(), c);
        assert((front + back).drop_last() =~= front + back.drop_last());
        assert((front + back).last() == back.last());
    }
    assert(seq![c].drop_last() =~= Seq::empty());
    assert(byte_length(seq![c].drop_last()) == 0);
    assert(seq![c].last() == c);
}

/// Two texts that differ in the case of their ASCII letters alone are the same so, and a letter counts
/// as itself in either case and as nothing else.
pub proof fn law_only_the_case_of_letters_is_ignored(a: Seq<char>, b: Seq<char>, i: int)
    ensures
        same_but_case(a, a),
        same_but_case(a, b) ==> same_but_case(b, a) && a.len() == b.len(),
        same_but_case(a, b) && 0 <= i < a.len() ==> a[i] == b[i] || ('A' <= a[i] <= 'Z' && b[i] as int
            == a[i] as int + 32) || ('A' <= b[i] <= 'Z' && a[i] as int == b[i] as int + 32),
{
}

/// An integer is written with a minus sign exactly where it is below zero.
pub proof fn law_a_minus_sign_stands_before_what_is_below_zero(n: nat)
    ensures
        integer_text(n as int) == decimal_text(n),
        n > 0 ==> integer_text(-(n as int)) == seq!['-'] + decimal_text(n),
{
}

/// A text has as many lines as it has line breaks, and one more where something follows the last.
pub proof fn law_lines_end_with_their_breaks(s: Seq<char>)
    ensures
        line_count(Seq::empty()) == 0,
        !s.contains('\n') && s.len() > 0 ==> line_count(s) == 1,
        line_count(s.push('\n')) == split_on(s, '\n').len(),
{
    assert(s.push('\n').drop_last() =~= s);
    let parts = split_on(s.push('\n'), '\n');
    assert(parts.last() =~= Seq::<char>::empty());
    if !s.contains('\n') && s.len() > 0 {
        lemma_split_of_one(s, '\n');
    }
}

proof fn lemma_split_of_one(s: Seq<char>, c: char)
    requires
        !s.contains(c),
    ensures
        split_on(s, c) == seq![s],
    decreases s.len(),
{
    if s.len() > 0 {
        let rest = s.drop_last();
        assert(s.contains(s.last()));
        assert(!rest.contains(c)) by {
            assert forall|i: int| 0 <= i < rest.len() implies rest[i] != c by {
                assert(s.contains(s[i]));
            }
        }
        lemma_split_of_one(rest, c);
        assert(rest.push(s.last()) =~= s);
        assert(split_on(s, c) =~= seq![s]);
    } else {
        assert(s =~= Seq::empty());
        assert(split_on(s, c) =~= seq![s]);
    }
}

} // verus!
