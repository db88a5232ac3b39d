//! What a build says of the commit that it came from.
use vstd::prelude::*;
use crate::text::{blank, chars_of, is_blank, maybe, slice_text, starts_with, trim, trimmed};

verus! {

/// The stamp of a build: its commit, and whether something was changed since.
pub open spec fn stamped(commit: Option<Seq<char>>, status: Option<Seq<char>>) -> Seq<char> {
    let name = match commit {
        Some(c) => c,
        None => "unknown"@,
    };
    match status {
        Some(s) => if is_blank(s) {
            name
        } else {
            name + "-modified"@
        },
        None => name,
    }
}

/// The stamp of a build, from what git says of the commit and of the working tree, where it says
/// anything.
pub fn stamp(commit: Option<&str>, status: Option<&str>) -> (r: String)
    ensures
        r@ == stamped(crate::text::maybe_str(commit), crate::text::maybe_str(status)),
{
    let name = match commit {
        Some(c) => c,
        None => "unknown",
    };
    let dirty = match status {
        Some(s) => !blank(s),
        None => false,
    };
    if dirty {
        name.to_owned().concat("-modified")
    } else {
        name.to_owned()
    }
}

/// What follows a label, without the blanks around it.
pub open spec fn labelled(text: Seq<char>, label: Seq<char>) -> Option<Seq<char>> {
    if label.is_prefix_of(text) {
        Some(trimmed(text.skip(label.len() as int)))
    } else {
        None
    }
}

fn read_label(text: &str, label: &str) -> (r: Option<String>)
    ensures
        maybe(r) == labelled(text@, label@),
{
    if !starts_with(text, label) {
        return None;
    }
    let chars = chars_of(text);
    let skipped = chars_of(label);
    let rest = slice_text(&chars, skipped.len(), chars.len());
    assert(rest@ =~= text@.skip(label@.len() as int));
    Some(trim(rest.as_str()))
}

/// The branch that a HEAD file points at, where it points at one.
pub fn watched_reference(head: &str) -> (r: Option<String>)
    ensures
        maybe(r) == labelled(head@, "ref: "@),
{
    read_label(head, "ref: ")
}

/// The directory that a `.git` file points at, where it is one.
pub fn git_dir(pointer: &str) -> (r: Option<String>)
    ensures
        maybe(r) == labelled(pointer@, "gitdir:"@),
{
    read_label(pointer, "gitdir:")
}

/// A build is stamped with its commit, and marked where the working tree says that something was changed
/// since.
pub proof fn law_a_changed_tree_is_marked(
    commit: Option<Seq<char>>,
    status: Option<Seq<char>>,
    other: Seq<char>,
)
    ensures
        ({
            let name = if commit is Some {
                commit->0
            } else {
                "unknown"@
            };
            &&& status is Some && !is_blank(status->0) ==> stamped(commit, status) == name
                + "-modified"@
            &&& status is None || is_blank(status->0) ==> stamped(commit, status) == name
        }),
        stamped(Some(other), status) == stamped(commit, status) && commit is Some ==> commit
            == Some(other),
{
    if commit is Some && stamped(Some(other), status) == stamped(commit, status) && status is Some
        && !is_blank(status->0) {
        let mark = "-modified"@;
        let (a, b) = (other + mark, commit->0 + mark);
        assert(a.len() == b.len());
        assert(a.take(other.len() as int) =~= other);
        assert(b.take(commit->0.len() as int) =~= commit->0);
    }
}

/// What follows a label is read without the white space around it, and nothing is read where the label is
/// not there.
pub proof fn law_a_label_is_followed_by_its_text(
    label: Seq<char>,
    rest: Seq<char>,
    text: Seq<char>,
)
    ensures
        labelled(label + rest, label) == Some(trimmed(rest)),
        !label.is_prefix_of(text) ==> labelled(text, label) is None,
{
    assert((label + rest).subrange(0, label.len() as int) =~= label);
    assert((label + rest).skip(label.len() as int) =~= rest);
}

} // verus!
