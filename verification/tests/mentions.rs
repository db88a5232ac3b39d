//! Mentions on the way out.
use nobilis::backend::discord::mentions::{
    guild_in_group, mention_candidates, replace_mention, resolve_outgoing_mentions, Candidate,
};
use nobilis::json::parse;

fn named(name: &str, id: &str) -> Candidate {
    Candidate { name: name.into(), id: id.into() }
}

fn people() -> Vec<Candidate> {
    vec![named("Sam", "1"), named("Sam Vimes", "2"), named("alice", "3")]
}

fn resolved(body: &str, candidates: Vec<Candidate>) -> String {
    resolve_outgoing_mentions(body, candidates)
}

#[test]
fn a_typed_name_becomes_the_id_discord_pings_on() {
    assert_eq!(resolved("@alice hello", people()), "<@3> hello");
    assert_eq!(resolved("hello @alice", people()), "hello <@3>");
    assert_eq!(resolved("(@alice)", people()), "(<@3>)");
    assert_eq!(resolved("@alice, hello", people()), "<@3>, hello");
}

#[test]
fn the_longer_name_wins() {
    assert_eq!(resolved("@Sam Vimes hi", people()), "<@2> hi");
    assert_eq!(resolved("@Sam hi", people()), "<@1> hi");
}

#[test]
fn case_does_not_matter_but_word_boundaries_do() {
    assert_eq!(resolved("@ALICE hi", people()), "<@3> hi");
    // Inside a word: an address, not a mention.
    assert_eq!(resolved("mail@alice.example", people()), "mail@alice.example");
    // A longer name that merely starts with a known one.
    assert_eq!(resolved("@alicent hi", people()), "@alicent hi");
}

#[test]
fn everyone_and_here_are_left_alone() {
    let mut roster = people();
    roster.push(named("everyone", "9"));
    roster.push(named("here", "10"));
    assert_eq!(resolved("@everyone look", roster), "@everyone look");
    let mut again = people();
    again.push(named("everyone", "9"));
    again.push(named("here", "10"));
    assert_eq!(resolved("@here look", again), "@here look");
}

#[test]
fn a_role_becomes_a_role_mention() {
    let roster = vec![named("Gaymer Word User", "&42")];
    assert_eq!(resolved("@Gaymer Word User look", roster), "<@&42> look");
}

#[test]
fn text_with_no_mentions_is_untouched() {
    assert_eq!(resolved("just talking", people()), "just talking");
    assert_eq!(resolved("", people()), "");
}

#[test]
fn every_mention_of_a_name_is_rewritten() {
    assert_eq!(replace_mention("@sam @sam", "Sam", "1"), "<@1> <@1>");
    assert_eq!(replace_mention("no at sign", "Sam", "1"), "no at sign");
}

#[test]
fn members_and_roles_can_be_mentioned() {
    let members = parse(r#"[{ "nick": "alice", "userId": "3" }, { "nick": "nobody" }]"#).unwrap();
    let roles = vec![parse(r#"{ "id": "42", "name": "mods" }"#).unwrap()];
    let all = mention_candidates(Some(&members), &roles, vec![named("bob", "4"), named("alice", "5")]);
    assert!(all.contains(&named("alice", "3")));
    assert!(all.contains(&named("mods", "&42")));
    assert!(all.contains(&named("bob", "4")));
}

#[test]
fn a_group_names_its_server() {
    assert_eq!(guild_in_group(Some("discord:me|guild:77")).as_deref(), Some("77"));
    assert_eq!(guild_in_group(Some("discord:me|dms")), None);
    assert_eq!(guild_in_group(None), None);
}

#[test]
fn letters_that_grow_or_shrink_in_lower_case_stay_as_typed() {
    // A capital I with a dot takes more bytes in lower case, and a capital sharp s fewer.
    assert_eq!(replace_mention("\u{130} @alice", "alice", "3"), "\u{130} <@3>");
    assert_eq!(replace_mention("\u{1E9E} @ALICE \u{1E9E}", "alice", "3"), "\u{1E9E} <@3> \u{1E9E}");
    assert_eq!(replace_mention("@\u{1E9E}am!", "\u{DF}AM", "4"), "<@4>!");
    assert_eq!(replace_mention("@\u{130}", "\u{130}", "5"), "<@5>");
}

#[test]
fn who_cannot_be_mentioned_plays_no_part() {
    let mut roster = people();
    roster.push(named("", "8"));
    roster.push(named("EVERYONE", "9"));
    roster.push(named("Here", "10"));
    let body = "@ @everyone @here @Sam Vimes, @sam";
    assert_eq!(resolved(body, roster), "@ @everyone @here <@2>, <@1>");
    assert_eq!(resolved(body, people()), "@ @everyone @here <@2>, <@1>");
}

#[test]
fn a_name_may_be_mentioned_behind_one_that_was_no_mention() {
    assert_eq!(replace_mention("x@alice @alice", "alice", "3"), "x@alice <@3>");
    assert_eq!(replace_mention("@alice@alice", "alice", "3"), "@alice@alice");
    assert_eq!(replace_mention("\u{2003}@alice\u{3000}", "alice", "3"), "\u{2003}<@3>\u{3000}");
}
