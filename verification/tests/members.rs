//! Member lists, presence and this account's own standing.
use nobilis::backend::discord::guilds::{member_is_pending, member_role_ids};
use nobilis::backend::discord::gateway::Resyncs;
use nobilis::backend::discord::members::{
    apply_member_op, member_entry, presence_payload, read_presences, request_member_list, set_dm_presence, sort_rows,
    status_update, update_member_list, update_presence_in_roster, Learned,
};
use nobilis::backend::discord::standing::Standing;
use nobilis::json::{parse, Json};

fn json(text: &str) -> Json {
    parse(text).expect("JSON")
}

fn texts(list: &[&str]) -> Vec<String> {
    list.iter().map(|t| t.to_string()).collect()
}

fn role_changes_that_count() {
    let mut rt = Standing::new();
    let g = "discord:me|guild:1";

    // What connecting does.
    assert!(!rt.set_discord_own_roles(g, texts(&["a"])), "the baseline is not a change");
    // And the grant that follows it is.
    assert!(rt.set_discord_own_roles(g, texts(&["a", "member"])), "gained a role");
    assert!(!rt.set_discord_own_roles(g, texts(&["a", "member"])), "same roles again");
    assert!(rt.set_discord_own_roles(g, texts(&["a"])), "lost one");
    // Order is Discord's business, not a change.
    assert!(rt.set_discord_own_roles(g, texts(&["a", "b"])));
    assert!(!rt.set_discord_own_roles(g, texts(&["b", "a"])), "reordered is unchanged");
}

#[test]
fn discord_only_a_real_role_change_counts() {
    role_changes_that_count();
}

#[test]
fn guilds_only_a_real_role_change_counts() {
    role_changes_that_count();
}

fn a_burst() {
    let mut rt = Resyncs::new();
    let g = "discord:me|guild:1";

    assert!(rt.try_start_guild_resync(g), "first claim runs");
    assert!(!rt.try_start_guild_resync(g), "second is folded into the first");
    assert!(!rt.try_start_guild_resync(g), "and so is the third");
    assert!(rt.finish_guild_resync(g), "something arrived while it ran, so run once more");
    assert!(!rt.finish_guild_resync(g), "and nothing since, so stop");
    // Free again afterwards.
    assert!(rt.try_start_guild_resync(g));
}

#[test]
fn discord_a_burst_of_changes_collapses() {
    a_burst();
}

#[test]
fn guilds_a_burst_of_changes_collapses() {
    a_burst();
}

fn a_rebuild_owed() {
    let mut rt = Standing::new();
    let gated = "discord:me|guild:1";
    let plain = "discord:me|guild:2";

    rt.note_discord_gated(gated, true);
    rt.note_discord_gated(plain, false);

    assert!(rt.take_discord_gated(gated), "a gated guild owes a rebuild");
    assert!(!rt.take_discord_gated(gated), "and owes it only once");
    assert!(!rt.take_discord_gated(plain), "an ungated one never did");
}

#[test]
fn discord_a_rebuild_is_owed_once_and_only_where_it_was_gated() {
    a_rebuild_owed();
}

#[test]
fn guilds_a_rebuild_is_owed_once_and_only_where_it_was_gated() {
    a_rebuild_owed();
}

fn no_gate() {
    assert!(!member_is_pending(None));
    assert!(!member_is_pending(Some(&json(r#"{ "roles": [] }"#))));
    assert!(!member_is_pending(Some(&json(r#"{ "pending": false }"#))));
    assert!(member_is_pending(Some(&json(r#"{ "pending": true }"#))));
}

#[test]
fn discord_a_missing_member_is_not_a_gate() {
    no_gate();
}

#[test]
fn guilds_a_missing_member_is_not_a_gate() {
    no_gate();
}

fn roles_of_a_member() {
    assert_eq!(member_role_ids(None), Vec::<String>::new());
    assert_eq!(
        member_role_ids(Some(&json(r#"{ "roles": ["1", "2"] }"#))),
        vec!["1".to_string(), "2".to_string()]
    );
    // A member object with no roles at all is ordinary, not an error.
    assert_eq!(member_role_ids(Some(&json(r#"{ "pending": true }"#))), Vec::<String>::new());
}

#[test]
fn discord_roles_come_off_the_same_member_object() {
    roles_of_a_member();
}

#[test]
fn guilds_roles_come_off_the_same_member_object() {
    roles_of_a_member();
}

#[test]
fn a_changed_membership_is_read_again_for_a_reason() {
    let mut standing = Standing::new();
    let g = "discord:me|guild:1";
    standing.note_discord_gated(g, true);
    standing.set_discord_own_roles(g, texts(&["a"]));
    assert!(standing.own_member_changed(g, texts(&["a"])), "it may come in now");
    assert!(!standing.own_member_changed(g, texts(&["a"])), "a nickname is no reason");
    assert!(standing.own_member_changed(g, texts(&["b"])), "other roles are");
}

fn member(id: &str, nick: &str, status: &str) -> String {
    format!(
        r#"{{ "member": {{ "nick": "{nick}", "user": {{ "id": "{id}", "username": "{nick}" }}, "presence": {{ "status": "{status}" }} }} }}"#
    )
}

fn nicks(window: &[Json]) -> Vec<String> {
    window.iter().map(|m| m.at("nick").text().unwrap().to_string()).collect()
}

#[test]
fn a_member_window_follows_inserts_updates_and_deletes() {
    let mut learned: Vec<Learned> = Vec::new();
    let mut window: Vec<Json> = Vec::new();

    let sync = json(&format!(
        r#"{{ "op": "SYNC", "range": [0, 99], "items": [{}, {}] }}"#,
        member("1", "anna", "online"),
        member("2", "bob", "idle")
    ));
    assert!(apply_member_op(&mut window, &sync, &mut learned));
    assert_eq!(window.len(), 2);
    assert_eq!(window[0].at("nick").text(), Some("anna"));

    let insert = json(&format!(r#"{{ "op": "INSERT", "index": 1, "item": {} }}"#, member("3", "carol", "online")));
    assert!(apply_member_op(&mut window, &insert, &mut learned));
    assert_eq!(nicks(&window), ["anna", "carol", "bob"]);

    let update = json(&format!(r#"{{ "op": "UPDATE", "index": 0, "item": {} }}"#, member("1", "anna", "offline")));
    assert!(apply_member_op(&mut window, &update, &mut learned));
    assert_eq!(window[0].at("away").flag(), Some(true));

    let delete = json(r#"{ "op": "DELETE", "index": 1 }"#);
    assert!(apply_member_op(&mut window, &delete, &mut learned));
    assert_eq!(nicks(&window), ["anna", "bob"]);
}

#[test]
fn an_op_that_does_not_fit_changes_nothing() {
    let mut learned: Vec<Learned> = Vec::new();
    let mut window: Vec<Json> = Vec::new();

    let header = json(r#"{ "op": "INSERT", "index": 0, "item": { "group": { "id": "online", "count": 4 } } }"#);
    assert!(!apply_member_op(&mut window, &header, &mut learned));
    assert!(window.is_empty());

    let past_end = json(r#"{ "op": "DELETE", "index": 7 }"#);
    assert!(!apply_member_op(&mut window, &past_end, &mut learned));

    let invalidate = json(r#"{ "op": "INVALIDATE", "range": [0, 99] }"#);
    assert!(!apply_member_op(&mut window, &invalidate, &mut learned));
}

#[test]
fn whoever_is_listed_is_learned_of() {
    let (row, learned) = member_entry(&json(&member("1", "anna", "online"))).expect("a member");
    assert_eq!(row.at("nick").text(), Some("anna"));
    assert_eq!(row.at("userId").text(), Some("1"));
    assert_eq!(learned.user_id, "1");
    assert_eq!(learned.name, "anna");
    assert!(member_entry(&json(r#"{ "group": { "id": "online" } }"#)).is_none());
}

#[test]
fn a_list_is_shown_in_order() {
    let mut window = Vec::new();
    let d = json(&format!(
        r#"{{ "ops": [{{ "op": "SYNC", "range": [0, 99], "items": [{}, {}] }}] }}"#,
        member("2", "bob", "online"),
        member("1", "Anna", "online")
    ));
    let update = update_member_list(&mut window, &d);
    // Held in the order of the service, shown in the order of the names.
    assert_eq!(nicks(&window), ["bob", "Anna"]);
    assert_eq!(nicks(&update.shown.expect("something changed")), ["Anna", "bob"]);
    assert_eq!(update.learned.len(), 2);
    let again = update_member_list(&mut window, &json(r#"{ "ops": [{ "op": "INVALIDATE", "range": [0, 99] }] }"#));
    assert!(again.shown.is_none());
    assert_eq!(sort_rows(&vec![], true).len(), 0);
}

#[test]
fn presences_are_read_and_shown() {
    let presences = read_presences(&json(
        r#"[{ "user": { "id": "5" }, "status": "dnd" }, { "user_id": "6", "status": "idle" }, { "status": "x" }]"#,
    ));
    assert_eq!(presences.get("5").map(|s| s.as_str()), Some("dnd"));
    let channel = json(r#"{ "recipients": [{ "id": "5", "username": "alice" }, { "id": "9", "username": "bob" }] }"#);
    let rows = set_dm_presence(&channel, &presences);
    assert_eq!(rows.len(), 2);
    assert_eq!(nicks(&rows), ["alice", "bob"]);
    let roster = json(r#"[{ "userId": "5", "nick": "alice", "status": "online", "away": false }]"#);
    let changed = update_presence_in_roster(&roster, "5", "idle").expect("a change");
    assert_eq!(changed.list_items().unwrap()[0].at("status").text(), Some("idle"));
    assert!(update_presence_in_roster(&roster, "7", "idle").is_none());
}

#[test]
fn a_status_is_told_as_idle_or_online() {
    assert_eq!(presence_payload("idle").at("afk").flag(), Some(true));
    assert_eq!(presence_payload("dnd").at("status").text(), Some("online"));
    let update = status_update("idle");
    assert_eq!(update.at("op").as_u64(), Some(3));
    assert_eq!(update.at("d").at("status").text(), Some("idle"));
    assert!(request_member_list(Some("1"), None).is_none());
    assert_eq!(request_member_list(Some("1"), Some("2")).unwrap().at("op").as_u64(), Some(14));
}
