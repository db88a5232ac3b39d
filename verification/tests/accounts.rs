//! Accounts, what is kept of them and how they are listed.
use nobilis::accounts::config::{
    Cookie, DiscordAccountConfig, IrcAccountConfig, KickAccountConfig, MatrixAccountConfig, SneedChatAccountConfig,
};
use nobilis::accounts::listing::{
    discord_account_to_json, irc_account_to_json, kick_account_to_json, matrix_account_to_json,
};
use nobilis::accounts::store::{AccountStore, AccountsFile, SaslChange};

fn store() -> AccountStore {
    AccountStore::open(AccountsFile { irc: vec![], discord: vec![], sneedchat: vec![], matrix: vec![], kick: vec![] })
}

#[test]
fn every_service_can_be_renamed_locally() {
    let mut store = store();
    store.add_kick(KickAccountConfig { username: "kotbarsik".into(), ..Default::default() });
    let kick = "kick:kotbarsik";
    assert!(store.set_display_name(kick, "You"));
    assert_eq!(store.display_name_override(kick).as_deref(), Some("You"));
    assert_eq!(kick_account_to_json(&store.get_kick(kick).unwrap(), "connected").display_name, "You");

    // And clearing it puts the service's own name back rather than
    // leaving an empty label.
    assert!(store.set_display_name(kick, ""));
    assert_eq!(store.display_name_override(kick), None);
    assert_eq!(kick_account_to_json(&store.get_kick(kick).unwrap(), "connected").display_name, "kotbarsik");
}

#[test]
fn renaming_something_that_is_not_there_says_so() {
    let mut store = store();
    assert!(!store.set_display_name("kick:nobody", "You"));
}

#[test]
fn the_other_services_are_renamed_too() {
    let mut store = store();
    store.add_irc(IrcAccountConfig { nick: "n".into(), host: "irc.example".into(), ..Default::default() });
    store.add_discord(DiscordAccountConfig { user_id: "5".into(), username: "d".into(), ..Default::default() });
    store.add_sneedchat(SneedChatAccountConfig { username: "s".into(), ..Default::default() });
    store.add_matrix(MatrixAccountConfig { user_id: "@m:example".into(), ..Default::default() });
    let ids = [
        store.all_irc()[0].account_id(),
        store.all_discord()[0].account_id(),
        store.all_sneedchat()[0].account_id(),
        store.all_matrix()[0].account_id(),
    ];
    for id in &ids {
        assert!(store.set_display_name(id, "You"), "{id}");
        assert_eq!(store.display_name_override(id).as_deref(), Some("You"), "{id}");
    }
    assert_eq!(irc_account_to_json(&store.get_irc(&ids[0]).unwrap(), "connected").display_name, "You");
    assert_eq!(discord_account_to_json(&store.get_discord(&ids[1]).unwrap(), "connected").display_name, "You");
    assert_eq!(matrix_account_to_json(&store.get_matrix(&ids[3]).unwrap(), "connected", true).display_name, "You");
}

#[test]
fn what_is_written_down_reads_back() {
    let mut store = store();
    store.add_discord(DiscordAccountConfig {
        user_id: "5".into(),
        username: "d".into(),
        token: "tok".into(),
        ..Default::default()
    });
    assert!(store.take_unsaved());
    assert!(!store.take_unsaved());
    let again = AccountStore::open(store.file());
    assert_eq!(again.get_discord("discord:5"), store.get_discord("discord:5"));
    assert_eq!(again.get_discord("discord:5").unwrap().token, "tok");
    assert!(again.get_discord("discord:6").is_none());
}

#[test]
fn an_account_can_be_taken_out() {
    let mut store = store();
    store.add_kick(KickAccountConfig { username: "a".into(), ..Default::default() });
    assert!(store.remove("kick:a"));
    assert!(!store.remove("kick:a"));
    assert!(store.get_kick("kick:a").is_none());
}

#[test]
fn settings_go_to_the_account_they_are_for() {
    let mut store = store();
    store.add_irc(IrcAccountConfig { nick: "n".into(), host: "irc.example".into(), ..Default::default() });
    let id = store.all_irc()[0].account_id();
    assert!(store.set_autojoin(&id, "#a,#b"));
    assert!(store.set_nickserv_password(&id, "SECRET-REDACTED"));
    assert!(store.set_irc_realname(&id, "Real"));
    assert!(store.set_sasl(
        &id,
        SaslChange {
            enabled: true,
            user: "u",
            password: "SECRET-REDACTED",
            allow_plaintext: false,
            mechanism: Some("PLAIN"),
            cert_path: None,
            cert_pass: None,
        }
    ));
    let irc = store.get_irc(&id).unwrap();
    assert_eq!(irc.autojoin, "#a,#b");
    assert_eq!(irc.realname.as_deref(), Some("Real"));
    assert!(irc.sasl);
    assert!(irc_account_to_json(&irc, "connected").sasl_enabled);
    assert!(!store.set_autojoin("irc:nobody", "#a"));

    store.add_sneedchat(SneedChatAccountConfig { username: "s".into(), ..Default::default() });
    let chat = store.all_sneedchat()[0].account_id();
    assert!(store.set_sneedchat_cookies(&chat, vec![Cookie { name: "a".into(), value: "b".into() }]));
    assert!(store.set_sneedchat_user_id(&chat, 9));
    assert_eq!(store.get_sneedchat(&chat).unwrap().user_id, Some(9));

    store.add_matrix(MatrixAccountConfig { user_id: "@m:example".into(), ..Default::default() });
    let matrix = store.all_matrix()[0].account_id();
    assert!(store.set_matrix_session(&matrix, "at", "dev"));
    assert!(store.set_matrix_next_batch(&matrix, "s1"));
    assert_eq!(store.get_matrix(&matrix).unwrap().next_batch.as_deref(), Some("s1"));
}

#[test]
fn signing_in_again_keeps_the_name_somebody_chose() {
    let mut store = store();
    let config = || DiscordAccountConfig { user_id: "5".into(), username: "d".into(), ..Default::default() };
    store.add_discord(config());
    store.set_display_name("discord:5", "You");
    store.add_discord(DiscordAccountConfig { token: "new".into(), ..config() });
    assert_eq!(store.get_discord("discord:5").unwrap().token, "new");
}
