//! Accounts as they are listed: one shape for every service.
use vstd::prelude::*;
use crate::text::{lend, maybe, own, texts, views};
use super::config::{DiscordAccountConfig, DiscordAccountV, IrcAccountConfig, IrcAccountV, KickAccountConfig, KickAccountV, MatrixAccountConfig, MatrixAccountV, SneedChatAccountConfig, SneedChatAccountV, SneedChatRoom, SneedChatRoomV, copy_rooms};

verus! {

/// An account as it is listed. What a service does not have is left at its zero value.
#[derive(Debug, PartialEq, Eq)]
pub struct Account {
    pub id: String,
    pub service: String,
    pub status: String,
    pub display_name: String,
    /// How its connection fares.
    pub state: String,
    pub autojoin: String,
    pub has_nickserv_password: bool,
    pub sasl_enabled: bool,
    pub sasl_username: String,
    pub allow_plaintext_sasl: bool,
    pub sasl_mechanism: String,
    pub has_sasl_certificate: bool,
    /// Filled in by whoever can see the connection.
    pub current_nick: String,
    /// Filled in by whoever keeps them.
    pub highlight_keywords: Vec<String>,
    pub ssl: bool,
    pub has_password: bool,
    pub avatar_url: Option<String>,
    pub sneedchat_rooms: Vec<SneedChatRoom>,
    pub tor_mode: Option<String>,
    pub tor_proxy: Option<String>,
    pub use_tor: bool,
    pub has_key_backup: bool,
    pub rtc_focus_url: Option<String>,
    pub sliding_sync: bool,
}

pub struct AccountV {
    pub id: Seq<char>,
    pub service: Seq<char>,
    pub status: Seq<char>,
    pub display_name: Seq<char>,
    pub state: Seq<char>,
    pub autojoin: Seq<char>,
    pub has_nickserv_password: bool,
    pub sasl_enabled: bool,
    pub sasl_username: Seq<char>,
    pub allow_plaintext_sasl: bool,
    pub sasl_mechanism: Seq<char>,
    pub has_sasl_certificate: bool,
    pub current_nick: Seq<char>,
    pub highlight_keywords: Seq<Seq<char>>,
    pub ssl: bool,
    pub has_password: bool,
    pub avatar_url: Option<Seq<char>>,
    pub sneedchat_rooms: Seq<SneedChatRoomV>,
    pub tor_mode: Option<Seq<char>>,
    pub tor_proxy: Option<Seq<char>>,
    pub use_tor: bool,
    pub has_key_backup: bool,
    pub rtc_focus_url: Option<Seq<char>>,
    pub sliding_sync: bool,
}

impl View for Account {
    type V = AccountV;

    open spec fn view(&self) -> AccountV {
        AccountV {
            id: self.id@,
            service: self.service@,
            status: self.status@,
            display_name: self.display_name@,
            state: self.state@,
            autojoin: self.autojoin@,
            has_nickserv_password: self.has_nickserv_password,
            sasl_enabled: self.sasl_enabled,
            sasl_username: self.sasl_username@,
            allow_plaintext_sasl: self.allow_plaintext_sasl,
            sasl_mechanism: self.sasl_mechanism@,
            has_sasl_certificate: self.has_sasl_certificate,
            current_nick: self.current_nick@,
            highlight_keywords: texts(self.highlight_keywords@),
            ssl: self.ssl,
            has_password: self.has_password,
            avatar_url: maybe(self.avatar_url),
            sneedchat_rooms: views(self.sneedchat_rooms@),
            tor_mode: maybe(self.tor_mode),
            tor_proxy: maybe(self.tor_proxy),
            use_tor: self.use_tor,
            has_key_backup: self.has_key_backup,
            rtc_focus_url: maybe(self.rtc_focus_url),
            sliding_sync: self.sliding_sync,
        }
    }
}

/// An account with nothing said of it but which it is, of which service, what it is called and how
/// its connection fares.
pub open spec fn bare_account(
    id: Seq<char>,
    service: Seq<char>,
    display_name: Seq<char>,
    state: Seq<char>,
) -> AccountV {
    AccountV {
        id,
        service,
        status: "online"@,
        display_name,
        state,
        autojoin: Seq::empty(),
        has_nickserv_password: false,
        sasl_enabled: false,
        sasl_username: Seq::empty(),
        allow_plaintext_sasl: false,
        sasl_mechanism: Seq::empty(),
        has_sasl_certificate: false,
        current_nick: Seq::empty(),
        highlight_keywords: Seq::empty(),
        ssl: true,
        has_password: false,
        avatar_url: None,
        sneedchat_rooms: Seq::empty(),
        tor_mode: None,
        tor_proxy: None,
        use_tor: false,
        has_key_backup: false,
        rtc_focus_url: None,
        sliding_sync: false,
    }
}

fn list_bare(id: String, service: &str, display_name: String, state: &str) -> (r: Account)
    ensures
        r@ == bare_account(id@, service@, display_name@, state@),
{
    let r = Account {
        id,
        service: service.to_owned(),
        status: "online".to_owned(),
        display_name,
        state: state.to_owned(),
        autojoin: String::new(),
        has_nickserv_password: false,
        sasl_enabled: false,
        sasl_username: String::new(),
        allow_plaintext_sasl: false,
        sasl_mechanism: String::new(),
        has_sasl_certificate: false,
        current_nick: String::new(),
        highlight_keywords: Vec::new(),
        ssl: true,
        has_password: false,
        avatar_url: None,
        sneedchat_rooms: Vec::new(),
        tor_mode: None,
        tor_proxy: None,
        use_tor: false,
        has_key_backup: false,
        rtc_focus_url: None,
        sliding_sync: false,
    };
    assert(r@.autojoin =~= Seq::empty());
    assert(r@.sasl_username =~= Seq::empty());
    assert(r@.sasl_mechanism =~= Seq::empty());
    assert(r@.current_nick =~= Seq::empty());
    assert(r@.highlight_keywords =~= Seq::empty());
    assert(r@.sneedchat_rooms =~= Seq::empty());
    r
}

/// The name that was given here, or else the service's own.
pub open spec fn shown_name(given: Option<Seq<char>>, other: Seq<char>) -> Seq<char> {
    match given {
        Some(name) => if name.len() > 0 {
            name
        } else {
            other
        },
        None => other,
    }
}

fn name_shown(given: &Option<String>, other: &str) -> (r: String)
    ensures
        r@ == shown_name(maybe(*given), other@),
{
    match given {
        Some(name) => if name.as_str().is_empty() {
            other.to_owned()
        } else {
            name.clone()
        },
        None => other.to_owned(),
    }
}

/// Whether there is a text that is not empty.
pub open spec fn is_given(text: Option<Seq<char>>) -> bool {
    text is Some && text->0.len() > 0
}

fn given(text: &Option<String>) -> (r: bool)
    ensures
        r == is_given(maybe(*text)),
{
    match text {
        Some(t) => !t.as_str().is_empty(),
        None => false,
    }
}

/// A text, empty where there is none.
pub open spec fn text_or_none(text: Option<Seq<char>>) -> Seq<char> {
    match text {
        Some(t) => t,
        None => Seq::empty(),
    }
}

fn or_empty(text: &Option<String>) -> (r: String)
    ensures
        r@ == text_or_none(maybe(*text)),
{
    match text {
        Some(t) => t.clone(),
        None => {
            let r = String::new();
            assert(r@ =~= Seq::empty());
            r
        },
    }
}

/// An IRC account as it is listed.
pub open spec fn irc_listed(a: IrcAccountV, state: Seq<char>) -> AccountV {
    AccountV {
        autojoin: a.autojoin,
        has_nickserv_password: a.nickserv_password is Some,
        sasl_enabled: a.sasl,
        sasl_username: text_or_none(a.sasl_user),
        allow_plaintext_sasl: a.allow_plaintext_sasl,
        sasl_mechanism: text_or_none(a.sasl_mechanism),
        has_sasl_certificate: is_given(a.sasl_cert_path),
        ssl: a.ssl,
        has_password: is_given(a.password),
        tor_proxy: a.tor_proxy,
        use_tor: a.use_tor,
        ..bare_account(a.account_id(), "irc"@, shown_name(a.display_name, a.account_id()), state)
    }
}

pub fn irc_account_to_json(a: &IrcAccountConfig, state: &str) -> (r: Account)
    ensures
        r@ == irc_listed(a@, state@),
{
    let id = a.account_id();
    let name = name_shown(&a.display_name, id.as_str());
    let mut r = list_bare(id, "irc", name, state);
    r.autojoin = a.autojoin.clone();
    r.has_nickserv_password = a.nickserv_password.is_some();
    r.sasl_enabled = a.sasl;
    r.sasl_username = or_empty(&a.sasl_user);
    r.allow_plaintext_sasl = a.allow_plaintext_sasl;
    r.sasl_mechanism = or_empty(&a.sasl_mechanism);
    r.has_sasl_certificate = given(&a.sasl_cert_path);
    r.ssl = a.ssl;
    r.has_password = given(&a.password);
    r.tor_proxy = own(lend(&a.tor_proxy));
    r.use_tor = a.use_tor;
    r
}

/// A Discord account as it is listed: a token counts as its password.
pub open spec fn discord_listed(a: DiscordAccountV, state: Seq<char>) -> AccountV {
    AccountV {
        has_password: a.token.len() > 0,
        avatar_url: a.avatar_url,
        ..bare_account(a.account_id(), "discord"@, shown_name(a.display_name, a.username), state)
    }
}

pub fn discord_account_to_json(a: &DiscordAccountConfig, state: &str) -> (r: Account)
    ensures
        r@ == discord_listed(a@, state@),
{
    let name = name_shown(&a.display_name, a.username.as_str());
    let mut r = list_bare(a.account_id(), "discord", name, state);
    r.has_password = !a.token.as_str().is_empty();
    r.avatar_url = own(lend(&a.avatar_url));
    r
}

/// A Sneedchat account as it is listed.
pub open spec fn sneedchat_listed(a: SneedChatAccountV, state: Seq<char>) -> AccountV {
    AccountV {
        has_password: a.password.len() > 0,
        sneedchat_rooms: a.rooms,
        tor_mode: Some(a.tor_mode),
        tor_proxy: a.proxy,
        ..bare_account(a.account_id(), "sneedchat"@, shown_name(a.display_name, a.username), state)
    }
}

pub fn sneedchat_account_to_json(a: &SneedChatAccountConfig, state: &str) -> (r: Account)
    ensures
        r@ == sneedchat_listed(a@, state@),
{
    let name = name_shown(&a.display_name, a.username.as_str());
    let mut r = list_bare(a.account_id(), "sneedchat", name, state);
    r.has_password = !a.password.as_str().is_empty();
    r.sneedchat_rooms = copy_rooms(&a.rooms);
    r.tor_mode = Some(a.tor_mode.clone());
    r.tor_proxy = own(lend(&a.proxy));
    r
}

/// A Kick account as it is listed: whether it has a password says whether it is signed in.
pub open spec fn kick_listed(a: KickAccountV, state: Seq<char>) -> AccountV {
    AccountV {
        has_password: is_given(a.token),
        ..bare_account(a.account_id(), "kick"@, shown_name(a.display_name, a.username), state)
    }
}

pub fn kick_account_to_json(a: &KickAccountConfig, state: &str) -> (r: Account)
    ensures
        r@ == kick_listed(a@, state@),
{
    let name = name_shown(&a.display_name, a.username.as_str());
    let mut r = list_bare(a.account_id(), "kick", name, state);
    r.has_password = given(&a.token);
    r
}

/// A Matrix account as it is listed.
pub open spec fn matrix_listed(a: MatrixAccountV, state: Seq<char>, has_key_backup: bool) -> AccountV {
    AccountV {
        has_password: a.password.len() > 0,
        has_key_backup,
        rtc_focus_url: a.rtc_focus_url,
        sliding_sync: a.prefer_sliding_sync,
        ..bare_account(a.account_id(), "matrix"@, shown_name(a.display_name, a.user_id), state)
    }
}

pub fn matrix_account_to_json(a: &MatrixAccountConfig, state: &str, has_key_backup: bool) -> (r: Account)
    ensures
        r@ == matrix_listed(a@, state@, has_key_backup),
{
    let name = name_shown(&a.display_name, a.user_id.as_str());
    let mut r = list_bare(a.account_id(), "matrix", name, state);
    r.has_password = !a.password.as_str().is_empty();
    r.has_key_backup = has_key_backup;
    r.rtc_focus_url = own(lend(&a.rtc_focus_url));
    r.sliding_sync = a.prefer_sliding_sync;
    r
}

/// A listed account always has a label: the name given here, else the service's own.
pub proof fn law_a_cleared_name_falls_back(given: Option<Seq<char>>, other: Seq<char>)
    ensures
        !is_given(given) ==> shown_name(given, other) == other,
        is_given(given) ==> shown_name(given, other) == given->0,
{
}

/// An IRC account is listed with its settings, by the name given here or else by what it is known by; of
/// its secrets it is only said whether there are any.
pub proof fn law_an_irc_account_is_listed(a: IrcAccountV, state: Seq<char>)
    ensures
        ({
            let r = irc_listed(a, state);
            &&& r.id == a.account_id()
            &&& r.service == "irc"@
            &&& r.state == state
            &&& r.status == "online"@
            &&& a.display_name is Some && a.display_name->0.len() > 0 ==> r.display_name
                == a.display_name->0
            &&& !(a.display_name is Some && a.display_name->0.len() > 0) ==> r.display_name
                == a.account_id()
            &&& r.autojoin == a.autojoin
            &&& r.has_nickserv_password == (a.nickserv_password is Some)
            &&& r.sasl_enabled == a.sasl
            &&& a.sasl_user is Some ==> r.sasl_username == a.sasl_user->0
            &&& a.sasl_user is None ==> r.sasl_username.len() == 0
            &&& r.allow_plaintext_sasl == a.allow_plaintext_sasl
            &&& a.sasl_mechanism is Some ==> r.sasl_mechanism == a.sasl_mechanism->0
            &&& r.has_sasl_certificate == (a.sasl_cert_path is Some && a.sasl_cert_path->0.len()
                > 0)
            &&& r.ssl == a.ssl
            &&& r.has_password == (a.password is Some && a.password->0.len() > 0)
            &&& r.tor_proxy == a.tor_proxy && r.use_tor == a.use_tor
            &&& r.avatar_url is None && r.tor_mode is None && !r.has_key_backup
        }),
{
}

/// A Discord account is listed with its picture, by the name given here or else by its own, and has a
/// password where it has a token.
pub proof fn law_a_discord_account_is_listed(a: DiscordAccountV, state: Seq<char>)
    ensures
        ({
            let r = discord_listed(a, state);
            &&& r.id == a.account_id()
            &&& r.service == "discord"@
            &&& r.state == state
            &&& r.status == "online"@
            &&& a.display_name is Some && a.display_name->0.len() > 0 ==> r.display_name
                == a.display_name->0
            &&& !(a.display_name is Some && a.display_name->0.len() > 0) ==> r.display_name
                == a.username
            &&& r.has_password == (a.token.len() > 0)
            &&& r.avatar_url == a.avatar_url
            &&& !r.sasl_enabled && !r.has_nickserv_password && r.ssl && !r.use_tor
        }),
{
}

/// A Sneedchat account is listed with its rooms and the way it is reached.
pub proof fn law_a_sneedchat_account_is_listed(a: SneedChatAccountV, state: Seq<char>)
    ensures
        ({
            let r = sneedchat_listed(a, state);
            &&& r.id == a.account_id()
            &&& r.service == "sneedchat"@
            &&& r.state == state
            &&& r.status == "online"@
            &&& a.display_name is Some && a.display_name->0.len() > 0 ==> r.display_name
                == a.display_name->0
            &&& !(a.display_name is Some && a.display_name->0.len() > 0) ==> r.display_name
                == a.username
            &&& r.has_password == (a.password.len() > 0)
            &&& r.sneedchat_rooms == a.rooms
            &&& r.tor_mode == Some(a.tor_mode)
            &&& r.tor_proxy == a.proxy
        }),
{
}

/// A Kick account is listed as having a password where it is signed in.
pub proof fn law_a_kick_account_is_listed(a: KickAccountV, state: Seq<char>)
    ensures
        ({
            let r = kick_listed(a, state);
            &&& r.id == a.account_id()
            &&& r.service == "kick"@
            &&& r.state == state
            &&& r.status == "online"@
            &&& a.display_name is Some && a.display_name->0.len() > 0 ==> r.display_name
                == a.display_name->0
            &&& !(a.display_name is Some && a.display_name->0.len() > 0) ==> r.display_name
                == a.username
            &&& r.has_password == (a.token is Some && a.token->0.len() > 0)
        }),
{
}

/// A Matrix account is listed with where it holds its calls, how it syncs, and whether its keys are
/// backed up.
pub proof fn law_a_matrix_account_is_listed(
    a: MatrixAccountV,
    state: Seq<char>,
    has_key_backup: bool,
)
    ensures
        ({
            let r = matrix_listed(a, state, has_key_backup);
            &&& r.id == a.account_id()
            &&& r.service == "matrix"@
            &&& r.state == state
            &&& r.status == "online"@
            &&& a.display_name is Some && a.display_name->0.len() > 0 ==> r.display_name
                == a.display_name->0
            &&& !(a.display_name is Some && a.display_name->0.len() > 0) ==> r.display_name
                == a.user_id
            &&& r.has_password == (a.password.len() > 0)
            &&& r.has_key_backup == has_key_backup
            &&& r.rtc_focus_url == a.rtc_focus_url
            &&& r.sliding_sync == a.prefer_sliding_sync
        }),
{
}

/// A bare account is known by what is given, is online and encrypted, and has nothing else: no secret of
/// any kind, no room, no picture and no way round.
pub proof fn law_a_bare_account_has_nothing_else(
    id: Seq<char>,
    service: Seq<char>,
    display_name: Seq<char>,
    state: Seq<char>,
)
    ensures
        ({
            let r = bare_account(id, service, display_name, state);
            &&& r.id == id && r.service == service
            &&& r.display_name == display_name && r.state == state
            &&& r.status == "online"@ && r.ssl
            &&& !r.has_password && !r.has_nickserv_password && !r.has_sasl_certificate
            &&& !r.has_key_backup && !r.sasl_enabled && !r.allow_plaintext_sasl
            &&& !r.use_tor && !r.sliding_sync
            &&& r.autojoin.len() == 0 && r.sasl_username.len() == 0
            &&& r.sasl_mechanism.len() == 0 && r.current_nick.len() == 0
            &&& r.highlight_keywords.len() == 0 && r.sneedchat_rooms.len() == 0
            &&& r.avatar_url is None && r.tor_mode is None && r.tor_proxy is None
            &&& r.rtc_focus_url is None
        }),
{
}

} // verus!
