//! What is kept of each account, service by service.
use vstd::prelude::*;
use crate::text::{copy_texts, lend, maybe, own, same, texts, views};

verus! {

/// A room of Sneedchat, by its number and its name.
#[derive(Debug, PartialEq, Eq)]
pub struct SneedChatRoom {
    pub id: u32,
    pub name: String,
}

pub struct SneedChatRoomV {
    pub id: u32,
    pub name: Seq<char>,
}

impl View for SneedChatRoom {
    type V = SneedChatRoomV;

    open spec fn view(&self) -> SneedChatRoomV {
        SneedChatRoomV { id: self.id, name: self.name@ }
    }
}

pub fn copy_rooms(rooms: &Vec<SneedChatRoom>) -> (r: Vec<SneedChatRoom>)
    ensures
        views(r@) == views(rooms@),
{
    let mut out: Vec<SneedChatRoom> = Vec::new();
    let mut i: usize = 0;
    while i < rooms.len()
        invariant
            i <= rooms.len(),
            out.len() == i,
            forall|j: int| 0 <= j < i ==> (#[trigger] out@[j])@ == rooms@[j]@,
        decreases rooms.len() - i,
    {
        out.push(SneedChatRoom { id: rooms[i].id, name: rooms[i].name.clone() });
        i += 1;
    }
    assert(views(out@) =~= views(rooms@));
    out
}

/// A cookie of a session.
#[derive(Debug, PartialEq, Eq)]
pub struct Cookie {
    pub name: String,
    pub value: String,
}

pub struct CookieV {
    pub name: Seq<char>,
    pub value: Seq<char>,
}

impl View for Cookie {
    type V = CookieV;

    open spec fn view(&self) -> CookieV {
        CookieV { name: self.name@, value: self.value@ }
    }
}

pub fn copy_cookies(cookies: &Vec<Cookie>) -> (r: Vec<Cookie>)
    ensures
        views(r@) == views(cookies@),
{
    let mut out: Vec<Cookie> = Vec::new();
    let mut i: usize = 0;
    while i < cookies.len()
        invariant
            i <= cookies.len(),
            out.len() == i,
            forall|j: int| 0 <= j < i ==> (#[trigger] out@[j])@ == cookies@[j]@,
        decreases cookies.len() - i,
    {
        out.push(Cookie { name: cookies[i].name.clone(), value: cookies[i].value.clone() });
        i += 1;
    }
    assert(views(out@) =~= views(cookies@));
    out
}

/// Whether two lists of cookies are the same.
pub fn same_cookies(a: &Vec<Cookie>, b: &Vec<Cookie>) -> (r: bool)
    ensures
        r == (views(a@) == views(b@)),
{
    if a.len() != b.len() {
        assert(views(a@).len() != views(b@).len());
        return false;
    }
    let mut i: usize = 0;
    while i < a.len()
        invariant
            a.len() == b.len(),
            i <= a.len(),
            forall|j: int| 0 <= j < i ==> (#[trigger] a@[j])@ == b@[j]@,
        decreases a.len() - i,
    {
        if !same(a[i].name.as_str(), b[i].name.as_str()) || !same(
            a[i].value.as_str(),
            b[i].value.as_str(),
        ) {
            assert(views(a@)[i as int] != views(b@)[i as int]);
            return false;
        }
        i += 1;
    }
    assert(views(a@) =~= views(b@));
    true
}

/// Whether two lists of texts are the same.
pub fn same_texts(a: &Vec<String>, b: &Vec<String>) -> (r: bool)
    ensures
        r == (texts(a@) == texts(b@)),
{
    if a.len() != b.len() {
        assert(texts(a@).len() != texts(b@).len());
        return false;
    }
    let mut i: usize = 0;
    while i < a.len()
        invariant
            a.len() == b.len(),
            i <= a.len(),
            forall|j: int| 0 <= j < i ==> (#[trigger] a@[j])@ == b@[j]@,
        decreases a.len() - i,
    {
        if !same(a[i].as_str(), b[i].as_str()) {
            assert(texts(a@)[i as int] != texts(b@)[i as int]);
            return false;
        }
        i += 1;
    }
    assert(texts(a@) =~= texts(b@));
    true
}

/// An account on an IRC network.
#[derive(Debug, PartialEq, Eq)]
pub struct IrcAccountConfig {
    pub nick: String,
    pub host: String,
    pub port: Option<u16>,
    pub ssl: bool,
    pub sasl: bool,
    pub sasl_user: Option<String>,
    pub password: Option<String>,
    pub realname: Option<String>,
    pub username: Option<String>,
    pub quit_message: Option<String>,
    /// Which SASL mechanism to use; without one, the strongest that this account is equipped for.
    pub sasl_mechanism: Option<String>,
    /// A client certificate, which stands for a password.
    pub sasl_cert_path: Option<String>,
    pub sasl_cert_pass: Option<String>,
    pub allow_plaintext_sasl: bool,
    /// The channels to join, separated by commas.
    pub autojoin: String,
    /// The nicks to watch for, separated by commas.
    pub notify: String,
    pub nickserv_password: Option<String>,
    /// What to call this account here, and nowhere else.
    pub display_name: Option<String>,
    /// Whether to connect through a proxy.
    pub use_tor: bool,
    pub tor_proxy: Option<String>,
}

pub struct IrcAccountV {
    pub nick: Seq<char>,
    pub host: Seq<char>,
    pub port: Option<u16>,
    pub ssl: bool,
    pub sasl: bool,
    pub sasl_user: Option<Seq<char>>,
    pub password: Option<Seq<char>>,
    pub realname: Option<Seq<char>>,
    pub username: Option<Seq<char>>,
    pub quit_message: Option<Seq<char>>,
    pub sasl_mechanism: Option<Seq<char>>,
    pub sasl_cert_path: Option<Seq<char>>,
    pub sasl_cert_pass: Option<Seq<char>>,
    pub allow_plaintext_sasl: bool,
    pub autojoin: Seq<char>,
    pub notify: Seq<char>,
    pub nickserv_password: Option<Seq<char>>,
    pub display_name: Option<Seq<char>>,
    pub use_tor: bool,
    pub tor_proxy: Option<Seq<char>>,
}

impl View for IrcAccountConfig {
    type V = IrcAccountV;

    open spec fn view(&self) -> IrcAccountV {
        IrcAccountV {
            nick: self.nick@,
            host: self.host@,
            port: self.port,
            ssl: self.ssl,
            sasl: self.sasl,
            sasl_user: maybe(self.sasl_user),
            password: maybe(self.password),
            realname: maybe(self.realname),
            username: maybe(self.username),
            quit_message: maybe(self.quit_message),
            sasl_mechanism: maybe(self.sasl_mechanism),
            sasl_cert_path: maybe(self.sasl_cert_path),
            sasl_cert_pass: maybe(self.sasl_cert_pass),
            allow_plaintext_sasl: self.allow_plaintext_sasl,
            autojoin: self.autojoin@,
            notify: self.notify@,
            nickserv_password: maybe(self.nickserv_password),
            display_name: maybe(self.display_name),
            use_tor: self.use_tor,
            tor_proxy: maybe(self.tor_proxy),
        }
    }
}

impl IrcAccountV {
    /// What the account is known by.
    pub open spec fn account_id(self) -> Seq<char> {
        self.nick + "@"@ + self.host
    }
}

impl IrcAccountConfig {
    /// What the account is known by.
    pub fn account_id(&self) -> (r: String)
        ensures
            r@ == self@.account_id(),
    {
        self.nick.clone().concat("@").concat(self.host.as_str())
    }

    /// The same again.
    pub fn copy(&self) -> (r: IrcAccountConfig)
        ensures
            r@ == self@,
    {
        IrcAccountConfig {
            nick: self.nick.clone(),
            host: self.host.clone(),
            port: self.port,
            ssl: self.ssl,
            sasl: self.sasl,
            sasl_user: own(lend(&self.sasl_user)),
            password: own(lend(&self.password)),
            realname: own(lend(&self.realname)),
            username: own(lend(&self.username)),
            quit_message: own(lend(&self.quit_message)),
            sasl_mechanism: own(lend(&self.sasl_mechanism)),
            sasl_cert_path: own(lend(&self.sasl_cert_path)),
            sasl_cert_pass: own(lend(&self.sasl_cert_pass)),
            allow_plaintext_sasl: self.allow_plaintext_sasl,
            autojoin: self.autojoin.clone(),
            notify: self.notify.clone(),
            nickserv_password: own(lend(&self.nickserv_password)),
            display_name: own(lend(&self.display_name)),
            use_tor: self.use_tor,
            tor_proxy: own(lend(&self.tor_proxy)),
        }
    }
}

impl Default for IrcAccountConfig {
    fn default() -> (r: IrcAccountConfig)
        ensures
            r@ == (IrcAccountV {
                nick: Seq::empty(),
                host: Seq::empty(),
                port: None,
                ssl: false,
                sasl: false,
                sasl_user: None,
                password: None,
                realname: None,
                username: None,
                quit_message: None,
                sasl_mechanism: None,
                sasl_cert_path: None,
                sasl_cert_pass: None,
                allow_plaintext_sasl: false,
                autojoin: Seq::empty(),
                notify: Seq::empty(),
                nickserv_password: None,
                display_name: None,
                use_tor: false,
                tor_proxy: None,
            }),
    {
        let r = IrcAccountConfig {
            nick: String::new(),
            host: String::new(),
            port: None,
            ssl: false,
            sasl: false,
            sasl_user: None,
            password: None,
            realname: None,
            username: None,
            quit_message: None,
            sasl_mechanism: None,
            sasl_cert_path: None,
            sasl_cert_pass: None,
            allow_plaintext_sasl: false,
            autojoin: String::new(),
            notify: String::new(),
            nickserv_password: None,
            display_name: None,
            use_tor: false,
            tor_proxy: None,
        };
        assert(r@.nick =~= Seq::empty());
        assert(r@.host =~= Seq::empty());
        assert(r@.autojoin =~= Seq::empty());
        assert(r@.notify =~= Seq::empty());
        r
    }
}

/// An account on Discord.
#[derive(Debug, PartialEq, Eq)]
pub struct DiscordAccountConfig {
    pub user_id: String,
    pub username: String,
    /// What to call this account here, and nowhere else.
    pub display_name: Option<String>,
    pub token: String,
    pub avatar_url: Option<String>,
}

pub struct DiscordAccountV {
    pub user_id: Seq<char>,
    pub username: Seq<char>,
    pub display_name: Option<Seq<char>>,
    pub token: Seq<char>,
    pub avatar_url: Option<Seq<char>>,
}

impl View for DiscordAccountConfig {
    type V = DiscordAccountV;

    open spec fn view(&self) -> DiscordAccountV {
        DiscordAccountV {
            user_id: self.user_id@,
            username: self.username@,
            display_name: maybe(self.display_name),
            token: self.token@,
            avatar_url: maybe(self.avatar_url),
        }
    }
}

impl DiscordAccountV {
    /// What the account is known by.
    pub open spec fn account_id(self) -> Seq<char> {
        "discord:"@ + self.user_id
    }
}

impl DiscordAccountConfig {
    /// What the account is known by.
    pub fn account_id(&self) -> (r: String)
        ensures
            r@ == self@.account_id(),
    {
        "discord:".to_owned().concat(self.user_id.as_str())
    }

    /// The same again.
    pub fn copy(&self) -> (r: DiscordAccountConfig)
        ensures
            r@ == self@,
    {
        DiscordAccountConfig {
            user_id: self.user_id.clone(),
            username: self.username.clone(),
            display_name: own(lend(&self.display_name)),
            token: self.token.clone(),
            avatar_url: own(lend(&self.avatar_url)),
        }
    }
}

impl Default for DiscordAccountConfig {
    fn default() -> (r: DiscordAccountConfig)
        ensures
            r@ == (DiscordAccountV {
                user_id: Seq::empty(),
                username: Seq::empty(),
                display_name: None,
                token: Seq::empty(),
                avatar_url: None,
            }),
    {
        let r = DiscordAccountConfig {
            user_id: String::new(),
            username: String::new(),
            display_name: None,
            token: String::new(),
            avatar_url: None,
        };
        assert(r@.user_id =~= Seq::empty());
        assert(r@.username =~= Seq::empty());
        assert(r@.token =~= Seq::empty());
        r
    }
}

/// An account on Sneedchat.
#[derive(Debug, PartialEq, Eq)]
pub struct SneedChatAccountConfig {
    pub username: String,
    pub password: String,
    pub totp_secret: Option<String>,
    pub host: String,
    pub tor_mode: String,
    pub proxy: Option<String>,
    /// The rooms to stay connected to.
    pub rooms: Vec<SneedChatRoom>,
    /// What to call this account here, and nowhere else.
    pub display_name: Option<String>,
    pub user_id: Option<u32>,
    /// A session that a browser signed in.
    pub cookies: Vec<Cookie>,
}

pub struct SneedChatAccountV {
    pub username: Seq<char>,
    pub password: Seq<char>,
    pub totp_secret: Option<Seq<char>>,
    pub host: Seq<char>,
    pub tor_mode: Seq<char>,
    pub proxy: Option<Seq<char>>,
    pub rooms: Seq<SneedChatRoomV>,
    pub display_name: Option<Seq<char>>,
    pub user_id: Option<u32>,
    pub cookies: Seq<CookieV>,
}

impl View for SneedChatAccountConfig {
    type V = SneedChatAccountV;

    open spec fn view(&self) -> SneedChatAccountV {
        SneedChatAccountV {
            username: self.username@,
            password: self.password@,
            totp_secret: maybe(self.totp_secret),
            host: self.host@,
            tor_mode: self.tor_mode@,
            proxy: maybe(self.proxy),
            rooms: views(self.rooms@),
            display_name: maybe(self.display_name),
            user_id: self.user_id,
            cookies: views(self.cookies@),
        }
    }
}

impl SneedChatAccountV {
    /// What the account is known by.
    pub open spec fn account_id(self) -> Seq<char> {
        "sneedchat:"@ + self.username
    }
}

impl SneedChatAccountConfig {
    /// What the account is known by.
    pub fn account_id(&self) -> (r: String)
        ensures
            r@ == self@.account_id(),
    {
        "sneedchat:".to_owned().concat(self.username.as_str())
    }

    /// The same again.
    pub fn copy(&self) -> (r: SneedChatAccountConfig)
        ensures
            r@ == self@,
    {
        SneedChatAccountConfig {
            username: self.username.clone(),
            password: self.password.clone(),
            totp_secret: own(lend(&self.totp_secret)),
            host: self.host.clone(),
            tor_mode: self.tor_mode.clone(),
            proxy: own(lend(&self.proxy)),
            rooms: copy_rooms(&self.rooms),
            display_name: own(lend(&self.display_name)),
            user_id: self.user_id,
            cookies: copy_cookies(&self.cookies),
        }
    }
}

impl Default for SneedChatAccountConfig {
    fn default() -> (r: SneedChatAccountConfig)
        ensures
            r@ == (SneedChatAccountV {
                username: Seq::empty(),
                password: Seq::empty(),
                totp_secret: None,
                host: Seq::empty(),
                tor_mode: Seq::empty(),
                proxy: None,
                rooms: Seq::empty(),
                display_name: None,
                user_id: None,
                cookies: Seq::empty(),
            }),
    {
        let r = SneedChatAccountConfig {
            username: String::new(),
            password: String::new(),
            totp_secret: None,
            host: String::new(),
            tor_mode: String::new(),
            proxy: None,
            rooms: Vec::new(),
            display_name: None,
            user_id: None,
            cookies: Vec::new(),
        };
        assert(r@.username =~= Seq::empty());
        assert(r@.password =~= Seq::empty());
        assert(r@.host =~= Seq::empty());
        assert(r@.tor_mode =~= Seq::empty());
        assert(r@.rooms =~= Seq::empty());
        assert(r@.cookies =~= Seq::empty());
        r
    }
}

/// An account on Matrix.
#[derive(Debug, PartialEq, Eq)]
pub struct MatrixAccountConfig {
    pub homeserver_url: String,
    pub user_id: String,
    pub password: String,
    pub access_token: String,
    pub device_id: String,
    /// How far the last sync got.
    pub next_batch: Option<String>,
    /// Which kind of sync `next_batch` belongs to.
    pub used_sliding_sync: bool,
    /// Whether to use sliding sync where it is offered.
    pub prefer_sliding_sync: bool,
    /// What to call this account here, and nowhere else.
    pub display_name: Option<String>,
    /// A media server to hold calls on.
    pub rtc_focus_url: Option<String>,
}

pub struct MatrixAccountV {
    pub homeserver_url: Seq<char>,
    pub user_id: Seq<char>,
    pub password: Seq<char>,
    pub access_token: Seq<char>,
    pub device_id: Seq<char>,
    pub next_batch: Option<Seq<char>>,
    pub used_sliding_sync: bool,
    pub prefer_sliding_sync: bool,
    pub display_name: Option<Seq<char>>,
    pub rtc_focus_url: Option<Seq<char>>,
}

impl View for MatrixAccountConfig {
    type V = MatrixAccountV;

    open spec fn view(&self) -> MatrixAccountV {
        MatrixAccountV {
            homeserver_url: self.homeserver_url@,
            user_id: self.user_id@,
            password: self.password@,
            access_token: self.access_token@,
            device_id: self.device_id@,
            next_batch: maybe(self.next_batch),
            used_sliding_sync: self.used_sliding_sync,
            prefer_sliding_sync: self.prefer_sliding_sync,
            display_name: maybe(self.display_name),
            rtc_focus_url: maybe(self.rtc_focus_url),
        }
    }
}

impl MatrixAccountV {
    /// What the account is known by.
    pub open spec fn account_id(self) -> Seq<char> {
        "matrix:"@ + self.user_id
    }
}

impl MatrixAccountConfig {
    /// What the account is known by.
    pub fn account_id(&self) -> (r: String)
        ensures
            r@ == self@.account_id(),
    {
        "matrix:".to_owned().concat(self.user_id.as_str())
    }

    /// The same again.
    pub fn copy(&self) -> (r: MatrixAccountConfig)
        ensures
            r@ == self@,
    {
        MatrixAccountConfig {
            homeserver_url: self.homeserver_url.clone(),
            user_id: self.user_id.clone(),
            password: self.password.clone(),
            access_token: self.access_token.clone(),
            device_id: self.device_id.clone(),
            next_batch: own(lend(&self.next_batch)),
            used_sliding_sync: self.used_sliding_sync,
            prefer_sliding_sync: self.prefer_sliding_sync,
            display_name: own(lend(&self.display_name)),
            rtc_focus_url: own(lend(&self.rtc_focus_url)),
        }
    }
}

impl Default for MatrixAccountConfig {
    fn default() -> (r: MatrixAccountConfig)
        ensures
            r@ == (MatrixAccountV {
                homeserver_url: Seq::empty(),
                user_id: Seq::empty(),
                password: Seq::empty(),
                access_token: Seq::empty(),
                device_id: Seq::empty(),
                next_batch: None,
                used_sliding_sync: false,
                prefer_sliding_sync: false,
                display_name: None,
                rtc_focus_url: None,
            }),
    {
        let r = MatrixAccountConfig {
            homeserver_url: String::new(),
            user_id: String::new(),
            password: String::new(),
            access_token: String::new(),
            device_id: String::new(),
            next_batch: None,
            used_sliding_sync: false,
            prefer_sliding_sync: false,
            display_name: None,
            rtc_focus_url: None,
        };
        assert(r@.homeserver_url =~= Seq::empty());
        assert(r@.user_id =~= Seq::empty());
        assert(r@.password =~= Seq::empty());
        assert(r@.access_token =~= Seq::empty());
        assert(r@.device_id =~= Seq::empty());
        r
    }
}

/// An account on Kick. Without a token it still reads every channel.
#[derive(Debug, PartialEq, Eq)]
pub struct KickAccountConfig {
    pub username: String,
    /// What to call this account here, and nowhere else.
    pub display_name: Option<String>,
    pub token: Option<String>,
    /// The streamers that it watches.
    pub channels: Vec<String>,
    /// Whether the follows have been read into `channels`, which happens once.
    pub followed_synced: bool,
}

pub struct KickAccountV {
    pub username: Seq<char>,
    pub display_name: Option<Seq<char>>,
    pub token: Option<Seq<char>>,
    pub channels: Seq<Seq<char>>,
    pub followed_synced: bool,
}

impl View for KickAccountConfig {
    type V = KickAccountV;

    open spec fn view(&self) -> KickAccountV {
        KickAccountV {
            username: self.username@,
            display_name: maybe(self.display_name),
            token: maybe(self.token),
            channels: texts(self.channels@),
            followed_synced: self.followed_synced,
        }
    }
}

impl KickAccountV {
    /// What the account is known by.
    pub open spec fn account_id(self) -> Seq<char> {
        "kick:"@ + self.username
    }
}

impl KickAccountConfig {
    /// What the account is known by.
    pub fn account_id(&self) -> (r: String)
        ensures
            r@ == self@.account_id(),
    {
        "kick:".to_owned().concat(self.username.as_str())
    }

    /// The same again.
    pub fn copy(&self) -> (r: KickAccountConfig)
        ensures
            r@ == self@,
    {
        KickAccountConfig {
            username: self.username.clone(),
            display_name: own(lend(&self.display_name)),
            token: own(lend(&self.token)),
            channels: copy_texts(&self.channels),
            followed_synced: self.followed_synced,
        }
    }
}

impl Default for KickAccountConfig {
    fn default() -> (r: KickAccountConfig)
        ensures
            r@ == (KickAccountV {
                username: Seq::empty(),
                display_name: None,
                token: None,
                channels: Seq::empty(),
                followed_synced: false,
            }),
    {
        let r = KickAccountConfig {
            username: String::new(),
            display_name: None,
            token: None,
            channels: Vec::new(),
            followed_synced: false,
        };
        assert(r@.username =~= Seq::empty());
        assert(r@.channels =~= Seq::empty());
        r
    }
}

/// A connection is encrypted unless its account says otherwise.
pub fn default_true() -> (r: bool)
    ensures
        r,
{
    true
}

/// How Sneedchat is reached unless its account says otherwise.
pub fn default_tor_mode() -> (r: String)
    ensures
        r@ == "embedded"@,
{
    "embedded".to_owned()
}

/// The rooms of an account that names none.
pub fn default_sneedchat_rooms() -> (r: Vec<SneedChatRoom>)
    ensures
        views(r@) == seq![SneedChatRoomV { id: 1, name: "general"@ }],
{
    let mut rooms: Vec<SneedChatRoom> = Vec::new();
    rooms.push(SneedChatRoom { id: 1, name: "general".to_owned() });
    assert(views(rooms@) =~= seq![SneedChatRoomV { id: 1, name: "general"@ }]);
    rooms
}

/// An account is known by who it is at its service: a nick by its network, and any other by the service
/// and the name that it goes by there, so that two of one service share an id only where these agree.
pub proof fn law_accounts_are_known_by_who_they_are(
    irc: IrcAccountV,
    a: DiscordAccountV,
    b: DiscordAccountV,
    sneedchat: SneedChatAccountV,
    matrix: MatrixAccountV,
    kick: KickAccountV,
)
    ensures
        irc.account_id() == irc.nick + "@"@ + irc.host,
        a.account_id() == "discord:"@ + a.user_id,
        sneedchat.account_id() == "sneedchat:"@ + sneedchat.username,
        matrix.account_id() == "matrix:"@ + matrix.user_id,
        kick.account_id() == "kick:"@ + kick.username,
        a.account_id() == b.account_id() <==> a.user_id == b.user_id,
{
    if a.account_id() == b.account_id() {
        let n = "discord:"@.len() as int;
        assert(("discord:"@ + a.user_id).skip(n) =~= a.user_id);
        assert(("discord:"@ + b.user_id).skip(n) =~= b.user_id);
    }
}

} // verus!
