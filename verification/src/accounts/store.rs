//! The accounts that are kept. What is kept in memory says when it has to be written down; writing
//! it is left to whoever owns the file.
use vstd::prelude::*;
use crate::text::{blank, is_blank, maybe, maybe_str, own, texts, trim, trimmed, views};
use crate::text_map::{TextMap, lemma_map_views_insert, map_views};
use super::config::{Cookie, DiscordAccountConfig, DiscordAccountV, IrcAccountConfig, IrcAccountV, KickAccountConfig, KickAccountV, MatrixAccountConfig, MatrixAccountV, SneedChatAccountConfig, SneedChatAccountV, SneedChatRoom, same_cookies, same_texts};

verus! {

/// What can be kept: it has an id of its own.
pub trait Kept: View + Sized {
    /// The id of what is kept.
    spec fn id_of(shown: Self::V) -> Seq<char>;

    fn key(&self) -> (r: String)
        ensures
            r@ == Self::id_of(self@),
    ;

    fn again(&self) -> (r: Self)
        ensures
            r@ == self@,
    ;
}

impl Kept for IrcAccountConfig {
    open spec fn id_of(shown: IrcAccountV) -> Seq<char> {
        shown.account_id()
    }

    fn key(&self) -> (r: String) {
        self.account_id()
    }

    fn again(&self) -> (r: IrcAccountConfig) {
        self.copy()
    }
}

impl Kept for DiscordAccountConfig {
    open spec fn id_of(shown: DiscordAccountV) -> Seq<char> {
        shown.account_id()
    }

    fn key(&self) -> (r: String) {
        self.account_id()
    }

    fn again(&self) -> (r: DiscordAccountConfig) {
        self.copy()
    }
}

impl Kept for SneedChatAccountConfig {
    open spec fn id_of(shown: SneedChatAccountV) -> Seq<char> {
        shown.account_id()
    }

    fn key(&self) -> (r: String) {
        self.account_id()
    }

    fn again(&self) -> (r: SneedChatAccountConfig) {
        self.copy()
    }
}

impl Kept for MatrixAccountConfig {
    open spec fn id_of(shown: MatrixAccountV) -> Seq<char> {
        shown.account_id()
    }

    fn key(&self) -> (r: String) {
        self.account_id()
    }

    fn again(&self) -> (r: MatrixAccountConfig) {
        self.copy()
    }
}

impl Kept for KickAccountConfig {
    open spec fn id_of(shown: KickAccountV) -> Seq<char> {
        shown.account_id()
    }

    fn key(&self) -> (r: String) {
        self.account_id()
    }

    fn again(&self) -> (r: KickAccountConfig) {
        self.copy()
    }
}

/// A list of accounts by their ids; of two with one id the later is kept.
pub open spec fn by_id<T: Kept>(list: Seq<T::V>) -> Map<Seq<char>, T::V>
    decreases list.len(),
{
    if list.len() == 0 {
        Map::empty()
    } else {
        by_id::<T>(list.drop_last()).insert(T::id_of(list.last()), list.last())
    }
}

/// Whether each account stands under its own id.
pub open spec fn under_own_ids<T: Kept>(map: Map<Seq<char>, T::V>) -> bool {
    forall|k: Seq<char>| #[trigger] map.contains_key(k) ==> T::id_of(map[k]) == k
}

/// Whether a list holds what a map holds, in this order of its keys.
pub open spec fn in_order<V>(list: Seq<V>, map: Map<Seq<char>, V>, order: Seq<Seq<char>>) -> bool {
    &&& order.no_duplicates()
    &&& list.len() == order.len()
    &&& forall|k: Seq<char>| #[trigger] map.contains_key(k) <==> order.contains(k)
    &&& forall|i: int| 0 <= i < order.len() ==> list[i] == map[#[trigger] order[i]]
}

/// Whether a list holds each thing that a map holds, once, in some order.
pub open spec fn lists<V>(list: Seq<V>, map: Map<Seq<char>, V>) -> bool {
    exists|order: Seq<Seq<char>>| in_order(list, map, order)
}

fn shelve<T: Kept>(list: Vec<T>) -> (r: TextMap<T>)
    ensures
        map_views(r@) == by_id::<T>(views(list@)),
        under_own_ids::<T>(map_views(r@)),
{
    let mut map: TextMap<T> = TextMap::new();
    let ghost all = views(list@);
    let mut i: usize = 0;
    assert(map_views(map@) =~= by_id::<T>(all.take(0)));
    while i < list.len()
        invariant
            i <= list.len(),
            all == views(list@),
            map_views(map@) == by_id::<T>(all.take(i as int)),
            under_own_ids::<T>(map_views(map@)),
        decreases list.len() - i,
    {
        let value = list[i].again();
        let key = value.key();
        let ghost before = map@;
        proof {
            lemma_map_views_insert(before, key@, value);
            assert(all.take(i + 1).drop_last() =~= all.take(i as int));
            assert(all.take(i + 1).last() == list@[i as int]@);
        }
        map.insert(key.as_str(), value);
        i += 1;
    }
    assert(all.take(i as int) =~= all);
    map
}

fn list_all<T: Kept>(map: &TextMap<T>) -> (r: Vec<T>)
    ensures
        lists(views(r@), map_views(map@)),
{
    let mut out: Vec<T> = Vec::new();
    let n: usize = map.len();
    let ghost order = map.order();
    let mut i: usize = 0;
    while i < n
        invariant
            i <= n,
            n == order.len(),
            order == map.order(),
            out.len() == i,
            forall|j: int| 0 <= j < i ==> (#[trigger] out@[j])@ == map@[order[j]]@,
        decreases n - i,
    {
        let value = map.value(i).again();
        out.push(value);
        i += 1;
    }
    proof {
        assert forall|j: int| 0 <= j < order.len() implies views(out@)[j] == map_views(
            map@,
        )[#[trigger] order[j]] by {
            assert(order.contains(order[j]));
            assert(map@.contains_key(order[j]));
        }
        assert(in_order(views(out@), map_views(map@), order));
    }
    out
}

proof fn lemma_lists_back<T: Kept>(
    list: Seq<T::V>,
    map: Map<Seq<char>, T::V>,
    order: Seq<Seq<char>>,
    n: int,
)
    requires
        in_order(list, map, order),
        under_own_ids::<T>(map),
        0 <= n <= list.len(),
    ensures
        forall|k: Seq<char>| #[trigger]
            by_id::<T>(list.take(n)).contains_key(k) <==> order.take(n).contains(k),
        forall|k: Seq<char>| #[trigger]
            by_id::<T>(list.take(n)).contains_key(k) ==> by_id::<T>(list.take(n))[k] == map[k],
    decreases n,
{
    if n > 0 {
        lemma_lists_back::<T>(list, map, order, n - 1);
        assert(list.take(n).drop_last() =~= list.take(n - 1));
        let key = order[n - 1];
        assert(order.contains(key));
        assert(map.contains_key(key));
        assert(T::id_of(list[n - 1]) == key);
        assert(order.take(n) =~= order.take(n - 1).push(key));
        assert(list.take(n).last() == list[n - 1]);
        assert(by_id::<T>(list.take(n)) == by_id::<T>(list.take(n - 1)).insert(key, list[n - 1]));
        assert forall|k: Seq<char>| #[trigger]
            by_id::<T>(list.take(n)).contains_key(k) <==> order.take(n).contains(k) by {
            if order.take(n).contains(k) {
                let i = choose|i: int| 0 <= i < n && (#[trigger] order.take(n)[i]) == k;
                if i < n - 1 {
                    assert(order.take(n - 1)[i] == k);
                }
            }
            if order.take(n - 1).contains(k) {
                let i = choose|i: int| 0 <= i < n - 1 && (#[trigger] order.take(n - 1)[i]) == k;
                assert(order.take(n)[i] == k);
            }
            if k == key {
                assert(order.take(n)[n - 1] == k);
            }
        }
    }
}

/// A list of everything that was kept is read back as what was kept.
pub proof fn law_what_is_listed_reads_back<T: Kept>(list: Seq<T::V>, map: Map<Seq<char>, T::V>)
    requires
        lists(list, map),
        under_own_ids::<T>(map),
    ensures
        by_id::<T>(list) == map,
{
    let order = choose|order: Seq<Seq<char>>| in_order(list, map, order);
    lemma_lists_back::<T>(list, map, order, list.len() as int);
    assert(list.take(list.len() as int) =~= list);
    assert(order.take(order.len() as int) =~= order);
    assert(by_id::<T>(list) =~= map);
}

/// What is written down of the accounts.
#[derive(Debug, PartialEq, Eq)]
pub struct AccountsFile {
    pub irc: Vec<IrcAccountConfig>,
    pub discord: Vec<DiscordAccountConfig>,
    pub sneedchat: Vec<SneedChatAccountConfig>,
    pub matrix: Vec<MatrixAccountConfig>,
    pub kick: Vec<KickAccountConfig>,
}

/// The accounts of every service.
pub struct AccountStore {
    irc: TextMap<IrcAccountConfig>,
    discord: TextMap<DiscordAccountConfig>,
    sneedchat: TextMap<SneedChatAccountConfig>,
    matrix: TextMap<MatrixAccountConfig>,
    kick: TextMap<KickAccountConfig>,
    unsaved: bool,
}

/// The accounts of every service by their ids, and whether that has yet to be written down.
pub struct AccountsV {
    pub irc: Map<Seq<char>, IrcAccountV>,
    pub discord: Map<Seq<char>, DiscordAccountV>,
    pub sneedchat: Map<Seq<char>, SneedChatAccountV>,
    pub matrix: Map<Seq<char>, MatrixAccountV>,
    pub kick: Map<Seq<char>, KickAccountV>,
    pub unsaved: bool,
}

impl View for AccountStore {
    type V = AccountsV;

    closed spec fn view(&self) -> AccountsV {
        AccountsV {
            irc: map_views(self.irc@),
            discord: map_views(self.discord@),
            sneedchat: map_views(self.sneedchat@),
            matrix: map_views(self.matrix@),
            kick: map_views(self.kick@),
            unsaved: self.unsaved,
        }
    }
}

impl AccountsV {
    /// Whether every account stands under its own id.
    pub open spec fn keyed(self) -> bool {
        &&& under_own_ids::<IrcAccountConfig>(self.irc)
        &&& under_own_ids::<DiscordAccountConfig>(self.discord)
        &&& under_own_ids::<SneedChatAccountConfig>(self.sneedchat)
        &&& under_own_ids::<MatrixAccountConfig>(self.matrix)
        &&& under_own_ids::<KickAccountConfig>(self.kick)
    }

    /// With this account under this id, to be written down.
    pub open spec fn with_irc(self, id: Seq<char>, a: IrcAccountV) -> AccountsV {
        AccountsV { irc: self.irc.insert(id, a), unsaved: true, ..self }
    }

    /// With this account under this id, to be written down.
    pub open spec fn with_discord(self, id: Seq<char>, a: DiscordAccountV) -> AccountsV {
        AccountsV { discord: self.discord.insert(id, a), unsaved: true, ..self }
    }

    /// With this account under this id, to be written down.
    pub open spec fn with_sneedchat(self, id: Seq<char>, a: SneedChatAccountV) -> AccountsV {
        AccountsV { sneedchat: self.sneedchat.insert(id, a), unsaved: true, ..self }
    }

    /// With this account under this id, to be written down.
    pub open spec fn with_matrix(self, id: Seq<char>, a: MatrixAccountV) -> AccountsV {
        AccountsV { matrix: self.matrix.insert(id, a), unsaved: true, ..self }
    }

    /// With this account under this id, to be written down.
    pub open spec fn with_kick(self, id: Seq<char>, a: KickAccountV) -> AccountsV {
        AccountsV { kick: self.kick.insert(id, a), unsaved: true, ..self }
    }

    /// Whether any service has an account with this id.
    pub open spec fn knows(self, id: Seq<char>) -> bool {
        self.irc.contains_key(id) || self.discord.contains_key(id) || self.sneedchat.contains_key(id)
            || self.matrix.contains_key(id) || self.kick.contains_key(id)
    }

    /// Without the account of this id, to be written down. The services are asked in turn, and the
    /// first that has it gives it up.
    pub open spec fn without(self, id: Seq<char>) -> AccountsV {
        if self.irc.contains_key(id) {
            AccountsV { irc: self.irc.remove(id), unsaved: true, ..self }
        } else if self.discord.contains_key(id) {
            AccountsV { discord: self.discord.remove(id), unsaved: true, ..self }
        } else if self.sneedchat.contains_key(id) {
            AccountsV { sneedchat: self.sneedchat.remove(id), unsaved: true, ..self }
        } else if self.matrix.contains_key(id) {
            AccountsV { matrix: self.matrix.remove(id), unsaved: true, ..self }
        } else if self.kick.contains_key(id) {
            AccountsV { kick: self.kick.remove(id), unsaved: true, ..self }
        } else {
            self
        }
    }

    /// With the account of this id called `name`; the services are asked in turn.
    pub open spec fn renamed(self, id: Seq<char>, name: Option<Seq<char>>) -> AccountsV {
        if self.irc.contains_key(id) {
            self.with_irc(id, IrcAccountV { display_name: name, ..self.irc[id] })
        } else if self.discord.contains_key(id) {
            self.with_discord(id, DiscordAccountV { display_name: name, ..self.discord[id] })
        } else if self.sneedchat.contains_key(id) {
            self.with_sneedchat(id, SneedChatAccountV { display_name: name, ..self.sneedchat[id] })
        } else if self.matrix.contains_key(id) {
            self.with_matrix(id, MatrixAccountV { display_name: name, ..self.matrix[id] })
        } else if self.kick.contains_key(id) {
            self.with_kick(id, KickAccountV { display_name: name, ..self.kick[id] })
        } else {
            self
        }
    }

    /// What the account of this id is called here, whether or not that shows.
    pub open spec fn given_name(self, id: Seq<char>) -> Option<Seq<char>> {
        if self.irc.contains_key(id) {
            self.irc[id].display_name
        } else if self.discord.contains_key(id) {
            self.discord[id].display_name
        } else if self.sneedchat.contains_key(id) {
            self.sneedchat[id].display_name
        } else if self.matrix.contains_key(id) {
            self.matrix[id].display_name
        } else if self.kick.contains_key(id) {
            self.kick[id].display_name
        } else {
            None
        }
    }
}

/// A text, or nothing where it is empty.
pub open spec fn unless_empty(text: Seq<char>) -> Option<Seq<char>> {
    if text.len() > 0 {
        Some(text)
    } else {
        None
    }
}

fn keep_unless_empty(text: &str) -> (r: Option<String>)
    ensures
        maybe(r) == unless_empty(text@),
{
    if text.is_empty() {
        None
    } else {
        Some(text.to_owned())
    }
}

/// A name, unless nothing of it can be seen.
pub open spec fn unless_blank(name: Option<Seq<char>>) -> Option<Seq<char>> {
    match name {
        Some(n) => if is_blank(n) {
            None
        } else {
            Some(n)
        },
        None => None,
    }
}

fn keep_unless_blank(name: &Option<String>) -> (r: Option<String>)
    ensures
        maybe(r) == unless_blank(maybe(*name)),
{
    match name {
        Some(n) => if blank(n.as_str()) {
            None
        } else {
            Some(n.clone())
        },
        None => None,
    }
}

/// What the SASL settings of an account are changed to.
pub struct SaslChange<'a> {
    pub enabled: bool,
    pub user: &'a str,
    /// Empty leaves the one that is kept.
    pub password: &'a str,
    pub allow_plaintext: bool,
    /// Absent leaves what is kept and empty clears it; so with the two below.
    pub mechanism: Option<&'a str>,
    pub cert_path: Option<&'a str>,
    pub cert_pass: Option<&'a str>,
}

/// A setting that is left alone, cleared or replaced.
pub open spec fn changed_setting(new: Option<Seq<char>>, kept: Option<Seq<char>>) -> Option<Seq<char>> {
    match new {
        Some(t) => unless_empty(t),
        None => kept,
    }
}

/// A secret that an empty one leaves alone.
pub open spec fn replaced_secret(new: Seq<char>, kept: Option<Seq<char>>) -> Option<Seq<char>> {
    if new.len() > 0 {
        Some(new)
    } else {
        kept
    }
}

/// An account with its SASL settings changed.
pub open spec fn with_sasl(a: IrcAccountV, change: SaslChange<'_>) -> IrcAccountV {
    IrcAccountV {
        sasl: change.enabled,
        sasl_user: unless_empty(change.user@),
        allow_plaintext_sasl: change.allow_plaintext,
        password: replaced_secret(change.password@, a.password),
        sasl_mechanism: changed_setting(maybe_str(change.mechanism), a.sasl_mechanism),
        sasl_cert_path: changed_setting(maybe_str(change.cert_path), a.sasl_cert_path),
        sasl_cert_pass: changed_setting(maybe_str(change.cert_pass), a.sasl_cert_pass),
        ..a
    }
}

impl AccountStore {
    /// The accounts that were written down.
    pub fn open(file: AccountsFile) -> (r: AccountStore)
        ensures
            r@ == (AccountsV {
                irc: by_id::<IrcAccountConfig>(views(file.irc@)),
                discord: by_id::<DiscordAccountConfig>(views(file.discord@)),
                sneedchat: by_id::<SneedChatAccountConfig>(views(file.sneedchat@)),
                matrix: by_id::<MatrixAccountConfig>(views(file.matrix@)),
                kick: by_id::<KickAccountConfig>(views(file.kick@)),
                unsaved: false,
            }),
            r@.keyed(),
    {
        AccountStore {
            irc: shelve(file.irc),
            discord: shelve(file.discord),
            sneedchat: shelve(file.sneedchat),
            matrix: shelve(file.matrix),
            kick: shelve(file.kick),
            unsaved: false,
        }
    }

    /// What to write down of the accounts.
    pub fn file(&self) -> (r: AccountsFile)
        ensures
            lists(views(r.irc@), self@.irc),
            lists(views(r.discord@), self@.discord),
            lists(views(r.sneedchat@), self@.sneedchat),
            lists(views(r.matrix@), self@.matrix),
            lists(views(r.kick@), self@.kick),
    {
        AccountsFile {
            irc: list_all(&self.irc),
            discord: list_all(&self.discord),
            sneedchat: list_all(&self.sneedchat),
            matrix: list_all(&self.matrix),
            kick: list_all(&self.kick),
        }
    }

    /// Whether the accounts have yet to be written down; from now on they count as written.
    pub fn take_unsaved(&mut self) -> (r: bool)
        ensures
            r == old(self)@.unsaved,
            final(self)@ == (AccountsV { unsaved: false, ..old(self)@ }),
    {
        let r = self.unsaved;
        self.unsaved = false;
        r
    }

    fn put_irc(&mut self, id: &str, a: IrcAccountConfig)
        ensures
            final(self)@ == old(self)@.with_irc(id@, a@),
            old(self)@.keyed() && a@.account_id() == id@ ==> final(self)@.keyed(),
    {
        let ghost before = self.irc@;
        proof {
            lemma_map_views_insert(before, id@, a);
        }
        self.irc.insert(id, a);
        self.unsaved = true;
    }

    pub fn get_irc(&self, account_id: &str) -> (r: Option<IrcAccountConfig>)
        ensures
            match r {
                Some(a) => self@.irc.contains_key(account_id@) && self@.irc[account_id@] == a@,
                None => !self@.irc.contains_key(account_id@),
            },
    {
        match self.irc.get(account_id) {
            Some(a) => Some(a.copy()),
            None => None,
        }
    }

    pub fn all_irc(&self) -> (r: Vec<IrcAccountConfig>)
        ensures
            lists(views(r@), self@.irc),
    {
        list_all(&self.irc)
    }

    /// Adds an account, unless there is one of the same nick at the same network.
    pub fn add_irc(&mut self, config: IrcAccountConfig) -> (r: Option<IrcAccountConfig>)
        ensures
            match r {
                Some(a) => {
                    &&& a@ == config@
                    &&& !old(self)@.irc.contains_key(config@.account_id())
                    &&& final(self)@ == old(self)@.with_irc(config@.account_id(), config@)
                },
                None => old(self)@.irc.contains_key(config@.account_id()) && final(self)@ == old(
                    self,
                )@,
            },
            old(self)@.keyed() ==> final(self)@.keyed(),
    {
        let id = config.account_id();
        if self.irc.contains(id.as_str()) {
            return None;
        }
        let kept = config.copy();
        self.put_irc(id.as_str(), kept);
        Some(config)
    }

    fn put_discord(&mut self, id: &str, a: DiscordAccountConfig)
        ensures
            final(self)@ == old(self)@.with_discord(id@, a@),
            old(self)@.keyed() && a@.account_id() == id@ ==> final(self)@.keyed(),
    {
        let ghost before = self.discord@;
        proof {
            lemma_map_views_insert(before, id@, a);
        }
        self.discord.insert(id, a);
        self.unsaved = true;
    }

    pub fn get_discord(&self, account_id: &str) -> (r: Option<DiscordAccountConfig>)
        ensures
            match r {
                Some(a) => self@.discord.contains_key(account_id@) && self@.discord[account_id@] == a@,
                None => !self@.discord.contains_key(account_id@),
            },
    {
        match self.discord.get(account_id) {
            Some(a) => Some(a.copy()),
            None => None,
        }
    }

    pub fn all_discord(&self) -> (r: Vec<DiscordAccountConfig>)
        ensures
            lists(views(r@), self@.discord),
    {
        list_all(&self.discord)
    }

    /// Adds an account, or replaces the one of the same id.
    pub fn add_discord(&mut self, config: DiscordAccountConfig) -> (r: DiscordAccountConfig)
        ensures
            r@ == config@,
            final(self)@ == old(self)@.with_discord(config@.account_id(), config@),
            old(self)@.keyed() ==> final(self)@.keyed(),
    {
        let id = config.account_id();
        let kept = config.copy();
        self.put_discord(id.as_str(), kept);
        config
    }

    fn put_sneedchat(&mut self, id: &str, a: SneedChatAccountConfig)
        ensures
            final(self)@ == old(self)@.with_sneedchat(id@, a@),
            old(self)@.keyed() && a@.account_id() == id@ ==> final(self)@.keyed(),
    {
        let ghost before = self.sneedchat@;
        proof {
            lemma_map_views_insert(before, id@, a);
        }
        self.sneedchat.insert(id, a);
        self.unsaved = true;
    }

    pub fn get_sneedchat(&self, account_id: &str) -> (r: Option<SneedChatAccountConfig>)
        ensures
            match r {
                Some(a) => self@.sneedchat.contains_key(account_id@) && self@.sneedchat[account_id@] == a@,
                None => !self@.sneedchat.contains_key(account_id@),
            },
    {
        match self.sneedchat.get(account_id) {
            Some(a) => Some(a.copy()),
            None => None,
        }
    }

    pub fn all_sneedchat(&self) -> (r: Vec<SneedChatAccountConfig>)
        ensures
            lists(views(r@), self@.sneedchat),
    {
        list_all(&self.sneedchat)
    }

    /// Adds an account, or replaces the one of the same id.
    pub fn add_sneedchat(&mut self, config: SneedChatAccountConfig) -> (r: SneedChatAccountConfig)
        ensures
            r@ == config@,
            final(self)@ == old(self)@.with_sneedchat(config@.account_id(), config@),
            old(self)@.keyed() ==> final(self)@.keyed(),
    {
        let id = config.account_id();
        let kept = config.copy();
        self.put_sneedchat(id.as_str(), kept);
        config
    }

    fn put_matrix(&mut self, id: &str, a: MatrixAccountConfig)
        ensures
            final(self)@ == old(self)@.with_matrix(id@, a@),
            old(self)@.keyed() && a@.account_id() == id@ ==> final(self)@.keyed(),
    {
        let ghost before = self.matrix@;
        proof {
            lemma_map_views_insert(before, id@, a);
        }
        self.matrix.insert(id, a);
        self.unsaved = true;
    }

    pub fn get_matrix(&self, account_id: &str) -> (r: Option<MatrixAccountConfig>)
        ensures
            match r {
                Some(a) => self@.matrix.contains_key(account_id@) && self@.matrix[account_id@] == a@,
                None => !self@.matrix.contains_key(account_id@),
            },
    {
        match self.matrix.get(account_id) {
            Some(a) => Some(a.copy()),
            None => None,
        }
    }

    pub fn all_matrix(&self) -> (r: Vec<MatrixAccountConfig>)
        ensures
            lists(views(r@), self@.matrix),
    {
        list_all(&self.matrix)
    }

    /// Adds an account, or replaces the one of the same id.
    pub fn add_matrix(&mut self, config: MatrixAccountConfig) -> (r: MatrixAccountConfig)
        ensures
            r@ == config@,
            final(self)@ == old(self)@.with_matrix(config@.account_id(), config@),
            old(self)@.keyed() ==> final(self)@.keyed(),
    {
        let id = config.account_id();
        let kept = config.copy();
        self.put_matrix(id.as_str(), kept);
        config
    }

    fn put_kick(&mut self, id: &str, a: KickAccountConfig)
        ensures
            final(self)@ == old(self)@.with_kick(id@, a@),
            old(self)@.keyed() && a@.account_id() == id@ ==> final(self)@.keyed(),
    {
        let ghost before = self.kick@;
        proof {
            lemma_map_views_insert(before, id@, a);
        }
        self.kick.insert(id, a);
        self.unsaved = true;
    }

    pub fn get_kick(&self, account_id: &str) -> (r: Option<KickAccountConfig>)
        ensures
            match r {
                Some(a) => self@.kick.contains_key(account_id@) && self@.kick[account_id@] == a@,
                None => !self@.kick.contains_key(account_id@),
            },
    {
        match self.kick.get(account_id) {
            Some(a) => Some(a.copy()),
            None => None,
        }
    }

    pub fn all_kick(&self) -> (r: Vec<KickAccountConfig>)
        ensures
            lists(views(r@), self@.kick),
    {
        list_all(&self.kick)
    }

    /// Adds an account, or replaces the one of the same id.
    pub fn add_kick(&mut self, config: KickAccountConfig) -> (r: KickAccountConfig)
        ensures
            r@ == config@,
            final(self)@ == old(self)@.with_kick(config@.account_id(), config@),
            old(self)@.keyed() ==> final(self)@.keyed(),
    {
        let id = config.account_id();
        let kept = config.copy();
        self.put_kick(id.as_str(), kept);
        config
    }

    /// The session that signing in again gave.
    pub fn set_matrix_session(&mut self, account_id: &str, access_token: &str, device_id: &str) -> (r: bool)
        ensures
            r == old(self)@.matrix.contains_key(account_id@),
            final(self)@ == (if r {
                old(self)@.with_matrix(
                    account_id@,
                    MatrixAccountV { access_token: access_token@, device_id: device_id@, ..old(self)@.matrix[account_id@] },
                )
            } else {
                old(self)@
            }),
            old(self)@.keyed() ==> final(self)@.keyed(),
    {
        let mut a = match self.matrix.get(account_id) {
            Some(a) => a.copy(),
            None => {
                return false;
            },
        };
        a.access_token = access_token.to_owned();
        a.device_id = device_id.to_owned();
        assert(self@.matrix.contains_key(account_id@));
        self.put_matrix(account_id, a);
        true
    }

    /// How far the last sync got.
    pub fn set_matrix_next_batch(&mut self, account_id: &str, next_batch: &str) -> (r: bool)
        ensures
            r == old(self)@.matrix.contains_key(account_id@),
            final(self)@ == (if r {
                old(self)@.with_matrix(
                    account_id@,
                    MatrixAccountV { next_batch: Some(next_batch@), ..old(self)@.matrix[account_id@] },
                )
            } else {
                old(self)@
            }),
            old(self)@.keyed() ==> final(self)@.keyed(),
    {
        let mut a = match self.matrix.get(account_id) {
            Some(a) => a.copy(),
            None => {
                return false;
            },
        };
        a.next_batch = Some(next_batch.to_owned());
        assert(self@.matrix.contains_key(account_id@));
        self.put_matrix(account_id, a);
        true
    }

    /// Turns sliding sync on or off. How far the last sync got is of the other kind, and is forgotten.
    pub fn set_matrix_prefer_sliding_sync(&mut self, account_id: &str, prefer: bool) -> (r: bool)
        ensures
            r == old(self)@.matrix.contains_key(account_id@),
            final(self)@ == (if r {
                old(self)@.with_matrix(
                    account_id@,
                    MatrixAccountV { prefer_sliding_sync: prefer, next_batch: None, ..old(self)@.matrix[account_id@] },
                )
            } else {
                old(self)@
            }),
            old(self)@.keyed() ==> final(self)@.keyed(),
    {
        let mut a = match self.matrix.get(account_id) {
            Some(a) => a.copy(),
            None => {
                return false;
            },
        };
        a.prefer_sliding_sync = prefer;
        a.next_batch = None;
        assert(self@.matrix.contains_key(account_id@));
        self.put_matrix(account_id, a);
        true
    }

    /// Which kind of sync comes now; how far the last one got is forgotten.
    pub fn set_matrix_used_sliding_sync(&mut self, account_id: &str, used: bool) -> (r: bool)
        ensures
            r == old(self)@.matrix.contains_key(account_id@),
            final(self)@ == (if r {
                old(self)@.with_matrix(
                    account_id@,
                    MatrixAccountV { used_sliding_sync: used, next_batch: None, ..old(self)@.matrix[account_id@] },
                )
            } else {
                old(self)@
            }),
            old(self)@.keyed() ==> final(self)@.keyed(),
    {
        let mut a = match self.matrix.get(account_id) {
            Some(a) => a.copy(),
            None => {
                return false;
            },
        };
        a.used_sliding_sync = used;
        a.next_batch = None;
        assert(self@.matrix.contains_key(account_id@));
        self.put_matrix(account_id, a);
        true
    }

    /// The media server to hold calls on; an empty one clears it.
    pub fn set_matrix_rtc_focus(&mut self, account_id: &str, url: &str) -> (r: bool)
        ensures
            r == old(self)@.matrix.contains_key(account_id@),
            final(self)@ == (if r {
                old(self)@.with_matrix(
                    account_id@,
                    MatrixAccountV { rtc_focus_url: unless_empty(trimmed(url@)), ..old(self)@.matrix[account_id@] },
                )
            } else {
                old(self)@
            }),
            old(self)@.keyed() ==> final(self)@.keyed(),
    {
        let mut a = match self.matrix.get(account_id) {
            Some(a) => a.copy(),
            None => {
                return false;
            },
        };
        let url = trim(url);
        a.rtc_focus_url = keep_unless_empty(url.as_str());
        assert(self@.matrix.contains_key(account_id@));
        self.put_matrix(account_id, a);
        true
    }

    /// The rooms to stay connected to.
    pub fn set_sneedchat_rooms(&mut self, account_id: &str, rooms: Vec<SneedChatRoom>) -> (r: bool)
        ensures
            r == old(self)@.sneedchat.contains_key(account_id@),
            final(self)@ == (if r {
                old(self)@.with_sneedchat(
                    account_id@,
                    SneedChatAccountV { rooms: views(rooms@), ..old(self)@.sneedchat[account_id@] },
                )
            } else {
                old(self)@
            }),
            old(self)@.keyed() ==> final(self)@.keyed(),
    {
        let mut a = match self.sneedchat.get(account_id) {
            Some(a) => a.copy(),
            None => {
                return false;
            },
        };
        a.rooms = rooms;
        assert(self@.sneedchat.contains_key(account_id@));
        self.put_sneedchat(account_id, a);
        true
    }

    /// How to reach the service.
    pub fn set_sneedchat_tor_config(&mut self, account_id: &str, tor_mode: String, proxy: Option<String>) -> (r: bool)
        ensures
            r == old(self)@.sneedchat.contains_key(account_id@),
            final(self)@ == (if r {
                old(self)@.with_sneedchat(
                    account_id@,
                    SneedChatAccountV { tor_mode: tor_mode@, proxy: maybe(proxy), ..old(self)@.sneedchat[account_id@] },
                )
            } else {
                old(self)@
            }),
            old(self)@.keyed() ==> final(self)@.keyed(),
    {
        let mut a = match self.sneedchat.get(account_id) {
            Some(a) => a.copy(),
            None => {
                return false;
            },
        };
        a.tor_mode = tor_mode;
        a.proxy = proxy;
        assert(self@.sneedchat.contains_key(account_id@));
        self.put_sneedchat(account_id, a);
        true
    }

    /// The number that the service knows the account by.
    pub fn set_sneedchat_user_id(&mut self, account_id: &str, user_id: u32) -> (r: bool)
        ensures
            r == old(self)@.sneedchat.contains_key(account_id@),
            final(self)@ == (if r {
                old(self)@.with_sneedchat(
                    account_id@,
                    SneedChatAccountV { user_id: Some(user_id), ..old(self)@.sneedchat[account_id@] },
                )
            } else {
                old(self)@
            }),
            old(self)@.keyed() ==> final(self)@.keyed(),
    {
        let mut a = match self.sneedchat.get(account_id) {
            Some(a) => a.copy(),
            None => {
                return false;
            },
        };
        a.user_id = Some(user_id);
        assert(self@.sneedchat.contains_key(account_id@));
        self.put_sneedchat(account_id, a);
        true
    }

    /// The picture of the account.
    pub fn set_discord_avatar_url(&mut self, account_id: &str, url: &str) -> (r: bool)
        ensures
            r == old(self)@.discord.contains_key(account_id@),
            final(self)@ == (if r {
                old(self)@.with_discord(
                    account_id@,
                    DiscordAccountV { avatar_url: Some(url@), ..old(self)@.discord[account_id@] },
                )
            } else {
                old(self)@
            }),
            old(self)@.keyed() ==> final(self)@.keyed(),
    {
        let mut a = match self.discord.get(account_id) {
            Some(a) => a.copy(),
            None => {
                return false;
            },
        };
        a.avatar_url = Some(url.to_owned());
        assert(self@.discord.contains_key(account_id@));
        self.put_discord(account_id, a);
        true
    }

    /// The channels to join.
    pub fn set_autojoin(&mut self, account_id: &str, channels_csv: &str) -> (r: bool)
        ensures
            r == old(self)@.irc.contains_key(account_id@),
            final(self)@ == (if r {
                old(self)@.with_irc(
                    account_id@,
                    IrcAccountV { autojoin: channels_csv@, ..old(self)@.irc[account_id@] },
                )
            } else {
                old(self)@
            }),
            old(self)@.keyed() ==> final(self)@.keyed(),
    {
        let mut a = match self.irc.get(account_id) {
            Some(a) => a.copy(),
            None => {
                return false;
            },
        };
        a.autojoin = channels_csv.to_owned();
        assert(self@.irc.contains_key(account_id@));
        self.put_irc(account_id, a);
        true
    }

    /// The nicks to watch for.
    pub fn set_irc_notify(&mut self, account_id: &str, nicks_csv: &str) -> (r: bool)
        ensures
            r == old(self)@.irc.contains_key(account_id@),
            final(self)@ == (if r {
                old(self)@.with_irc(
                    account_id@,
                    IrcAccountV { notify: nicks_csv@, ..old(self)@.irc[account_id@] },
                )
            } else {
                old(self)@
            }),
            old(self)@.keyed() ==> final(self)@.keyed(),
    {
        let mut a = match self.irc.get(account_id) {
            Some(a) => a.copy(),
            None => {
                return false;
            },
        };
        a.notify = nicks_csv.to_owned();
        assert(self@.irc.contains_key(account_id@));
        self.put_irc(account_id, a);
        true
    }

    /// The password for NickServ; an empty one clears it.
    pub fn set_nickserv_password(&mut self, account_id: &str, password: &str) -> (r: bool)
        ensures
            r == old(self)@.irc.contains_key(account_id@),
            final(self)@ == (if r {
                old(self)@.with_irc(
                    account_id@,
                    IrcAccountV { nickserv_password: unless_empty(password@), ..old(self)@.irc[account_id@] },
                )
            } else {
                old(self)@
            }),
            old(self)@.keyed() ==> final(self)@.keyed(),
    {
        let mut a = match self.irc.get(account_id) {
            Some(a) => a.copy(),
            None => {
                return false;
            },
        };
        a.nickserv_password = keep_unless_empty(password);
        assert(self@.irc.contains_key(account_id@));
        self.put_irc(account_id, a);
        true
    }

    /// Whether to connect through a proxy; an empty one leaves the one that is kept.
    pub fn set_irc_use_tor(&mut self, account_id: &str, use_tor: bool, proxy: &str) -> (r: bool)
        ensures
            r == old(self)@.irc.contains_key(account_id@),
            final(self)@ == (if r {
                old(self)@.with_irc(
                    account_id@,
                    IrcAccountV { use_tor, tor_proxy: replaced_secret(proxy@, old(self)@.irc[account_id@].tor_proxy), ..old(self)@.irc[account_id@] },
                )
            } else {
                old(self)@
            }),
            old(self)@.keyed() ==> final(self)@.keyed(),
    {
        let mut a = match self.irc.get(account_id) {
            Some(a) => a.copy(),
            None => {
                return false;
            },
        };
        a.use_tor = use_tor;
        if !proxy.is_empty() {
            a.tor_proxy = Some(proxy.to_owned());
        }
        assert(self@.irc.contains_key(account_id@));
        self.put_irc(account_id, a);
        true
    }

    /// The real name that the account registers with; an empty one clears it.
    pub fn set_irc_realname(&mut self, account_id: &str, realname: &str) -> (r: bool)
        ensures
            r == old(self)@.irc.contains_key(account_id@),
            final(self)@ == (if r {
                old(self)@.with_irc(
                    account_id@,
                    IrcAccountV { realname: unless_empty(realname@), ..old(self)@.irc[account_id@] },
                )
            } else {
                old(self)@
            }),
            old(self)@.keyed() ==> final(self)@.keyed(),
    {
        let mut a = match self.irc.get(account_id) {
            Some(a) => a.copy(),
            None => {
                return false;
            },
        };
        a.realname = keep_unless_empty(realname);
        assert(self@.irc.contains_key(account_id@));
        self.put_irc(account_id, a);
        true
    }

    /// Changes the SASL settings of an account.
    pub fn set_sasl(&mut self, account_id: &str, change: SaslChange<'_>) -> (r: bool)
        ensures
            r == old(self)@.irc.contains_key(account_id@),
            final(self)@ == (if r {
                old(self)@.with_irc(account_id@, with_sasl(old(self)@.irc[account_id@], change))
            } else {
                old(self)@
            }),
            old(self)@.keyed() ==> final(self)@.keyed(),
    {
        let mut a = match self.irc.get(account_id) {
            Some(a) => a.copy(),
            None => {
                return false;
            },
        };
        a.sasl = change.enabled;
        a.sasl_user = keep_unless_empty(change.user);
        a.allow_plaintext_sasl = change.allow_plaintext;
        if !change.password.is_empty() {
            a.password = Some(change.password.to_owned());
        }
        match change.mechanism {
            Some(mechanism) => {
                a.sasl_mechanism = keep_unless_empty(mechanism);
            },
            None => {},
        }
        match change.cert_path {
            Some(path) => {
                a.sasl_cert_path = keep_unless_empty(path);
            },
            None => {},
        }
        match change.cert_pass {
            Some(pass) => {
                a.sasl_cert_pass = keep_unless_empty(pass);
            },
            None => {},
        }
        assert(self@.irc.contains_key(account_id@));
        self.put_irc(account_id, a);
        true
    }

    /// The session that a browser signed in. There is nothing to write down where it is the one
    /// that is kept.
    pub fn set_sneedchat_cookies(&mut self, account_id: &str, cookies: Vec<Cookie>) -> (r: bool)
        ensures
            r == old(self)@.sneedchat.contains_key(account_id@),
            final(self)@ == (if r && old(self)@.sneedchat[account_id@].cookies != views(cookies@) {
                old(self)@.with_sneedchat(
                    account_id@,
                    SneedChatAccountV {
                        cookies: views(cookies@),
                        ..old(self)@.sneedchat[account_id@]
                    },
                )
            } else {
                old(self)@
            }),
            old(self)@.keyed() ==> final(self)@.keyed(),
    {
        let mut a = match self.sneedchat.get(account_id) {
            Some(a) => a.copy(),
            None => {
                return false;
            },
        };
        if same_cookies(&a.cookies, &cookies) {
            return true;
        }
        a.cookies = cookies;
        assert(self@.sneedchat.contains_key(account_id@));
        self.put_sneedchat(account_id, a);
        true
    }

    /// The follows of an account have been read; says whether that is news.
    pub fn mark_kick_follows_synced(&mut self, account_id: &str) -> (r: bool)
        ensures
            r == (old(self)@.kick.contains_key(account_id@)
                && !old(self)@.kick[account_id@].followed_synced),
            final(self)@ == (if r {
                old(self)@.with_kick(
                    account_id@,
                    KickAccountV { followed_synced: true, ..old(self)@.kick[account_id@] },
                )
            } else {
                old(self)@
            }),
            old(self)@.keyed() ==> final(self)@.keyed(),
    {
        let mut a = match self.kick.get(account_id) {
            Some(a) => a.copy(),
            None => {
                return false;
            },
        };
        if a.followed_synced {
            return false;
        }
        a.followed_synced = true;
        assert(self@.kick.contains_key(account_id@));
        self.put_kick(account_id, a);
        true
    }

    /// The streamers that an account watches; says whether that is news.
    pub fn set_kick_channels(&mut self, account_id: &str, channels: Vec<String>) -> (r: bool)
        ensures
            r == (old(self)@.kick.contains_key(account_id@)
                && old(self)@.kick[account_id@].channels != texts(channels@)),
            final(self)@ == (if r {
                old(self)@.with_kick(
                    account_id@,
                    KickAccountV { channels: texts(channels@), ..old(self)@.kick[account_id@] },
                )
            } else {
                old(self)@
            }),
            old(self)@.keyed() ==> final(self)@.keyed(),
    {
        let mut a = match self.kick.get(account_id) {
            Some(a) => a.copy(),
            None => {
                return false;
            },
        };
        if same_texts(&a.channels, &channels) {
            return false;
        }
        a.channels = channels;
        assert(self@.kick.contains_key(account_id@));
        self.put_kick(account_id, a);
        true
    }

    /// Removes an account; says whether there was one.
    pub fn remove(&mut self, account_id: &str) -> (r: bool)
        ensures
            r == old(self)@.knows(account_id@),
            final(self)@ == old(self)@.without(account_id@),
            old(self)@.keyed() ==> final(self)@.keyed(),
    {
        let ghost before = *self;

        if self.irc.remove(account_id).is_some() {
            assert(map_views(self.irc@) =~= map_views(before.irc@).remove(account_id@));
            self.unsaved = true;
            return true;
        }
        assert(self.irc@ =~= before.irc@);
        if self.discord.remove(account_id).is_some() {
            assert(map_views(self.discord@) =~= map_views(before.discord@).remove(account_id@));
            self.unsaved = true;
            return true;
        }
        assert(self.discord@ =~= before.discord@);
        if self.sneedchat.remove(account_id).is_some() {
            assert(map_views(self.sneedchat@) =~= map_views(before.sneedchat@).remove(account_id@));
            self.unsaved = true;
            return true;
        }
        assert(self.sneedchat@ =~= before.sneedchat@);
        if self.matrix.remove(account_id).is_some() {
            assert(map_views(self.matrix@) =~= map_views(before.matrix@).remove(account_id@));
            self.unsaved = true;
            return true;
        }
        assert(self.matrix@ =~= before.matrix@);
        if self.kick.remove(account_id).is_some() {
            assert(map_views(self.kick@) =~= map_views(before.kick@).remove(account_id@));
            self.unsaved = true;
            return true;
        }
        assert(self.kick@ =~= before.kick@);
        false
    }

    /// Calls an account `name` here, and nowhere else; an empty name clears it. Says whether there
    /// is such an account.
    pub fn set_display_name(&mut self, account_id: &str, name: &str) -> (r: bool)
        ensures
            r == old(self)@.knows(account_id@),
            final(self)@ == old(self)@.renamed(account_id@, unless_empty(name@)),
            old(self)@.keyed() ==> final(self)@.keyed(),
    {
        match self.irc.get(account_id) {
            Some(found) => {
                let mut a = found.copy();
                a.display_name = keep_unless_empty(name);
                assert(self@.irc.contains_key(account_id@));
                self.put_irc(account_id, a);
                return true;
            },
            None => {},
        }
        match self.discord.get(account_id) {
            Some(found) => {
                let mut a = found.copy();
                a.display_name = keep_unless_empty(name);
                assert(self@.discord.contains_key(account_id@));
                self.put_discord(account_id, a);
                return true;
            },
            None => {},
        }
        match self.sneedchat.get(account_id) {
            Some(found) => {
                let mut a = found.copy();
                a.display_name = keep_unless_empty(name);
                assert(self@.sneedchat.contains_key(account_id@));
                self.put_sneedchat(account_id, a);
                return true;
            },
            None => {},
        }
        match self.matrix.get(account_id) {
            Some(found) => {
                let mut a = found.copy();
                a.display_name = keep_unless_empty(name);
                assert(self@.matrix.contains_key(account_id@));
                self.put_matrix(account_id, a);
                return true;
            },
            None => {},
        }
        match self.kick.get(account_id) {
            Some(found) => {
                let mut a = found.copy();
                a.display_name = keep_unless_empty(name);
                assert(self@.kick.contains_key(account_id@));
                self.put_kick(account_id, a);
                return true;
            },
            None => {},
        }
        false
    }

    /// What an account is called here, where it was given a name that shows.
    pub fn display_name_override(&self, account_id: &str) -> (r: Option<String>)
        ensures
            maybe(r) == unless_blank(self@.given_name(account_id@)),
    {
        match self.irc.get(account_id) {
            Some(a) => {
                return keep_unless_blank(&a.display_name);
            },
            None => {},
        }
        match self.discord.get(account_id) {
            Some(a) => {
                return keep_unless_blank(&a.display_name);
            },
            None => {},
        }
        match self.sneedchat.get(account_id) {
            Some(a) => {
                return keep_unless_blank(&a.display_name);
            },
            None => {},
        }
        match self.matrix.get(account_id) {
            Some(a) => {
                return keep_unless_blank(&a.display_name);
            },
            None => {},
        }
        match self.kick.get(account_id) {
            Some(a) => {
                return keep_unless_blank(&a.display_name);
            },
            None => {},
        }
        None
    }
}

/// An account of any service can be given a name, and that is the name that is read back.
pub proof fn law_every_service_can_be_renamed(accounts: AccountsV, id: Seq<char>, name: Seq<char>)
    requires
        accounts.knows(id),
    ensures
        accounts.renamed(id, unless_empty(name)).given_name(id) == unless_empty(name),
        !is_blank(name) ==> unless_blank(
            accounts.renamed(id, unless_empty(name)).given_name(id),
        ) == Some(name),
{
    if name.len() == 0 {
        assert(trimmed(name) =~= Seq::empty());
    }
}

/// Renaming one account leaves every other one as it was.
pub proof fn law_renaming_is_about_one_account(
    accounts: AccountsV,
    id: Seq<char>,
    other: Seq<char>,
    name: Option<Seq<char>>,
)
    requires
        id != other,
    ensures
        accounts.renamed(id, name).knows(other) == accounts.knows(other),
        accounts.renamed(id, name).given_name(other) == accounts.given_name(other),
{
}

/// Renaming what is not there changes nothing.
pub proof fn law_renaming_nobody(accounts: AccountsV, id: Seq<char>, name: Option<Seq<char>>)
    requires
        !accounts.knows(id),
    ensures
        accounts.renamed(id, name) == accounts,
{
}

/// What is written down is read back as it was kept.
pub proof fn law_accounts_read_back(accounts: AccountsV, file: AccountsFile)
    requires
        accounts.keyed(),
        lists(views(file.irc@), accounts.irc),
        lists(views(file.discord@), accounts.discord),
        lists(views(file.sneedchat@), accounts.sneedchat),
        lists(views(file.matrix@), accounts.matrix),
        lists(views(file.kick@), accounts.kick),
    ensures
        by_id::<IrcAccountConfig>(views(file.irc@)) == accounts.irc,
        by_id::<DiscordAccountConfig>(views(file.discord@)) == accounts.discord,
        by_id::<SneedChatAccountConfig>(views(file.sneedchat@)) == accounts.sneedchat,
        by_id::<MatrixAccountConfig>(views(file.matrix@)) == accounts.matrix,
        by_id::<KickAccountConfig>(views(file.kick@)) == accounts.kick,
{
    law_what_is_listed_reads_back::<IrcAccountConfig>(views(file.irc@), accounts.irc);
    law_what_is_listed_reads_back::<DiscordAccountConfig>(views(file.discord@), accounts.discord);
    law_what_is_listed_reads_back::<SneedChatAccountConfig>(views(file.sneedchat@), accounts.sneedchat);
    law_what_is_listed_reads_back::<MatrixAccountConfig>(views(file.matrix@), accounts.matrix);
    law_what_is_listed_reads_back::<KickAccountConfig>(views(file.kick@), accounts.kick);
}

/// Of two accounts with one id the later is kept, and every other stays.
pub proof fn law_the_later_of_two_accounts_is_kept<T: Kept>(
    list: Seq<T::V>,
    last: T::V,
    other: Seq<char>,
)
    ensures
        by_id::<T>(Seq::empty()) == Map::<Seq<char>, T::V>::empty(),
        ({
            let before = by_id::<T>(list);
            let after = by_id::<T>(list.push(last));
            let id = T::id_of(last);
            &&& after.contains_key(id) && after[id] == last
            &&& other != id ==> after.contains_key(other) == before.contains_key(other) && (
            before.contains_key(other) ==> after[other] == before[other])
        }),
{
    assert(list.push(last).drop_last() =~= list);
}

/// An account that is kept is kept under its id with its service, has to be written down, and changes
/// nothing of any other account.
pub proof fn law_an_account_is_kept_with_its_service(
    accounts: AccountsV,
    id: Seq<char>,
    other: Seq<char>,
    irc: IrcAccountV,
    discord: DiscordAccountV,
    sneedchat: SneedChatAccountV,
    matrix: MatrixAccountV,
    kick: KickAccountV,
)
    requires
        other != id,
    ensures
        ({
            let a = accounts.with_irc(id, irc);
            &&& a.unsaved && a.irc.contains_key(id) && a.irc[id] == irc
            &&& a.irc.contains_key(other) == accounts.irc.contains_key(other)
            &&& accounts.irc.contains_key(other) ==> a.irc[other] == accounts.irc[other]
            &&& a.discord == accounts.discord && a.sneedchat == accounts.sneedchat && a.matrix
                == accounts.matrix && a.kick == accounts.kick
        }),
        ({
            let a = accounts.with_discord(id, discord);
            &&& a.unsaved && a.discord.contains_key(id) && a.discord[id] == discord
            &&& a.discord.contains_key(other) == accounts.discord.contains_key(other)
            &&& accounts.discord.contains_key(other) ==> a.discord[other] == accounts.discord[other]
            &&& a.irc == accounts.irc && a.sneedchat == accounts.sneedchat && a.matrix
                == accounts.matrix && a.kick == accounts.kick
        }),
        ({
            let a = accounts.with_sneedchat(id, sneedchat);
            &&& a.unsaved && a.sneedchat.contains_key(id) && a.sneedchat[id] == sneedchat
            &&& a.sneedchat.contains_key(other) == accounts.sneedchat.contains_key(other)
            &&& accounts.sneedchat.contains_key(other) ==> a.sneedchat[other]
                == accounts.sneedchat[other]
            &&& a.irc == accounts.irc && a.discord == accounts.discord && a.matrix
                == accounts.matrix && a.kick == accounts.kick
        }),
        ({
            let a = accounts.with_matrix(id, matrix);
            &&& a.unsaved && a.matrix.contains_key(id) && a.matrix[id] == matrix
            &&& a.matrix.contains_key(other) == accounts.matrix.contains_key(other)
            &&& accounts.matrix.contains_key(other) ==> a.matrix[other] == accounts.matrix[other]
            &&& a.irc == accounts.irc && a.discord == accounts.discord && a.sneedchat
                == accounts.sneedchat && a.kick == accounts.kick
        }),
        ({
            let a = accounts.with_kick(id, kick);
            &&& a.unsaved && a.kick.contains_key(id) && a.kick[id] == kick
            &&& a.kick.contains_key(other) == accounts.kick.contains_key(other)
            &&& accounts.kick.contains_key(other) ==> a.kick[other] == accounts.kick[other]
            &&& a.irc == accounts.irc && a.discord == accounts.discord && a.sneedchat
                == accounts.sneedchat && a.matrix == accounts.matrix
        }),
{
}

/// An account that is removed is gone, where one service alone has it; every other account stays, and
/// where there was one the change has to be written down. Removing nobody changes nothing.
pub proof fn law_removing_takes_one_account(accounts: AccountsV, id: Seq<char>, other: Seq<char>)
    requires
        other != id,
    ensures
        ({
            let after = accounts.without(id);
            let (i, d, s, m, k) = (
                accounts.irc.contains_key(id),
                accounts.discord.contains_key(id),
                accounts.sneedchat.contains_key(id),
                accounts.matrix.contains_key(id),
                accounts.kick.contains_key(id),
            );
            &&& accounts.knows(id) <==> i || d || s || m || k
            &&& !accounts.knows(id) ==> after == accounts
            &&& accounts.knows(id) ==> after.unsaved
            &&& i ==> !after.irc.contains_key(id) && after.discord == accounts.discord
            &&& !i && d ==> !after.discord.contains_key(id) && after.sneedchat == accounts.sneedchat
            &&& !i && !d && s ==> !after.sneedchat.contains_key(id) && after.matrix
                == accounts.matrix
            &&& !i && !d && !s && m ==> !after.matrix.contains_key(id) && after.kick
                == accounts.kick
            &&& !i && !d && !s && !m && k ==> !after.kick.contains_key(id)
            &&& after.irc.contains_key(other) == accounts.irc.contains_key(other)
            &&& after.discord.contains_key(other) == accounts.discord.contains_key(other)
            &&& after.sneedchat.contains_key(other) == accounts.sneedchat.contains_key(other)
            &&& after.matrix.contains_key(other) == accounts.matrix.contains_key(other)
            &&& after.kick.contains_key(other) == accounts.kick.contains_key(other)
            &&& accounts.discord.contains_key(other) ==> after.discord[other]
                == accounts.discord[other]
        }),
{
}

/// Renaming an account changes what it is called here and nothing else of it: neither its secrets nor
/// what it is known by.
pub proof fn law_renaming_changes_the_name_alone(
    accounts: AccountsV,
    id: Seq<char>,
    name: Option<Seq<char>>,
)
    ensures
        ({
            let after = accounts.renamed(id, name);
            &&& accounts.irc.contains_key(id) ==> after.irc[id] == (IrcAccountV {
                display_name: name,
                ..accounts.irc[id]
            }) && after.unsaved
            &&& !accounts.irc.contains_key(id) && accounts.discord.contains_key(id) ==> {
                &&& after.discord[id].display_name == name
                &&& after.discord[id].token == accounts.discord[id].token
                &&& after.discord[id].user_id == accounts.discord[id].user_id
                &&& after.discord[id].username == accounts.discord[id].username
                &&& after.discord[id].avatar_url == accounts.discord[id].avatar_url
                &&& after.unsaved
            }
            &&& after.irc.dom() == accounts.irc.dom() && after.discord.dom()
                == accounts.discord.dom() && after.sneedchat.dom() == accounts.sneedchat.dom()
            &&& after.matrix.dom() == accounts.matrix.dom() && after.kick.dom()
                == accounts.kick.dom()
        }),
{
    let after = accounts.renamed(id, name);
    assert(after.irc.dom() =~= accounts.irc.dom());
    assert(after.discord.dom() =~= accounts.discord.dom());
    assert(after.sneedchat.dom() =~= accounts.sneedchat.dom());
    assert(after.matrix.dom() =~= accounts.matrix.dom());
    assert(after.kick.dom() =~= accounts.kick.dom());
}

/// What is given empty clears a setting and leaves a secret; what is not given at all leaves both.
pub proof fn law_empty_clears_settings_and_leaves_secrets(
    text: Seq<char>,
    kept: Option<Seq<char>>,
)
    requires
        text.len() > 0,
    ensures
        changed_setting(None, kept) == kept,
        changed_setting(Some(Seq::empty()), kept) is None,
        changed_setting(Some(text), kept) == Some(text),
        replaced_secret(Seq::empty(), kept) == kept,
        replaced_secret(text, kept) == Some(text),
        unless_empty(text) == Some(text),
        unless_empty(Seq::empty()) is None,
        unless_blank(None) is None,
        is_blank(text) ==> unless_blank(Some(text)) is None,
        !is_blank(text) ==> unless_blank(Some(text)) == Some(text),
{
}

/// A change of how an account signs in sets just what it says of that, and leaves the rest of the
/// account.
pub proof fn law_sasl_settings_are_changed_alone(a: IrcAccountV, change: SaslChange<'_>)
    ensures
        ({
            let after = with_sasl(a, change);
            &&& after.sasl == change.enabled
            &&& after.allow_plaintext_sasl == change.allow_plaintext
            &&& change.user@.len() > 0 ==> after.sasl_user == Some(change.user@)
            &&& change.user@.len() == 0 ==> after.sasl_user is None
            &&& change.password@.len() > 0 ==> after.password == Some(change.password@)
            &&& change.password@.len() == 0 ==> after.password == a.password
            &&& change.mechanism is None ==> after.sasl_mechanism == a.sasl_mechanism
            &&& change.cert_path is None ==> after.sasl_cert_path == a.sasl_cert_path
            &&& change.cert_pass is None ==> after.sasl_cert_pass == a.sasl_cert_pass
            &&& change.mechanism matches Some(t) ==> t@.len() > 0 ==> after.sasl_mechanism == Some(
                t@,
            )
            &&& change.cert_path matches Some(t) ==> t@.len() > 0 ==> after.sasl_cert_path == Some(
                t@,
            )
            &&& change.cert_pass matches Some(t) ==> t@.len() > 0 ==> after.sasl_cert_pass == Some(
                t@,
            )
            &&& change.mechanism matches Some(t) ==> t@.len() == 0 ==> after.sasl_mechanism is None
            &&& change.cert_path matches Some(t) ==> t@.len() == 0 ==> after.sasl_cert_path is None
            &&& change.cert_pass matches Some(t) ==> t@.len() == 0 ==> after.sasl_cert_pass is None
            &&& after.nick == a.nick && after.host == a.host && after.port == a.port && after.ssl
                == a.ssl
            &&& after.autojoin == a.autojoin && after.notify == a.notify && after.display_name
                == a.display_name
            &&& after.nickserv_password == a.nickserv_password && after.realname == a.realname
                && after.use_tor == a.use_tor && after.tor_proxy == a.tor_proxy
        }),
{
}

} // verus!
