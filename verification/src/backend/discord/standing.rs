//! What is known of this account's own standing in each server: its roles, and whether a gate
//! still keeps it out.
use vstd::prelude::*;
use crate::text::{holds, texts};
use crate::text_map::TextMap;
use super::dispatches::should_resync;

verus! {

/// What is known of this account's standing.
#[verifier::ext_equal]
pub struct StandingV {
    /// The roles it has, by server. Their order means nothing.
    pub roles: Map<Seq<char>, Set<Seq<char>>>,
    /// The servers whose gate it has not passed.
    pub gated: Set<Seq<char>>,
}

pub struct Standing {
    roles: TextMap<Vec<String>>,
    gated: TextMap<bool>,
}

spec fn role_sets(roles: Map<Seq<char>, Vec<String>>) -> Map<Seq<char>, Set<Seq<char>>> {
    Map::new(|k: Seq<char>| roles.contains_key(k), |k: Seq<char>| texts(roles[k]@).to_set())
}

impl View for Standing {
    type V = StandingV;

    closed spec fn view(&self) -> StandingV {
        StandingV { roles: role_sets(self.roles@), gated: self.gated@.dom() }
    }
}

impl StandingV {
    /// Whether `roles` differ from those known of a server. Of a server of which none are known
    /// they do not: they are where the comparing starts.
    pub open spec fn would_change(self, group_id: Seq<char>, roles: Set<Seq<char>>) -> bool {
        self.roles.contains_key(group_id) && self.roles[group_id] != roles
    }

    pub open spec fn with_roles(self, group_id: Seq<char>, roles: Set<Seq<char>>) -> StandingV {
        StandingV { roles: self.roles.insert(group_id, roles), ..self }
    }

    pub open spec fn with_gate(self, group_id: Seq<char>, pending: bool) -> StandingV {
        StandingV {
            gated: if pending {
                self.gated.insert(group_id)
            } else {
                self.gated.remove(group_id)
            },
            ..self
        }
    }
}

/// Whether every text of one list is in another.
fn within(a: &Vec<String>, b: &Vec<String>) -> (r: bool)
    ensures
        r == texts(a@).to_set().subset_of(texts(b@).to_set()),
{
    let mut i: usize = 0;
    while i < a.len()
        invariant
            i <= a.len(),
            forall|j: int| 0 <= j < i ==> texts(b@).contains(#[trigger] texts(a@)[j]),
        decreases a.len() - i,
    {
        assert(texts(a@)[i as int] == a@[i as int]@);
        if !holds(b, a[i].as_str()) {
            assert(texts(a@).to_set().contains(texts(a@)[i as int]));
            return false;
        }
        i += 1;
    }
    true
}

impl Standing {
    pub fn new() -> (r: Standing)
        ensures
            r@.roles == Map::<Seq<char>, Set<Seq<char>>>::empty(),
            r@.gated == Set::<Seq<char>>::empty(),
    {
        let r = Standing { roles: TextMap::new(), gated: TextMap::new() };
        assert(r@.roles =~= Map::<Seq<char>, Set<Seq<char>>>::empty());
        assert(r@.gated =~= Set::<Seq<char>>::empty());
        r
    }

    /// Remembers the roles of a server: whether they are others than before.
    pub fn set_discord_own_roles(&mut self, group_id: &str, roles: Vec<String>) -> (r: bool)
        ensures
            r == old(self)@.would_change(group_id@, texts(roles@).to_set()),
            final(self)@ == old(self)@.with_roles(group_id@, texts(roles@).to_set()),
    {
        let changed = match self.roles.get(group_id) {
            Some(known) => {
                let same = within(known, &roles) && within(&roles, known);
                assert(same ==> texts(known@).to_set() =~= texts(roles@).to_set());
                !same
            },
            None => false,
        };
        let ghost before = self.roles@;
        let ghost set = texts(roles@).to_set();
        self.roles.insert(group_id, roles);
        assert(role_sets(self.roles@) =~= role_sets(before).insert(group_id@, set));
        changed
    }

    /// Remembers whether a gate keeps this account out of a server.
    pub fn note_discord_gated(&mut self, group_id: &str, pending: bool)
        ensures
            final(self)@ == old(self)@.with_gate(group_id@, pending),
    {
        let ghost before = self.gated@;
        if pending {
            self.gated.insert(group_id, true);
            assert(self.gated@.dom() =~= before.dom().insert(group_id@));
        } else {
            let _ = self.gated.remove(group_id);
            assert(self.gated@.dom() =~= before.dom().remove(group_id@));
        }
    }

    /// Whether a gate kept this account out of a server, which is then forgotten.
    pub fn take_discord_gated(&mut self, group_id: &str) -> (r: bool)
        ensures
            r == old(self)@.gated.contains(group_id@),
            final(self)@ == old(self)@.with_gate(group_id@, false),
    {
        let ghost before = self.gated@;
        let gated = self.gated.remove(group_id).is_some();
        assert(self.gated@.dom() =~= before.dom().remove(group_id@));
        gated
    }

    /// This account's membership of a server changed and is not pending any more: whether the
    /// server has to be read again.
    pub fn own_member_changed(&mut self, group_id: &str, roles: Vec<String>) -> (r: bool)
        ensures
            r == (old(self)@.gated.contains(group_id@) || old(self)@.would_change(
                group_id@,
                texts(roles@).to_set(),
            )),
            final(self)@ == old(self)@.with_gate(group_id@, false).with_roles(
                group_id@,
                texts(roles@).to_set(),
            ),
    {
        let was_gated = self.take_discord_gated(group_id);
        let roles_changed = self.set_discord_own_roles(group_id, roles);
        should_resync(was_gated, roles_changed)
    }
}

/// Only a real change counts: the first roles of a server are no change, neither are the same
/// ones again, and any others are.
pub proof fn law_only_a_real_change_counts(
    known: StandingV,
    group_id: Seq<char>,
    roles: Set<Seq<char>>,
    others: Set<Seq<char>>,
)
    requires
        roles != others,
    ensures
        !known.roles.contains_key(group_id) ==> !known.would_change(group_id, roles),
        !known.with_roles(group_id, roles).would_change(group_id, roles),
        known.with_roles(group_id, roles).would_change(group_id, others),
{
}

/// A server that was gated is owed one reading, and one that was not is owed none.
pub proof fn law_a_gate_is_owed_once(known: StandingV, group_id: Seq<char>)
    ensures
        known.with_gate(group_id, true).gated.contains(group_id),
        !known.with_gate(group_id, true).with_gate(group_id, false).gated.contains(group_id),
        !known.with_gate(group_id, false).gated.contains(group_id),
{
}

/// Roles are remembered of the server that they are of, and a gate is noted of its own; everything that
/// is known of other servers stays, and so does the other of the two.
pub proof fn law_standing_is_kept_server_by_server(
    standing: StandingV,
    group_id: Seq<char>,
    roles: Set<Seq<char>>,
    pending: bool,
    other: Seq<char>,
)
    requires
        other != group_id,
    ensures
        ({
            let after = standing.with_roles(group_id, roles);
            &&& after.gated == standing.gated
            &&& after.roles.contains_key(group_id) && after.roles[group_id] == roles
            &&& after.roles.contains_key(other) == standing.roles.contains_key(other)
            &&& standing.roles.contains_key(other) ==> after.roles[other] == standing.roles[other]
        }),
        ({
            let after = standing.with_gate(group_id, pending);
            &&& after.roles == standing.roles
            &&& after.gated.contains(group_id) == pending
            &&& after.gated.contains(other) == standing.gated.contains(other)
        }),
        standing.would_change(group_id, roles) <==> standing.roles.contains_key(group_id)
            && standing.roles[group_id] != roles,
        !standing.with_roles(group_id, roles).would_change(group_id, roles),
{
}

} // verus!
