//! The table of registered players.

use vstd::prelude::*;
use dashmap::DashMap;
use crate::coord::Coord;
use crate::player::{views_of, Player, PlayerView};

verus! {

/// `dashmap::DashMap`: the table that the registry keeps its players in.
/// What it holds is spoken of as [`entries`].
#[verifier::external_type_specification]
#[verifier::external_body]
#[verifier::reject_recursive_types(K)]
#[verifier::reject_recursive_types(V)]
#[verifier::reject_recursive_types(S)]
pub struct ExDashMap<K, V, S>(DashMap<K, V, S>);

/// The entries that a table holds: each key with the player stored under it.
pub uninterp spec fn entries(table: DashMap<String, Player>) -> Map<Seq<char>, PlayerView>;

/// `DashMap::new`: a table without entries.
#[verifier::external_body]
fn table_new() -> (table: DashMap<String, Player>)
    ensures
        entries(table) =~= Map::empty(),
{
    DashMap::new()
}

/// `DashMap::insert`: afterwards the key maps to the given player and
/// every other key is as before; the player that the key mapped to before,
/// if any, is returned.
#[verifier::external_body]
fn table_insert(
    table: &mut DashMap<String, Player>,
    key: String,
    player: Player,
) -> (prior: Option<Player>)
    ensures
        entries(*final(table)) == entries(*old(table)).insert(key@, player@),
        prior is Some <==> entries(*old(table)).contains_key(key@),
        prior matches Some(p) ==> p@ == entries(*old(table))[key@],
{
    table.insert(key, player)
}

/// `DashMap::remove`: afterwards the key is absent and every other key is
/// as before; the player that the key mapped to before, if any, is returned.
#[verifier::external_body]
fn table_remove(table: &mut DashMap<String, Player>, key: &str) -> (prior: Option<Player>)
    ensures
        entries(*final(table)) == entries(*old(table)).remove(key@),
        prior is Some <==> entries(*old(table)).contains_key(key@),
        prior matches Some(p) ==> p@ == entries(*old(table))[key@],
{
    table.remove(key).map(|entry| entry.1)
}

/// `DashMap::get`: a copy of the player that the key maps to, if any.
#[verifier::external_body]
fn table_get(table: &DashMap<String, Player>, key: &str) -> (found: Option<Player>)
    ensures
        found is Some <==> entries(*table).contains_key(key@),
        found matches Some(p) ==> p@ == entries(*table)[key@],
{
    table.get(key).map(|entry| entry.value().clone())
}

/// `DashMap::iter`, collected: every entry of the table exactly once, as
/// copies of its key and player, in an order that the table chooses.
#[verifier::external_body]
fn table_list(table: &DashMap<String, Player>) -> (listing: Vec<(String, Player)>)
    ensures
        listing@.len() == entries(*table).dom().len(),
        forall|i: int|
            0 <= i < listing@.len() ==> #[trigger] entries(*table).contains_key(listing@[i].0@),
        forall|i: int|
            0 <= i < listing@.len() ==> entries(*table)[#[trigger] listing@[i].0@] == listing@[i].1@,
        forall|i: int, j: int|
            0 <= i < j < listing@.len() ==> #[trigger] listing@[i].0@ != #[trigger] listing@[j].0@,
        forall|k: Seq<char>| #[trigger]
            entries(*table).contains_key(k) ==> exists|i: int|
                0 <= i < listing@.len() && #[trigger] listing@[i].0@ == k,
{
    table.iter().map(|entry| (entry.key().clone(), entry.value().clone())).collect()
}

/// Why the registry turned an operation down.
#[derive(Clone, Copy, Debug, PartialEq, Eq, Structural)]
pub enum RegistryError {
    /// A player with the same id is registered already.
    DuplicateId,
}

/// Whether `list` names every player of `players` exactly once.
pub open spec fn lists_exactly(list: Seq<PlayerView>, players: Map<Seq<char>, PlayerView>) -> bool {
    &&& list.len() == players.dom().len()
    &&& forall|i: int|
        0 <= i < list.len() ==> players.contains_key(#[trigger] list[i].id) && players[list[i].id] == list[i]
    &&& forall|i: int, j: int| 0 <= i < j < list.len() ==> #[trigger] list[i].id != #[trigger] list[j].id
    &&& forall|k: Seq<char>| #[trigger]
        players.contains_key(k) ==> exists|i: int| 0 <= i < list.len() && #[trigger] list[i].id == k
}

/// The players that are registered, found by their ids.
pub struct Registry {
    table: DashMap<String, Player>,
}

impl Registry {
    /// Every player is stored under its own id, and there are finitely many.
    pub closed spec fn wf(&self) -> bool {
        &&& entries(self.table).dom().finite()
        &&& forall|k: Seq<char>| #[trigger] entries(self.table).contains_key(k) ==> entries(self.table)[k].id == k
    }

    /// The registered players by id.
    pub closed spec fn view(&self) -> Map<Seq<char>, PlayerView> {
        entries(self.table)
    }

    /// What holds of every well-formed registry.
    pub proof fn lemma_invariant(&self)
        requires
            self.wf(),
        ensures
            self@.dom().finite(),
            forall|id: Seq<char>| #[trigger] self@.contains_key(id) ==> self@[id].id == id,
    {
    }

    /// A registry without players.
    pub fn new() -> (r: Registry)
        ensures
            r.wf(),
            r@ =~= Map::empty(),
    {
        Registry { table: table_new() }
    }

    /// Registers a player under its id, unless that id is taken.
    pub fn add_player(&mut self, player: Player) -> (r: Result<String, RegistryError>)
        requires
            old(self).wf(),
        ensures
            final(self).wf(),
            old(self)@.contains_key(player@.id) ==> r == Err::<String, RegistryError>(
                RegistryError::DuplicateId,
            ) && final(self)@ == old(self)@,
            !old(self)@.contains_key(player@.id) ==> r is Ok && r->Ok_0@ == player@.id && final(self)@ == old(
                self)@.insert(player@.id, player@),
    {
        let taken = table_get(&self.table, player.id.as_str());
        if taken.is_some() {
            return Err(RegistryError::DuplicateId);
        }
        let id = player.id.clone();
        let key = player.id.clone();
        let _ = table_insert(&mut self.table, key, player);
        Ok(id)
    }

    /// Removes the player with the given id, and says whether there was one.
    pub fn remove_player(&mut self, id: &str) -> (removed: bool)
        requires
            old(self).wf(),
        ensures
            final(self).wf(),
            removed == old(self)@.contains_key(id@),
            final(self)@ == old(self)@.remove(id@),
    {
        let prior = table_remove(&mut self.table, id);
        prior.is_some()
    }

    /// Moves a player to the requested position, clamped onto the field, and
    /// notes when it was seen. Hands back the position as stored, or `None`
    /// where nobody has that id.
    pub fn move_player(&mut self, id: &str, x: Coord, y: Coord, now: u64) -> (stored: Option<(Coord, Coord)>)
        requires
            old(self).wf(),
        ensures
            final(self).wf(),
            !old(self)@.contains_key(id@) ==> stored is None && final(self)@ == old(self)@,
            old(self)@.contains_key(id@) ==> stored == Some((x.field_x(), y.field_y())) && final(self)@ == old(
                self)@.insert(
                id@,
                PlayerView { x: x.field_x(), y: y.field_y(), last_seen: now, ..old(self)@[id@] },
            ),
    {
        match table_get(&self.table, id) {
            None => None,
            Some(player) => {
                let cx = x.clamp_x();
                let cy = y.clamp_y();
                let key = player.id.clone();
                let moved = Player {
                    id: player.id,
                    nickname: player.nickname,
                    x: cx,
                    y: cy,
                    color: player.color,
                    last_seen: now,
                };
                let _ = table_insert(&mut self.table, key, moved);
                Some((cx, cy))
            },
        }
    }

    /// Gives a player another nickname, and says whether anybody has that id.
    pub fn rename_player(&mut self, id: &str, nickname: String) -> (renamed: bool)
        requires
            old(self).wf(),
        ensures
            final(self).wf(),
            renamed == old(self)@.contains_key(id@),
            !renamed ==> final(self)@ == old(self)@,
            renamed ==> final(self)@ == old(self)@.insert(
                id@,
                PlayerView { nickname: nickname@, ..old(self)@[id@] },
            ),
    {
        match table_get(&self.table, id) {
            None => false,
            Some(player) => {
                let key = player.id.clone();
                let renamed = Player {
                    id: player.id,
                    nickname: nickname,
                    x: player.x,
                    y: player.y,
                    color: player.color,
                    last_seen: player.last_seen,
                };
                let _ = table_insert(&mut self.table, key, renamed);
                true
            },
        }
    }

    /// A copy of the player with the given id, if there is one.
    pub fn get(&self, id: &str) -> (found: Option<Player>)
        requires
            self.wf(),
        ensures
            found is Some <==> self@.contains_key(id@),
            found matches Some(p) ==> p@ == self@[id@] && p@.id == id@,
    {
        table_get(&self.table, id)
    }

    /// Copies of all registered players, each once, in no particular order.
    pub fn snapshot(&self) -> (list: Vec<Player>)
        requires
            self.wf(),
        ensures
            lists_exactly(views_of(list@), self@),
    {
        let listing = table_list(&self.table);
        let mut list: Vec<Player> = Vec::new();
        let mut i: usize = 0;
        while i < listing.len()
            invariant
                0 <= i <= listing.len(),
                list@.len() == i,
                forall|j: int| 0 <= j < i ==> (#[trigger] list@[j])@ == listing@[j].1@,
            decreases listing.len() - i,
        {
            list.push(listing[i].1.clone());
            i += 1;
        }
        proof {
            let views = views_of(list@);
            let players = self@;
            assert forall|j: int| 0 <= j < views.len() implies players.contains_key(#[trigger] views[j].id)
                && players[views[j].id] == views[j] by {
                assert(list@[j]@ == listing@[j].1@);
                assert(players.contains_key(listing@[j].0@));
                assert(players[listing@[j].0@] == listing@[j].1@);
            }
            assert forall|a: int, b: int| 0 <= a < b < views.len() implies #[trigger] views[a].id
                != #[trigger] views[b].id by {
                assert(list@[a]@ == listing@[a].1@);
                assert(list@[b]@ == listing@[b].1@);
                assert(players.contains_key(listing@[a].0@));
                assert(players.contains_key(listing@[b].0@));
                assert(players[listing@[a].0@] == listing@[a].1@);
                assert(players[listing@[b].0@] == listing@[b].1@);
                assert(listing@[a].0@ != listing@[b].0@);
            }
            assert forall|k: Seq<char>| #[trigger] players.contains_key(k) implies exists|j: int|
                0 <= j < views.len() && #[trigger] views[j].id == k by {
                let j = choose|j: int| 0 <= j < listing@.len() && #[trigger] listing@[j].0@ == k;
                assert(list@[j]@ == listing@[j].1@);
                assert(players[listing@[j].0@] == listing@[j].1@);
                assert(views[j].id == k);
            }
        }
        list
    }
}

} // verus!
