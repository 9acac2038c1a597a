//! The state store: four tables held in memory, with per-table key allocation
//! and the unique owner index of the player table.
use vstd::prelude::*;
use crate::tables::{
    ChatMessage, ChatMessageView, Config, ConfigView, EntityComponent, Identity,
    PlayerComponent, PlayerView, ReducerError, StdbVector3, default_entity,
};

verus! {

/// The four tables. Auto-generated keys are dense: the row at index `i` of the
/// entity table and of the chat table has key `i + 1`, so the length of a table
/// is its allocation high-water mark, and a key is never issued twice.
pub struct Database {
    configs: Vec<Config>,
    entities: Vec<EntityComponent>,
    players: Vec<PlayerComponent>,
    messages: Vec<ChatMessage>,
    /// Unique secondary index of the player table: owners in strictly
    /// increasing order, each with the index of the row it owns.
    owner_index: Vec<(Identity, usize)>,
    /// Primary index of the player table, one flag per entity row: whether a
    /// player row is paired with that entity.
    paired: Vec<bool>,
}

/// Strict order of identities, by high word and then low word.
pub open spec fn id_lt(a: Identity, b: Identity) -> bool {
    a.hi < b.hi || (a.hi == b.hi && a.lo < b.lo)
}

/// Mathematical value of the whole store, one sequence of rows per table, in
/// order of insertion.
pub ghost struct DatabaseView {
    pub configs: Seq<ConfigView>,
    pub entities: Seq<EntityComponent>,
    pub players: Seq<PlayerView>,
    pub messages: Seq<ChatMessageView>,
}

impl View for Database {
    type V = DatabaseView;

    closed spec fn view(&self) -> DatabaseView {
        DatabaseView {
            configs: self.configs@.map_values(|c: Config| c@),
            entities: self.entities@,
            players: self.players@.map_values(|p: PlayerComponent| p@),
            messages: self.messages@.map_values(|m: ChatMessage| m@),
        }
    }
}

impl DatabaseView {
    /// The store with no rows at all.
    pub open spec fn empty() -> DatabaseView {
        DatabaseView {
            configs: Seq::empty(),
            entities: Seq::empty(),
            players: Seq::empty(),
            messages: Seq::empty(),
        }
    }

    pub open spec fn has_config(self, version: u32) -> bool {
        exists|i: int| 0 <= i < self.configs.len() && self.configs[i].version == version
    }

    /// Some player row is owned by `id`.
    pub open spec fn has_player(self, id: Identity) -> bool {
        exists|i: int| 0 <= i < self.players.len() && self.players[i].owner_id == id
    }

    /// Some player row is paired with entity `entity_id`.
    pub open spec fn is_player_entity(self, entity_id: u64) -> bool {
        exists|i: int| 0 <= i < self.players.len() && self.players[i].entity_id == entity_id
    }

    /// Index of the player row owned by `id` (meaningful when `has_player(id)`).
    pub open spec fn player_index(self, id: Identity) -> int {
        choose|i: int| 0 <= i < self.players.len() && self.players[i].owner_id == id
    }

    /// The player row owned by `id` (meaningful when `has_player(id)`).
    pub open spec fn player_of(self, id: Identity) -> PlayerView {
        self.players[self.player_index(id)]
    }

    /// The entity row keyed `entity_id`, when present.
    pub open spec fn entity(self, entity_id: u64) -> Option<EntityComponent> {
        if 1 <= entity_id <= self.entities.len() {
            Some(self.entities[entity_id - 1])
        } else {
            None
        }
    }

    /// Key that the entity table hands out next.
    pub open spec fn next_entity_id(self) -> u64 {
        (self.entities.len() + 1) as u64
    }

    /// Key that the chat table hands out next.
    pub open spec fn next_message_id(self) -> u64 {
        (self.messages.len() + 1) as u64
    }

    /// The store after `id` registers as `name`: a default entity under the next
    /// entity key, and a logged-in player row paired with it.
    pub open spec fn registered(self, id: Identity, name: Seq<char>) -> DatabaseView {
        let k = self.next_entity_id();
        DatabaseView {
            configs: self.configs,
            entities: self.entities.push(default_entity(k)),
            players: self.players.push(
                PlayerView { entity_id: k, owner_id: id, username: name, logged_in: true },
            ),
            messages: self.messages,
        }
    }

    /// The store after the entity of `id`'s player is overwritten in place.
    pub open spec fn moved(
        self,
        id: Identity,
        position: StdbVector3,
        direction: u32,
        moving: bool,
    ) -> DatabaseView {
        let k = self.player_of(id).entity_id;
        DatabaseView {
            configs: self.configs,
            entities: self.entities.update(
                k - 1,
                EntityComponent { entity_id: k, position, direction, moving },
            ),
            players: self.players,
            messages: self.messages,
        }
    }

    /// The store after the player rows owned by `id` get `logged_in` set to the flag.
    pub open spec fn with_login(self, id: Identity, logged_in: bool) -> DatabaseView {
        DatabaseView {
            configs: self.configs,
            entities: self.entities,
            players: self.players.map_values(
                |p: PlayerView|
                    if p.owner_id == id {
                        PlayerView { logged_in, ..p }
                    } else {
                        p
                    },
            ),
            messages: self.messages,
        }
    }

    /// The store after `id`'s player posts `text` under the next message key.
    pub open spec fn posted(self, id: Identity, text: Seq<char>) -> DatabaseView {
        DatabaseView {
            configs: self.configs,
            entities: self.entities,
            players: self.players,
            messages: self.messages.push(
                ChatMessageView {
                    message_id: self.next_message_id(),
                    sender_id: self.player_of(id).entity_id,
                    text,
                },
            ),
        }
    }

    /// The store after `row` is added to the config table.
    pub open spec fn with_config(self, row: ConfigView) -> DatabaseView {
        DatabaseView {
            configs: self.configs.push(row),
            entities: self.entities,
            players: self.players,
            messages: self.messages,
        }
    }

    /// Well-formedness: dense auto keys, unique config versions, every player
    /// paired with an existing entity, player keys and owners unique, every
    /// message sent by a player's entity.
    pub open spec fn wf(self) -> bool {
        &&& forall|i: int, j: int|
            #![trigger self.configs[i].version, self.configs[j].version]
            0 <= i < j < self.configs.len() ==> self.configs[i].version != self.configs[j].version
        &&& forall|i: int| 0 <= i < self.entities.len() ==> #[trigger] self.entities[i].entity_id == i + 1
        &&& forall|i: int|
            0 <= i < self.players.len() ==> 1 <= #[trigger] self.players[i].entity_id <= self.entities.len()
        &&& forall|i: int, j: int|
            #![trigger self.players[i].entity_id, self.players[j].entity_id]
            0 <= i < self.players.len() && 0 <= j < self.players.len() && i != j
                ==> self.players[i].entity_id != self.players[j].entity_id
        &&& forall|i: int, j: int|
            #![trigger self.players[i].owner_id, self.players[j].owner_id]
            0 <= i < self.players.len() && 0 <= j < self.players.len() && i != j
                ==> self.players[i].owner_id != self.players[j].owner_id
        &&& forall|i: int| 0 <= i < self.messages.len() ==> #[trigger] self.messages[i].message_id == i + 1
        &&& forall|i: int|
            0 <= i < self.messages.len() ==> self.is_player_entity(#[trigger] self.messages[i].sender_id)
    }
}

/// Row `i` of the player table has an entry in the owner index.
spec fn row_indexed(idx: Seq<(Identity, usize)>, i: int) -> bool {
    exists|k: int| 0 <= k < idx.len() && idx[k].1 == i
}

/// Some player row is paired with entity `entity_id`.
spec fn paired_with(players: Seq<PlayerComponent>, entity_id: int) -> bool {
    exists|t: int| 0 <= t < players.len() && players[t].entity_id == entity_id
}

/// The owner index and the pairing flags agree with the player table and
/// with the number of entity rows.
spec fn indexes_agree(
    ps: Seq<PlayerComponent>,
    idx: Seq<(Identity, usize)>,
    paired: Seq<bool>,
    n_entities: int,
) -> bool {
    &&& idx.len() == ps.len()
    &&& forall|k: int, l: int|
        #![trigger idx[k], idx[l]]
        0 <= k < l < idx.len() ==> id_lt(idx[k].0, idx[l].0)
    &&& forall|k: int|
        0 <= k < idx.len() ==> (#[trigger] idx[k]).1 < ps.len() && ps[idx[k].1 as int].owner_id == idx[k].0
    &&& forall|i: int| 0 <= i < ps.len() ==> #[trigger] row_indexed(idx, i)
    &&& paired.len() == n_entities
    &&& forall|e: int| 0 <= e < paired.len() ==> (#[trigger] paired[e] <==> paired_with(ps, e + 1))
}

impl Database {
    /// The store is well formed and its indexes agree with its tables.
    pub closed spec fn wf(&self) -> bool {
        self@.wf() && indexes_agree(self.players@, self.owner_index@, self.paired@, self.entities@.len() as int)
    }

    /// What well-formedness of the store says of its value.
    pub proof fn lemma_wf(&self)
        requires
            self.wf(),
        ensures
            self@.wf(),
    {
    }

    /// A store with empty tables.
    pub fn new() -> (r: Database)
        ensures
            r@ == DatabaseView::empty(),
            r.wf(),
    {
        let r = Database {
            configs: Vec::new(),
            entities: Vec::new(),
            players: Vec::new(),
            messages: Vec::new(),
            owner_index: Vec::new(),
            paired: Vec::new(),
        };
        proof {
            assert(r@.configs =~= Seq::empty());
            assert(r@.players =~= Seq::empty());
            assert(r@.messages =~= Seq::empty());
        }
        r
    }

    /// Position in the owner index before which every owner is less than
    /// `owner` and from which none is.
    fn owner_slot(&self, owner: Identity) -> (p: usize)
        requires
            self.wf(),
        ensures
            p <= self.owner_index@.len(),
            forall|k: int| 0 <= k < p ==> id_lt((#[trigger] self.owner_index@[k]).0, owner),
            forall|k: int| p <= k < self.owner_index@.len() ==> !id_lt((#[trigger] self.owner_index@[k]).0, owner),
    {
        let mut lo: usize = 0;
        let mut hi: usize = self.owner_index.len();
        while lo < hi
            invariant
                self.wf(),
                lo <= hi <= self.owner_index@.len(),
                forall|k: int| 0 <= k < lo ==> id_lt((#[trigger] self.owner_index@[k]).0, owner),
                forall|k: int| hi <= k < self.owner_index@.len() ==> !id_lt((#[trigger] self.owner_index@[k]).0, owner),
            decreases hi - lo,
        {
            let mid = lo + (hi - lo) / 2;
            let e = self.owner_index[mid].0;
            if e.hi < owner.hi || (e.hi == owner.hi && e.lo < owner.lo) {
                proof {
                    assert forall|k: int| 0 <= k < mid + 1 implies id_lt((#[trigger] self.owner_index@[k]).0, owner) by {
                        if k < mid {
                            assert(id_lt(self.owner_index@[k].0, self.owner_index@[mid as int].0));
                        }
                    }
                }
                lo = mid + 1;
            } else {
                proof {
                    assert forall|k: int| mid <= k < self.owner_index@.len() implies !id_lt((#[trigger] self.owner_index@[k]).0, owner) by {
                        if k > mid {
                            assert(id_lt(self.owner_index@[mid as int].0, self.owner_index@[k].0));
                        }
                    }
                }
                hi = mid;
            }
        }
        lo
    }

    /// Index of the player row owned by `owner`, through the owner index.
    fn player_index_of(&self, owner: Identity) -> (r: Option<usize>)
        requires
            self.wf(),
        ensures
            match r {
                Some(i) => i < self@.players.len() && i == self@.player_index(owner)
                    && self@.has_player(owner),
                None => !self@.has_player(owner),
            },
    {
        let p = self.owner_slot(owner);
        if p < self.owner_index.len() && self.owner_index[p].0 == owner {
            let i = self.owner_index[p].1;
            proof {
                let v = self@;
                assert(self.owner_index@[p as int].1 < self.players@.len());
                assert(v.players[i as int].owner_id == owner);
                assert(v.has_player(owner));
                let k = v.player_index(owner);
                assert(v.players[k].owner_id == owner);
                if k != i as int {
                    assert(v.players[k].owner_id != v.players[i as int].owner_id);
                }
            }
            Some(i)
        } else {
            proof {
                let v = self@;
                if v.has_player(owner) {
                    let i = choose|i: int| 0 <= i < v.players.len() && v.players[i].owner_id == owner;
                    assert(row_indexed(self.owner_index@, i));
                    let k = choose|k: int| 0 <= k < self.owner_index@.len() && self.owner_index@[k].1 == i;
                    assert(self.owner_index@[k].0 == owner);
                    if k > p as int {
                        assert(id_lt(self.owner_index@[p as int].0, self.owner_index@[k].0));
                    }
                }
            }
            None
        }
    }

    /// Resolves a caller to its player row, if it owns one.
    pub fn player_by_owner(&self, owner: Identity) -> (r: Option<&PlayerComponent>)
        requires
            self.wf(),
        ensures
            match r {
                Some(p) => self@.has_player(owner) && p@ == self@.player_of(owner),
                None => !self@.has_player(owner),
            },
    {
        match self.player_index_of(owner) {
            Some(i) => Some(&self.players[i]),
            None => None,
        }
    }

    /// The entity row keyed `entity_id`, if present.
    pub fn entity_by_id(&self, entity_id: u64) -> (r: Option<EntityComponent>)
        requires
            self.wf(),
        ensures
            r == self@.entity(entity_id),
    {
        if 1 <= entity_id && entity_id <= self.entities.len() as u64 {
            Some(self.entities[(entity_id - 1) as usize])
        } else {
            None
        }
    }

    /// The config row of `version`, if present.
    pub fn config_by_version(&self, version: u32) -> (r: Option<&Config>)
        requires
            self.wf(),
        ensures
            match r {
                Some(c) => c@.version == version && self@.has_config(version)
                    && exists|i: int| 0 <= i < self@.configs.len() && self@.configs[i] == c@,
                None => !self@.has_config(version),
            },
    {
        let mut i: usize = 0;
        while i < self.configs.len()
            invariant
                i <= self.configs@.len(),
                forall|j: int| 0 <= j < i ==> (#[trigger] self.configs@[j]).version != version,
            decreases self.configs@.len() - i,
        {
            if self.configs[i].version == version {
                proof {
                    assert(self@.configs[i as int] == self.configs@[i as int]@);
                }
                return Some(&self.configs[i]);
            }
            i += 1;
        }
        proof {
            let v = self@;
            assert forall|j: int| 0 <= j < v.configs.len() implies v.configs[j].version != version by {
                assert(self.configs@[j].version != version);
            }
        }
        None
    }

    /// The chat message keyed `message_id`, if present.
    pub fn message_by_id(&self, message_id: u64) -> (r: Option<&ChatMessage>)
        requires
            self.wf(),
        ensures
            match r {
                Some(m) => 1 <= message_id <= self@.messages.len() && m@ == self@.messages[message_id - 1],
                None => !(1 <= message_id <= self@.messages.len()),
            },
    {
        if 1 <= message_id && message_id <= self.messages.len() as u64 {
            Some(&self.messages[(message_id - 1) as usize])
        } else {
            None
        }
    }

    /// Number of rows in the player table.
    pub fn player_count(&self) -> (r: usize)
        ensures
            r == self@.players.len(),
    {
        self.players.len()
    }

    /// Number of rows in the entity table.
    pub fn entity_count(&self) -> (r: usize)
        ensures
            r == self@.entities.len(),
    {
        self.entities.len()
    }

    /// Number of rows in the chat table.
    pub fn message_count(&self) -> (r: usize)
        ensures
            r == self@.messages.len(),
    {
        self.messages.len()
    }

    /// The pairing of an entity, read on the rows or on their values.
    proof fn lemma_paired_with(&self, entity_id: u64)
        ensures
            paired_with(self.players@, entity_id as int) == self@.is_player_entity(entity_id),
    {
        if paired_with(self.players@, entity_id as int) {
            let t = choose|t: int| 0 <= t < self.players@.len() && self.players@[t].entity_id == entity_id;
            assert(self@.players[t].entity_id == entity_id);
        }
        if self@.is_player_entity(entity_id) {
            let t = choose|t: int| 0 <= t < self@.players.len() && self@.players[t].entity_id == entity_id;
            assert(self.players@[t]@.entity_id == entity_id);
        }
    }

    /// Whether a player row is paired with entity `entity_id`, through the
    /// pairing flags.
    fn is_paired(&self, entity_id: u64) -> (r: bool)
        requires
            self.wf(),
            1 <= entity_id <= self@.entities.len(),
        ensures
            r == self@.is_player_entity(entity_id),
    {
        let slots = self.paired.len();
        let pos: usize = (entity_id - 1) as usize;
        let r = self.paired[pos];
        proof {
            assert(entity_id <= slots);
            assert(self.paired@[pos as int] == r);
            self.lemma_paired_with(entity_id);
        }
        r
    }

    /// Inserts an entity row under a freshly allocated key, which it returns.
    pub(crate) fn insert_entity(&mut self, position: StdbVector3, direction: u32, moving: bool) -> (r: u64)
        requires
            old(self).wf(),
            old(self)@.entities.len() < u64::MAX,
        ensures
            r == old(self)@.next_entity_id(),
            final(self)@ == (DatabaseView {
                entities: old(self)@.entities.push(EntityComponent { entity_id: r, position, direction, moving }),
                ..old(self)@
            }),
            final(self).wf(),
    {
        let ghost pre = self@;
        let k = self.entities.len() as u64 + 1;
        self.entities.push(EntityComponent { entity_id: k, position, direction, moving });
        self.paired.push(false);
        proof {
            let ps = self.players@;
            assert(self@.players == pre.players);
            assert forall|e: int| 0 <= e < self.paired@.len() implies (#[trigger] self.paired@[e]
                <==> paired_with(ps, e + 1)) by {
                if e == pre.entities.len() {
                    if paired_with(ps, e + 1) {
                        let t = choose|t: int| 0 <= t < ps.len() && ps[t].entity_id == e + 1;
                        assert(pre.players[t].entity_id == ps[t].entity_id);
                        assert(pre.players[t].entity_id <= pre.entities.len());
                    }
                }
            }
        }
        k
    }

    /// Overwrites the entity row with the key of `row`; false when no such row exists.
    pub(crate) fn update_entity(&mut self, row: EntityComponent) -> (found: bool)
        requires
            old(self).wf(),
        ensures
            found == old(self)@.entity(row.entity_id).is_some(),
            found ==> final(self)@ == (DatabaseView {
                entities: old(self)@.entities.update(row.entity_id - 1, row),
                ..old(self)@
            }),
            !found ==> final(self)@ == old(self)@,
            final(self).wf(),
    {
        if 1 <= row.entity_id && row.entity_id <= self.entities.len() as u64 {
            self.entities.set((row.entity_id - 1) as usize, row);
            true
        } else {
            false
        }
    }

    /// Inserts a player row, refused when its key or its owner is taken.
    pub(crate) fn insert_player(&mut self, row: PlayerComponent) -> (r: Result<(), ReducerError>)
        requires
            old(self).wf(),
            1 <= row.entity_id <= old(self)@.entities.len(),
        ensures
            match r {
                Ok(()) => !old(self)@.is_player_entity(row.entity_id)
                    && !old(self)@.has_player(row.owner_id)
                    && final(self)@ == (DatabaseView {
                        players: old(self)@.players.push(row@),
                        ..old(self)@
                    }),
                Err(e) => e == ReducerError::DuplicateKey
                    && (old(self)@.is_player_entity(row.entity_id) || old(self)@.has_player(row.owner_id))
                    && final(self)@ == old(self)@,
            },
            final(self).wf(),
    {
        if self.is_paired(row.entity_id) {
            return Err(ReducerError::DuplicateKey);
        }
        if self.player_index_of(row.owner_id).is_some() {
            return Err(ReducerError::DuplicateKey);
        }
        let p = self.owner_slot(row.owner_id);
        let ghost pre = self@;
        let ghost pre_idx = self.owner_index@;
        let ghost pre_paired = self.paired@;
        let ghost pre_ps = self.players@;
        let n = self.players.len();
        let owner = row.owner_id;
        let e = row.entity_id;
        self.players.push(row);
        self.owner_index.insert(p, (owner, n));
        let slots = self.paired.len();
        proof {
            assert(e <= slots);
        }
        let pos: usize = (e - 1) as usize;
        self.paired.set(pos, true);
        proof {
            let idx = self.owner_index@;
            assert(idx =~= pre_idx.insert(p as int, (owner, n)));
            // no entry of the old index is owned by the new owner
            assert forall|k: int| 0 <= k < pre_idx.len() implies (#[trigger] pre_idx[k]).0 != owner by {
                assert(pre.players[pre_idx[k].1 as int].owner_id == pre_idx[k].0);
            }
            assert forall|k: int, l: int| 0 <= k < l < idx.len() implies id_lt(
                (#[trigger] idx[k]).0,
                (#[trigger] idx[l]).0,
            ) by {
                if l < p {
                    assert(id_lt(pre_idx[k].0, pre_idx[l].0));
                } else if l == p {
                    assert(id_lt(pre_idx[k].0, owner));
                } else if k == p {
                    assert(pre_idx[l - 1].0 != owner);
                    assert(!id_lt(pre_idx[l - 1].0, owner));
                } else if k < p {
                    assert(id_lt(pre_idx[k].0, pre_idx[l - 1].0));
                } else {
                    assert(id_lt(pre_idx[k - 1].0, pre_idx[l - 1].0));
                }
            }
            assert forall|k: int| 0 <= k < idx.len() implies (#[trigger] idx[k]).1 < self.players@.len()
                && self.players@[idx[k].1 as int].owner_id == idx[k].0 by {
                if k < p {
                    assert(idx[k] == pre_idx[k]);
                } else if k > p {
                    assert(idx[k] == pre_idx[k - 1]);
                }
            }
            assert forall|i: int| 0 <= i < self.players@.len() implies #[trigger] row_indexed(idx, i) by {
                if i == n {
                    assert(idx[p as int].1 == i);
                } else {
                    assert(pre.players.len() == n);
                    assert(row_indexed(pre_idx, i));
                    let k = choose|k: int| 0 <= k < pre_idx.len() && pre_idx[k].1 == i;
                    if k < p {
                        assert(idx[k].1 == i);
                    } else {
                        assert(idx[k + 1].1 == i);
                    }
                }
            }
            let v = self@;
            let ps = self.players@;
            assert(ps =~= pre_ps.push(row));
            assert(v.players =~= pre.players.push(row@));
            assert forall|x: int| 0 <= x < self.paired@.len() implies (#[trigger] self.paired@[x]
                <==> paired_with(ps, x + 1)) by {
                if x == pos as int {
                    assert(ps[n as int].entity_id == e);
                } else {
                    assert(self.paired@ == pre_paired.update(pos as int, true));
                    assert(self.paired@[x] == pre_paired[x]);
                    assert(x + 1 <= pre.entities.len());
                    if paired_with(ps, x + 1) {
                        let t = choose|t: int| 0 <= t < ps.len() && ps[t].entity_id == x + 1;
                        assert(t != n);
                        assert(pre_ps[t].entity_id == x + 1);
                    }
                    if paired_with(pre_ps, x + 1) {
                        let t = choose|t: int| 0 <= t < pre_ps.len() && pre_ps[t].entity_id == x + 1;
                        assert(ps[t] == pre_ps[t]);
                    }
                }
            }
            assert(self@.players =~= pre.players.push(row@));
            let v = self@;
            assert forall|j: int| 0 <= j < v.messages.len() implies v.is_player_entity(
                #[trigger] v.messages[j].sender_id,
            ) by {
                let s = v.messages[j].sender_id;
                assert(pre.is_player_entity(s));
                let t = choose|i: int| 0 <= i < pre.players.len() && pre.players[i].entity_id == s;
                assert(v.players[t] == pre.players[t]);
            }
        }
        Ok(())
    }

    /// Sets `logged_in` on the player row owned by `owner`; no change when none is.
    pub(crate) fn set_logged_in(&mut self, owner: Identity, logged_in: bool)
        requires
            old(self).wf(),
        ensures
            final(self)@ == old(self)@.with_login(owner, logged_in),
            final(self).wf(),
    {
        let ghost pre = self@;
        match self.player_index_of(owner) {
            Some(i) => {
                let row = PlayerComponent {
                    entity_id: self.players[i].entity_id,
                    owner_id: self.players[i].owner_id,
                    username: self.players[i].username.clone(),
                    logged_in,
                };
                let ghost pre_ps = self.players@;
                self.players.set(i, row);
                proof {
                    let ps = self.players@;
                    let idx = self.owner_index@;
                    assert forall|t: int| 0 <= t < ps.len() implies (#[trigger] ps[t]).owner_id
                        == pre_ps[t].owner_id && ps[t].entity_id == pre_ps[t].entity_id by {}
                    assert forall|k: int| 0 <= k < idx.len() implies (#[trigger] idx[k]).1 < ps.len()
                        && ps[idx[k].1 as int].owner_id == idx[k].0 by {
                        assert(pre_ps[idx[k].1 as int].owner_id == idx[k].0);
                    }
                    assert forall|x: int| 0 <= x < self.paired@.len() implies (#[trigger] self.paired@[x]
                        <==> paired_with(ps, x + 1)) by {
                        if paired_with(ps, x + 1) {
                            let t = choose|t: int| 0 <= t < ps.len() && ps[t].entity_id == x + 1;
                            assert(pre_ps[t].entity_id == x + 1);
                        }
                        if paired_with(pre_ps, x + 1) {
                            let t = choose|t: int| 0 <= t < pre_ps.len() && pre_ps[t].entity_id == x + 1;
                            assert(ps[t].entity_id == x + 1);
                        }
                    }
                    let post = pre.with_login(owner, logged_in);
                    assert forall|j: int| 0 <= j < pre.players.len() implies #[trigger] self@.players[j]
                        == post.players[j] by {
                        if j != i as int {
                            assert(pre.players[j].owner_id != pre.players[i as int].owner_id);
                        }
                    }
                    assert(self@.players =~= post.players);
                    assert(self@.configs =~= post.configs);
                    assert(self@.messages =~= post.messages);
                    let v = self@;
                    assert forall|j: int| 0 <= j < v.messages.len() implies v.is_player_entity(
                        #[trigger] v.messages[j].sender_id,
                    ) by {
                        let s = v.messages[j].sender_id;
                        assert(pre.is_player_entity(s));
                        let t = choose|k: int| 0 <= k < pre.players.len() && pre.players[k].entity_id == s;
                        assert(v.players[t].entity_id == pre.players[t].entity_id);
                    }
                }
            },
            None => {
                proof {
                    let post = pre.with_login(owner, logged_in);
                    assert forall|j: int| 0 <= j < pre.players.len() implies #[trigger] self@.players[j]
                        == post.players[j] by {
                        assert(pre.players[j].owner_id != owner);
                    }
                    assert(self@.players =~= post.players);
                }
            },
        }
    }

    /// Appends a chat message from entity `sender_id` under a freshly allocated key,
    /// which it returns.
    pub(crate) fn insert_message(&mut self, sender_id: u64, text: String) -> (r: u64)
        requires
            old(self).wf(),
            old(self)@.is_player_entity(sender_id),
            old(self)@.messages.len() < u64::MAX,
        ensures
            r == old(self)@.next_message_id(),
            final(self)@ == (DatabaseView {
                messages: old(self)@.messages.push(ChatMessageView { message_id: r, sender_id, text: text@ }),
                ..old(self)@
            }),
            final(self).wf(),
    {
        let ghost pre = self@;
        let k = self.messages.len() as u64 + 1;
        self.messages.push(ChatMessage { message_id: k, sender_id, text });
        proof {
            assert(self@.messages =~= pre.messages.push(ChatMessageView { message_id: k, sender_id, text: text@ }));
            let v = self@;
            assert(v.players == pre.players);
            assert forall|j: int| 0 <= j < v.messages.len() implies v.is_player_entity(
                #[trigger] v.messages[j].sender_id,
            ) by {
                if j < pre.messages.len() {
                    assert(v.messages[j] == pre.messages[j]);
                }
            }
        }
        k
    }

    /// Inserts a config row, refused when its version is taken.
    pub(crate) fn insert_config(&mut self, row: Config) -> (r: Result<(), ReducerError>)
        requires
            old(self).wf(),
        ensures
            match r {
                Ok(()) => !old(self)@.has_config(row.version) && final(self)@ == old(self)@.with_config(row@),
                Err(e) => e == ReducerError::DuplicateKey && old(self)@.has_config(row.version)
                    && final(self)@ == old(self)@,
            },
            final(self).wf(),
    {
        if self.config_by_version(row.version).is_some() {
            return Err(ReducerError::DuplicateKey);
        }
        let ghost pre = self@;
        self.configs.push(row);
        proof {
            assert(self@.configs =~= pre.configs.push(row@));
            let v = self@;
            assert(v.players == pre.players);
            assert(v.messages == pre.messages);
            assert forall|i: int, j: int| 0 <= i < j < v.configs.len() implies v.configs[i].version
                != v.configs[j].version by {
                if j == pre.configs.len() {
                    assert(pre.configs[i].version != row.version);
                } else {
                    assert(pre.configs[i].version != pre.configs[j].version);
                }
            }
        }
        Ok(())
    }
}

} // verus!
