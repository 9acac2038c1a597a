//! Laws of the handlers, stated over the store transitions that their
//! contracts use.
use vstd::prelude::*;
use crate::database::DatabaseView;
use crate::tables::{EntityComponent, Identity, PlayerView, StdbVector3, default_entity};

verus! {

/// The store after each of `ids` in turn calls `create_player` with the name at
/// the same position: a caller that already owns a player changes nothing.
pub open spec fn register_all(v: DatabaseView, ids: Seq<Identity>, names: Seq<Seq<char>>) -> DatabaseView
    decreases ids.len(),
{
    if ids.len() == 0 {
        v
    } else {
        let prev = register_all(v, ids.drop_last(), names.drop_last());
        if prev.has_player(ids.last()) {
            prev
        } else {
            prev.registered(ids.last(), names.last())
        }
    }
}

/// In a well-formed store the player owned by `id` is the one row it owns.
proof fn lemma_player_index(v: DatabaseView, id: Identity, i: int)
    requires
        v.wf(),
        0 <= i < v.players.len(),
        v.players[i].owner_id == id,
    ensures
        v.has_player(id),
        v.player_index(id) == i,
        v.player_of(id) == v.players[i],
{
    let k = v.player_index(id);
    assert(v.players[k].owner_id == id);
    if k != i {
        assert(v.players[k].owner_id != v.players[i].owner_id);
    }
}

/// A registration of a caller that owns no player keeps the store well formed.
pub proof fn lemma_registered_wf(v: DatabaseView, id: Identity, name: Seq<char>)
    requires
        v.wf(),
        !v.has_player(id),
        v.entities.len() < u64::MAX,
    ensures
        v.registered(id, name).wf(),
{
    let w = v.registered(id, name);
    let n = v.players.len();
    assert forall|i: int, j: int|
        0 <= i < w.players.len() && 0 <= j < w.players.len() && i != j implies w.players[i].owner_id
        != w.players[j].owner_id && w.players[i].entity_id != w.players[j].entity_id by {
        if i == n {
            assert(v.players[j].owner_id != id);
            assert(v.players[j].entity_id <= v.entities.len());
        } else if j == n {
            assert(v.players[i].owner_id != id);
            assert(v.players[i].entity_id <= v.entities.len());
        } else {
            assert(v.players[i].owner_id != v.players[j].owner_id);
        }
    }
    assert forall|j: int| 0 <= j < w.messages.len() implies w.is_player_entity(
        #[trigger] w.messages[j].sender_id,
    ) by {
        let s = w.messages[j].sender_id;
        assert(v.is_player_entity(s));
        let t = choose|k: int| 0 <= k < v.players.len() && v.players[k].entity_id == s;
        assert(w.players[t] == v.players[t]);
    }
}

/// Callers with pairwise distinct identities, registering one after another on
/// an empty store, each get a player row, in their order, each paired with its
/// own entity key, one greater than the previous.
pub proof fn lemma_distinct_registrations(ids: Seq<Identity>, names: Seq<Seq<char>>)
    requires
        ids.no_duplicates(),
        names.len() == ids.len(),
        ids.len() < u64::MAX,
    ensures
        ({
            let w = register_all(DatabaseView::empty(), ids, names);
            &&& w.wf()
            &&& w.players.len() == ids.len()
            &&& w.entities.len() == ids.len()
            &&& forall|i: int|
                0 <= i < ids.len() ==> #[trigger] w.players[i] == (PlayerView {
                    entity_id: (i + 1) as u64,
                    owner_id: ids[i],
                    username: names[i],
                    logged_in: true,
                })
            &&& forall|i: int, j: int|
                0 <= i < j < ids.len() ==> w.players[i].entity_id != w.players[j].entity_id
        }),
    decreases ids.len(),
{
    let w = register_all(DatabaseView::empty(), ids, names);
    if ids.len() == 0 {
        assert(w.wf());
    } else {
        let pi = ids.drop_last();
        let pn = names.drop_last();
        assert(pi.no_duplicates()) by {
            assert forall|a: int, b: int| 0 <= a < b < pi.len() implies pi[a] != pi[b] by {
                assert(pi[a] == ids[a] && pi[b] == ids[b]);
            }
        }
        lemma_distinct_registrations(pi, pn);
        let prev = register_all(DatabaseView::empty(), pi, pn);
        let n = pi.len();
        assert(!prev.has_player(ids.last())) by {
            if prev.has_player(ids.last()) {
                let k = choose|k: int| 0 <= k < prev.players.len() && prev.players[k].owner_id == ids.last();
                assert(prev.players[k].owner_id == pi[k]);
                assert(ids[k] == ids[n as int]);
            }
        }
        lemma_registered_wf(prev, ids.last(), names.last());
        assert(w == prev.registered(ids.last(), names.last()));
        assert forall|i: int| 0 <= i < ids.len() implies #[trigger] w.players[i] == (PlayerView {
            entity_id: (i + 1) as u64,
            owner_id: ids[i],
            username: names[i],
            logged_in: true,
        }) by {
            if i < n {
                assert(w.players[i] == prev.players[i]);
                assert(pi[i] == ids[i] && pn[i] == names[i]);
            }
        }
    }
}

/// Registering twice from one identity: the first call succeeds and leaves the
/// caller owning a player, so the second is refused; exactly one row, the new
/// one, is owned by the caller.
pub proof fn lemma_register_twice(v: DatabaseView, id: Identity, name: Seq<char>)
    requires
        v.wf(),
        !v.has_player(id),
        v.entities.len() < u64::MAX,
    ensures
        ({
            let w = v.registered(id, name);
            &&& w.wf()
            &&& w.has_player(id)
            &&& w.players.len() == v.players.len() + 1
            &&& forall|i: int|
                0 <= i < w.players.len() && #[trigger] w.players[i].owner_id == id ==> i == v.players.len()
        }),
{
    let w = v.registered(id, name);
    lemma_registered_wf(v, id, name);
    lemma_player_index(w, id, v.players.len() as int);
    assert forall|i: int|
        0 <= i < w.players.len() && #[trigger] w.players[i].owner_id == id implies i == v.players.len() by {
        if i < v.players.len() {
            assert(v.players[i].owner_id == id);
        }
    }
}

/// After a successful registration the caller's player is paired with an
/// entity row of the same key that holds the defaults.
pub proof fn lemma_registered_entity(v: DatabaseView, id: Identity, name: Seq<char>)
    requires
        v.wf(),
        !v.has_player(id),
        v.entities.len() < u64::MAX,
    ensures
        ({
            let w = v.registered(id, name);
            let k = v.next_entity_id();
            &&& w.player_of(id).entity_id == k
            &&& w.entity(k) == Some(default_entity(k))
        }),
{
    let w = v.registered(id, name);
    lemma_registered_wf(v, id, name);
    lemma_player_index(w, id, v.players.len() as int);
}

/// A movement update keeps the store well formed, and a read of the caller's
/// entity then yields exactly the values written.
pub proof fn lemma_move_round_trip(
    v: DatabaseView,
    id: Identity,
    position: StdbVector3,
    direction: u32,
    moving: bool,
)
    requires
        v.wf(),
        v.has_player(id),
    ensures
        ({
            let w = v.moved(id, position, direction, moving);
            let k = v.player_of(id).entity_id;
            &&& w.wf()
            &&& w.player_of(id) == v.player_of(id)
            &&& w.entity(k) == Some(EntityComponent { entity_id: k, position, direction, moving })
        }),
{
    let w = v.moved(id, position, direction, moving);
    let i = v.player_index(id);
    assert(w.players == v.players);
    assert forall|j: int| 0 <= j < w.entities.len() implies #[trigger] w.entities[j].entity_id == j + 1 by {
        assert(v.entities[j].entity_id == j + 1);
    }
}

/// Movement updates do not accumulate: the last write wins.
pub proof fn lemma_move_last_write_wins(
    v: DatabaseView,
    id: Identity,
    p1: StdbVector3,
    d1: u32,
    m1: bool,
    p2: StdbVector3,
    d2: u32,
    m2: bool,
)
    requires
        v.wf(),
        v.has_player(id),
    ensures
        v.moved(id, p1, d1, m1).moved(id, p2, d2, m2) == v.moved(id, p2, d2, m2),
{
    let w = v.moved(id, p1, d1, m1);
    assert(w.players == v.players);
    assert(w.moved(id, p2, d2, m2).entities =~= v.moved(id, p2, d2, m2).entities);
}

/// A chat post keeps the store well formed and appends one message whose key
/// exceeds the key of every earlier message, which stays as it was.
pub proof fn lemma_posted_ordering(v: DatabaseView, id: Identity, text: Seq<char>)
    requires
        v.wf(),
        v.has_player(id),
        v.messages.len() < u64::MAX,
    ensures
        ({
            let w = v.posted(id, text);
            &&& w.wf()
            &&& w.messages.len() == v.messages.len() + 1
            &&& forall|i: int|
                0 <= i < v.messages.len() ==> #[trigger] w.messages[i] == v.messages[i]
                    && w.messages[i].message_id < w.messages.last().message_id
        }),
{
    let w = v.posted(id, text);
    let i = v.player_index(id);
    assert(v.players[i].owner_id == id);
    assert forall|j: int| 0 <= j < w.messages.len() implies w.is_player_entity(
        #[trigger] w.messages[j].sender_id,
    ) by {
        if j == v.messages.len() {
            assert(w.players[i].entity_id == w.messages[j].sender_id);
        } else {
            assert(w.messages[j] == v.messages[j]);
        }
    }
}

/// Two successive chat posts, from any callers: the second gets the greater key.
pub proof fn lemma_successive_posts(
    v: DatabaseView,
    a: Identity,
    t1: Seq<char>,
    b: Identity,
    t2: Seq<char>,
)
    requires
        v.wf(),
        v.has_player(a),
        v.has_player(b),
        v.messages.len() + 1 < u64::MAX,
    ensures
        v.posted(a, t1).messages.last().message_id < v.posted(a, t1).posted(b, t2).messages.last().message_id,
{
    let w = v.posted(a, t1);
    lemma_posted_ordering(v, a, t1);
    assert(w.players == v.players);
    lemma_posted_ordering(w, b, t2);
    let n = v.messages.len() as int;
    assert(w.messages.last() == w.posted(b, t2).messages[n]);
}

/// Setting the login flag keeps the store well formed, sets the flag of the
/// caller's player if it has one, and leaves every other field and row as it was.
pub proof fn lemma_with_login(v: DatabaseView, id: Identity, logged_in: bool)
    requires
        v.wf(),
    ensures
        ({
            let w = v.with_login(id, logged_in);
            &&& w.wf()
            &&& w.players.len() == v.players.len()
            &&& forall|i: int|
                0 <= i < v.players.len() ==> (#[trigger] w.players[i]).entity_id == v.players[i].entity_id
                    && w.players[i].owner_id == v.players[i].owner_id
                    && w.players[i].username == v.players[i].username
                    && w.players[i].logged_in == (if v.players[i].owner_id == id {
                        logged_in
                    } else {
                        v.players[i].logged_in
                    })
            &&& v.has_player(id) ==> w.has_player(id) && w.player_of(id).logged_in == logged_in
            &&& !v.has_player(id) ==> w == v
        }),
{
    let w = v.with_login(id, logged_in);
    assert forall|i: int, j: int|
        0 <= i < w.players.len() && 0 <= j < w.players.len() && i != j implies w.players[i].owner_id
        != w.players[j].owner_id && w.players[i].entity_id != w.players[j].entity_id by {
        assert(v.players[i].owner_id != v.players[j].owner_id);
    }
    assert forall|j: int| 0 <= j < w.messages.len() implies w.is_player_entity(
        #[trigger] w.messages[j].sender_id,
    ) by {
        let s = w.messages[j].sender_id;
        assert(v.is_player_entity(s));
        let t = choose|k: int| 0 <= k < v.players.len() && v.players[k].entity_id == s;
        assert(w.players[t].entity_id == v.players[t].entity_id);
    }
    if v.has_player(id) {
        let i = v.player_index(id);
        lemma_player_index(w, id, i);
    } else {
        assert forall|i: int| 0 <= i < v.players.len() implies #[trigger] w.players[i] == v.players[i] by {
            assert(v.players[i].owner_id != id);
        }
        assert(w.players =~= v.players);
    }
}

/// Connect after registration sets the caller's flag, a following disconnect
/// clears it; a notification from a caller with no player adds no row and
/// changes nothing.
pub proof fn lemma_login_toggling(v: DatabaseView, id: Identity)
    requires
        v.wf(),
    ensures
        v.has_player(id) ==> v.with_login(id, true).player_of(id).logged_in,
        v.has_player(id) ==> !v.with_login(id, true).with_login(id, false).player_of(id).logged_in,
        !v.has_player(id) ==> v.with_login(id, true) == v && v.with_login(id, false) == v,
{
    lemma_with_login(v, id, true);
    lemma_with_login(v, id, false);
    lemma_with_login(v.with_login(id, true), id, false);
}

} // verus!
