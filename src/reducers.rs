//! Operations that callers invoke, and the session notifications. Each resolves
//! the caller's identity to its player first.
use vstd::prelude::*;
use crate::database::Database;
use crate::tables::{
    Config, ConfigView, PlayerComponent, ReducerContext, ReducerError, StdbVector3,
};

verus! {

/// Version key of the singleton config row.
pub const CONFIG_VERSION: u32 = 0;

/// Message of the day that bootstrap stores.
pub open spec fn default_motd() -> Seq<char> {
    "Hello, World!"@
}

/// The config row that bootstrap stores.
pub open spec fn default_config() -> ConfigView {
    ConfigView { version: CONFIG_VERSION, message_of_the_day: default_motd() }
}

/// Registers the caller as a player named `username`: a default entity under a
/// fresh key, then a logged-in player row paired with it. Returns the new key.
pub fn create_player(db: &mut Database, ctx: ReducerContext, username: String) -> (r: Result<
    u64,
    ReducerError,
>)
    requires
        old(db).wf(),
        old(db)@.entities.len() < u64::MAX,
    ensures
        final(db).wf(),
        old(db)@.has_player(ctx.sender) ==> r == Err::<u64, ReducerError>(
            ReducerError::AlreadyRegistered,
        ) && final(db)@ == old(db)@,
        !old(db)@.has_player(ctx.sender) ==> r == Ok::<u64, ReducerError>(old(db)@.next_entity_id())
            && final(db)@ == old(db)@.registered(ctx.sender, username@),
{
    proof {
        db.lemma_wf();
    }
    let owner_id = ctx.sender;
    if db.player_by_owner(owner_id).is_some() {
        return Err(ReducerError::AlreadyRegistered);
    }
    let ghost pre = db@;
    let entity_id = db.insert_entity(StdbVector3 { x: 0, y: 0, z: 0 }, 0, false);
    proof {
        let v = db@;
        assert(v.players == pre.players);
        assert(!v.has_player(owner_id));
        assert forall|i: int| 0 <= i < v.players.len() implies v.players[i].entity_id != entity_id by {
            assert(v.players[i].entity_id <= pre.entities.len());
        }
    }
    let ghost mid = db@;
    let row = PlayerComponent { entity_id, owner_id, username, logged_in: true };
    match db.insert_player(row) {
        Ok(()) => {
            proof {
                assert(db@.entities =~= pre.registered(owner_id, username@).entities);
                assert(db@.players =~= pre.registered(owner_id, username@).players);
            }
            Ok(entity_id)
        },
        Err(e) => {
            proof {
                assert(!mid.is_player_entity(entity_id));
            }
            Err(e)
        },
    }
}

/// Bootstrap of a fresh arena: stores the config row of version zero.
pub fn init(db: &mut Database)
    requires
        old(db).wf(),
        !old(db)@.has_config(CONFIG_VERSION),
    ensures
        final(db).wf(),
        final(db)@ == old(db)@.with_config(default_config()),
{
    let row = Config { version: CONFIG_VERSION, message_of_the_day: "Hello, World!".to_string() };
    let r = db.insert_config(row);
    proof {
        assert(r.is_ok());
    }
}

/// Session connect notification: marks the caller's player logged in, if any.
pub fn client_connected(db: &mut Database, ctx: ReducerContext)
    requires
        old(db).wf(),
    ensures
        final(db).wf(),
        final(db)@ == old(db)@.with_login(ctx.sender, true),
{
    update_player_login_state(db, ctx, true);
}

/// Session disconnect notification: marks the caller's player logged out, if any.
pub fn client_disconnected(db: &mut Database, ctx: ReducerContext)
    requires
        old(db).wf(),
    ensures
        final(db).wf(),
        final(db)@ == old(db)@.with_login(ctx.sender, false),
{
    update_player_login_state(db, ctx, false);
}

/// Sets the caller's player's `logged_in` flag in place; a caller that owns no
/// player changes nothing.
pub fn update_player_login_state(db: &mut Database, ctx: ReducerContext, logged_in: bool)
    requires
        old(db).wf(),
    ensures
        final(db).wf(),
        final(db)@ == old(db)@.with_login(ctx.sender, logged_in),
{
    db.set_logged_in(ctx.sender, logged_in);
}

/// Overwrites position, direction and motion of the caller's entity in place.
pub fn update_player_position(
    db: &mut Database,
    ctx: ReducerContext,
    position: StdbVector3,
    direction: u32,
    moving: bool,
) -> (r: Result<(), ReducerError>)
    requires
        old(db).wf(),
    ensures
        final(db).wf(),
        old(db)@.has_player(ctx.sender) ==> r == Ok::<(), ReducerError>(()) && final(db)@
            == old(db)@.moved(ctx.sender, position, direction, moving),
        !old(db)@.has_player(ctx.sender) ==> r == Err::<(), ReducerError>(ReducerError::NotRegistered)
            && final(db)@ == old(db)@,
{
    proof {
        db.lemma_wf();
    }
    let entity_id = match db.player_by_owner(ctx.sender) {
        Some(player) => player.entity_id,
        None => {
            return Err(ReducerError::NotRegistered);
        },
    };
    match db.entity_by_id(entity_id) {
        Some(entity) => {
            let mut entity = entity;
            entity.position = position;
            entity.direction = direction;
            entity.moving = moving;
            db.update_entity(entity);
            Ok(())
        },
        None => Err(ReducerError::InconsistentState),
    }
}

/// Appends `text` to the chat log under a fresh key, sent by the caller's entity.
pub fn send_chat_message(db: &mut Database, ctx: ReducerContext, text: String) -> (r: Result<
    (),
    ReducerError,
>)
    requires
        old(db).wf(),
        old(db)@.messages.len() < u64::MAX,
    ensures
        final(db).wf(),
        old(db)@.has_player(ctx.sender) ==> r == Ok::<(), ReducerError>(()) && final(db)@
            == old(db)@.posted(ctx.sender, text@),
        !old(db)@.has_player(ctx.sender) ==> r == Err::<(), ReducerError>(ReducerError::NotRegistered)
            && final(db)@ == old(db)@,
{
    proof {
        db.lemma_wf();
    }
    match db.player_by_owner(ctx.sender) {
        Some(player) => {
            let sender_id = player.entity_id;
            proof {
                let v = db@;
                let i = v.player_index(ctx.sender);
                assert(v.players[i].entity_id == sender_id);
            }
            let ghost pre = db@;
            db.insert_message(sender_id, text);
            proof {
                assert(db@ == pre.posted(ctx.sender, text@));
            }
            Ok(())
        },
        None => Err(ReducerError::NotRegistered),
    }
}

} // verus!
