//! Row types of the four tables and the identity of a caller.
use vstd::prelude::*;

verus! {

/// Opaque, stable 256-bit token naming a caller, handed over by the session layer.
#[derive(Clone, Copy, Debug, Hash, PartialEq, Eq, Structural)]
pub struct Identity {
    pub hi: u128,
    pub lo: u128,
}

/// What a handler knows of its invocation: who made it.
#[derive(Clone, Copy, Debug)]
pub struct ReducerContext {
    pub sender: Identity,
}

/// Singleton configuration row, keyed by its version.
#[derive(Clone, Debug)]
pub struct Config {
    pub version: u32,
    pub message_of_the_day: String,
}

/// A point in the world. Each coordinate is held as the IEEE-754 bit pattern
/// of a single-precision float; the store only keeps and hands back these values.
#[derive(Clone, Copy, Debug, PartialEq, Eq, Structural)]
pub struct StdbVector3 {
    pub x: u32,
    pub y: u32,
    pub z: u32,
}

/// Anything placeable in the world. `direction` is a single-precision angle
/// held as its bit pattern, like the coordinates of `position`.
#[derive(Clone, Copy, Debug, PartialEq, Eq, Structural)]
pub struct EntityComponent {
    pub entity_id: u64,
    pub position: StdbVector3,
    pub direction: u32,
    pub moving: bool,
}

/// Registration record binding an identity to an entity, a name and an online flag.
#[derive(Clone, Debug)]
pub struct PlayerComponent {
    pub entity_id: u64,
    pub owner_id: Identity,
    pub username: String,
    pub logged_in: bool,
}

/// An entry of the append-only chat log.
#[derive(Clone, Debug)]
pub struct ChatMessage {
    pub message_id: u64,
    pub sender_id: u64,
    pub text: String,
}

/// Mathematical value of a `Config` row.
pub ghost struct ConfigView {
    pub version: u32,
    pub message_of_the_day: Seq<char>,
}

/// Mathematical value of a `PlayerComponent` row.
pub ghost struct PlayerView {
    pub entity_id: u64,
    pub owner_id: Identity,
    pub username: Seq<char>,
    pub logged_in: bool,
}

/// Mathematical value of a `ChatMessage` row.
pub ghost struct ChatMessageView {
    pub message_id: u64,
    pub sender_id: u64,
    pub text: Seq<char>,
}

impl View for Config {
    type V = ConfigView;

    open spec fn view(&self) -> ConfigView {
        ConfigView { version: self.version, message_of_the_day: self.message_of_the_day@ }
    }
}

impl View for PlayerComponent {
    type V = PlayerView;

    open spec fn view(&self) -> PlayerView {
        PlayerView {
            entity_id: self.entity_id,
            owner_id: self.owner_id,
            username: self.username@,
            logged_in: self.logged_in,
        }
    }
}

impl View for ChatMessage {
    type V = ChatMessageView;

    open spec fn view(&self) -> ChatMessageView {
        ChatMessageView { message_id: self.message_id, sender_id: self.sender_id, text: self.text@ }
    }
}

/// The origin, as bit patterns of `0.0`.
pub open spec fn origin() -> StdbVector3 {
    StdbVector3 { x: 0, y: 0, z: 0 }
}

/// The entity a newly registered player gets: at the origin, facing angle zero, still.
pub open spec fn default_entity(entity_id: u64) -> EntityComponent {
    EntityComponent { entity_id, position: origin(), direction: 0, moving: false }
}

/// Typed failures of the handlers and of the store.
#[derive(Clone, Copy, Debug, PartialEq, Eq, Structural)]
pub enum ReducerError {
    /// The caller already owns a player.
    AlreadyRegistered,
    /// The caller owns no player.
    NotRegistered,
    /// A player row exists without its paired entity row.
    InconsistentState,
    /// An insert collided with an existing key.
    DuplicateKey,
}

} // verus!
