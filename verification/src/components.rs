use vstd::prelude::*;

verus! {

/// The identity of an actor. It never changes while the actor lives.
pub type Entity = u32;

/// A cell of the grid.
#[derive(Clone, Copy, Debug, PartialEq, Eq, Structural)]
pub struct Point {
    pub x: i32,
    pub y: i32,
}

/// Where an actor stands.
#[derive(Clone, Copy, Debug, PartialEq, Eq, Structural)]
pub struct GridPosition {
    pub x: i32,
    pub y: i32,
}

/// Marks the actor that the person at the keyboard steers.
#[derive(Clone, Copy, Debug, PartialEq, Eq, Structural)]
pub struct Player {}

/// What an actor currently sees.
#[derive(Clone, Debug, PartialEq)]
pub struct Viewshed {
    /// The cells in view, each at most once.
    pub visible_tiles: Vec<Point>,
    /// How far the actor sees.
    pub range: i32,
    /// Set when the view has to be computed again.
    pub dirty: bool,
}

/// Marks an actor that the monster AI steers.
#[derive(Clone, Copy, Debug, PartialEq, Eq, Structural)]
pub struct Monster {}

/// What an actor is called in messages.
#[derive(Clone, Debug, PartialEq)]
pub struct Name {
    pub name: String,
}

/// Marks an actor that nobody else can walk onto.
#[derive(Clone, Copy, Debug, PartialEq, Eq, Structural)]
pub struct BlocksTile {}

/// The numbers that decide a fight.
#[derive(Clone, Copy, Debug, PartialEq, Eq, Structural)]
pub struct CombatStats {
    pub max_hp: i32,
    pub hp: i32,
    pub defense: i32,
    pub power: i32,
}

/// The wish to hit `target` this turn.
#[derive(Clone, Copy, Debug, PartialEq, Eq, Structural)]
pub struct WantsToMelee {
    pub target: Entity,
}

/// Damage dealt to an actor this turn and not yet taken from its hit points.
#[derive(Clone, Copy, Debug, PartialEq, Eq, Structural)]
pub struct SufferDamage {
    pub amount: i32,
}

} // verus!
