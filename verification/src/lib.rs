pub mod components;
pub mod damage_system;
pub mod dungeon;
pub mod map;
pub mod map_indexing_system;
pub mod melee_combat_system;
pub mod monster_ai_system;
pub mod player;
pub mod random;
pub mod readiness;
pub mod rect32;
pub mod state;
pub mod visibility_system;
pub mod world;

pub use components::{
    BlocksTile, CombatStats, Entity, GridPosition, Monster, Name, Player, Point, SufferDamage,
    Viewshed, WantsToMelee,
};
pub use damage_system::{delete_the_dead, DamageSystem};
pub use map::{GridMap, TileType};
pub use map_indexing_system::MapIndexingSystem;
pub use melee_combat_system::MeleeCombatSystem;
pub use monster_ai_system::{MonsterAISystem, NavigationPath, PathRequest};
pub use player::{player_input, try_move_player};
pub use rect32::Rect32;
pub use state::{RunState, Stage, State};
pub use visibility_system::{ViewRequest, VisibilitySystem};
pub use world::{Actor, GameLog, LogEntry, World};
