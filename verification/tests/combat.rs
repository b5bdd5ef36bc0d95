use dungeon_sim::{
    delete_the_dead, Actor, CombatStats, DamageSystem, GridMap, LogEntry, MeleeCombatSystem, Name,
    Player, SufferDamage, WantsToMelee, World,
};

fn fighter(entity: u32, name: &str, hp: i32, defense: i32, power: i32) -> Actor {
    let mut actor = Actor::new(entity);
    actor.name = Some(Name { name: name.to_string() });
    actor.combat_stats = Some(CombatStats { max_hp: 30, hp, defense, power });
    actor
}

fn arena(actors: Vec<Actor>) -> World {
    let mut world = World::new(GridMap::new(5, 5));
    world.actors = actors;
    world
}

fn hp_of(world: &World, entity: u32) -> i32 {
    let place = world.find(entity).unwrap();
    world.actors[place].combat_stats.unwrap().hp
}

#[test]
fn a_blow_deals_power_less_defense() {
    let mut attacker = fighter(1, "Player", 30, 2, 5);
    attacker.wants_to_melee = Some(WantsToMelee { target: 2 });
    let mut world = arena(vec![attacker, fighter(2, "Goblin", 16, 2, 4)]);
    MeleeCombatSystem {}.run(&mut world);
    assert_eq!(world.actors[1].suffer_damage, Some(SufferDamage { amount: 3 }));
    assert_eq!(world.actors[0].suffer_damage, None);
    assert_eq!(world.actors[0].wants_to_melee, None);
    assert_eq!(
        world.log.entries,
        vec![LogEntry::Hit {
            attacker: "Player".to_string(),
            target: "Goblin".to_string(),
            damage: 3
        }]
    );
    // the hit points are untouched until the damage is applied
    assert_eq!(hp_of(&world, 2), 16);
    DamageSystem {}.run(&mut world);
    assert_eq!(hp_of(&world, 2), 13);
    assert_eq!(world.actors[1].suffer_damage, None);
}

#[test]
fn a_blow_too_weak_deals_nothing() {
    let mut attacker = fighter(1, "Rat", 5, 0, 1);
    attacker.wants_to_melee = Some(WantsToMelee { target: 2 });
    let mut world = arena(vec![attacker, fighter(2, "Knight", 20, 5, 9)]);
    MeleeCombatSystem {}.run(&mut world);
    assert_eq!(world.actors[1].suffer_damage, None);
    assert_eq!(world.actors[0].wants_to_melee, None);
    assert_eq!(
        world.log.entries,
        vec![LogEntry::UnableToHurt { attacker: "Rat".to_string(), target: "Knight".to_string() }]
    );
    DamageSystem {}.run(&mut world);
    assert_eq!(hp_of(&world, 2), 20);
}

#[test]
fn blows_on_one_target_add_up() {
    let mut a = fighter(1, "Goblin", 16, 1, 4);
    a.wants_to_melee = Some(WantsToMelee { target: 9 });
    let mut b = fighter(2, "Orc", 16, 1, 6);
    b.wants_to_melee = Some(WantsToMelee { target: 9 });
    let mut c = fighter(3, "Bat", 3, 0, 2);
    c.wants_to_melee = Some(WantsToMelee { target: 9 });
    let mut world = arena(vec![a, fighter(9, "Player", 30, 2, 5), b, c]);
    MeleeCombatSystem {}.run(&mut world);
    // 2 from the goblin, 4 from the orc, nothing from the bat
    assert_eq!(world.actors[1].suffer_damage, Some(SufferDamage { amount: 6 }));
    assert_eq!(world.log.entries.len(), 3);
    assert_eq!(
        world.log.entries[2],
        LogEntry::UnableToHurt { attacker: "Bat".to_string(), target: "Player".to_string() }
    );
    DamageSystem {}.run(&mut world);
    assert_eq!(hp_of(&world, 9), 24);
    assert!(world.actors.iter().all(|a| a.suffer_damage.is_none()));
}

#[test]
fn the_dead_neither_hit_nor_are_hit() {
    let mut dead = fighter(1, "Ghost", 0, 0, 9);
    dead.wants_to_melee = Some(WantsToMelee { target: 2 });
    let mut living = fighter(2, "Goblin", 16, 1, 4);
    living.wants_to_melee = Some(WantsToMelee { target: 3 });
    let corpse = fighter(3, "Corpse", -2, 0, 1);
    let mut world = arena(vec![dead, living, corpse]);
    MeleeCombatSystem {}.run(&mut world);
    assert!(world.log.entries.is_empty());
    assert!(world.actors.iter().all(|a| a.suffer_damage.is_none()));
    assert!(world.actors.iter().all(|a| a.wants_to_melee.is_none()));
}

#[test]
fn a_wish_without_name_or_hit_points_is_dropped() {
    let mut nameless = fighter(1, "x", 10, 0, 9);
    nameless.name = None;
    nameless.wants_to_melee = Some(WantsToMelee { target: 2 });
    let mut statless = Actor::new(3);
    statless.name = Some(Name { name: "Wisp".to_string() });
    statless.wants_to_melee = Some(WantsToMelee { target: 2 });
    let mut world = arena(vec![nameless, fighter(2, "Goblin", 16, 1, 4), statless]);
    MeleeCombatSystem {}.run(&mut world);
    assert!(world.log.entries.is_empty());
    assert_eq!(world.actors[1].suffer_damage, None);
    assert!(world.actors.iter().all(|a| a.wants_to_melee.is_none()));
}

#[test]
fn damage_is_taken_from_the_hit_points() {
    let mut a = fighter(1, "Goblin", 16, 1, 4);
    a.suffer_damage = Some(SufferDamage { amount: 20 });
    let mut b = Actor::new(2);
    b.suffer_damage = Some(SufferDamage { amount: 7 });
    let c = fighter(3, "Orc", 9, 1, 4);
    let mut world = arena(vec![a, b, c]);
    DamageSystem {}.run(&mut world);
    assert_eq!(hp_of(&world, 1), -4);
    assert_eq!(hp_of(&world, 3), 9);
    assert_eq!(world.actors[1].combat_stats, None);
    assert!(world.actors.iter().all(|a| a.suffer_damage.is_none()));
    assert_eq!(world.actors[0].combat_stats.unwrap().max_hp, 30);
}

#[test]
fn the_dead_are_swept_but_not_the_player() {
    let mut player = fighter(1, "Player", 0, 2, 5);
    player.player = Some(Player {});
    let bystander = Actor::new(7);
    let mut world = arena(vec![
        fighter(2, "Goblin", 0, 1, 4),
        player,
        fighter(3, "Orc", 1, 1, 4),
        bystander,
        fighter(4, "Bat", -5, 1, 4),
    ]);
    let player_dead = delete_the_dead(&mut world);
    assert!(player_dead);
    let left: Vec<u32> = world.actors.iter().map(|a| a.entity).collect();
    assert_eq!(left, vec![1, 3, 7]);
    assert_eq!(hp_of(&world, 1), 0);
    // a second sweep finds nothing to take, and the player still there
    assert!(delete_the_dead(&mut world));
    assert_eq!(world.actors.len(), 3);
}

#[test]
fn a_living_player_is_not_reported_dead() {
    let mut player = fighter(1, "Player", 1, 2, 5);
    player.player = Some(Player {});
    let mut world = arena(vec![player, fighter(2, "Goblin", 0, 1, 4)]);
    assert!(!delete_the_dead(&mut world));
    assert_eq!(world.actors.len(), 1);
    assert_eq!(world.find(2), None);
    assert_eq!(world.find(1), Some(0));
}
