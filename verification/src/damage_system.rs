use vstd::prelude::*;
use crate::components::CombatStats;
use crate::world::{Actor, World};

verus! {

/// Takes the damage that waits for each actor from its hit points.
pub struct DamageSystem {}

/// The actor after the damage that waits for it has been taken from its hit
/// points. Damage that waits for an actor without hit points is dropped.
pub open spec fn hurt(a: Actor) -> Actor {
    Actor {
        combat_stats: if a.combat_stats.is_some() && a.suffer_damage.is_some() {
            Some(
                CombatStats {
                    hp: (a.combat_stats.unwrap().hp - a.suffer_damage.unwrap().amount) as i32,
                    ..a.combat_stats.unwrap()
                },
            )
        } else {
            a.combat_stats
        },
        suffer_damage: None,
        ..a
    }
}

/// The actor stays in the world: it is not dead, or it is the player.
pub open spec fn survives(a: Actor) -> bool {
    !a.is_dead() || a.is_player()
}

/// The actors of `s` that stay in the world, in their order.
pub open spec fn survivors(s: Seq<Actor>) -> Seq<Actor>
    decreases s.len(),
{
    if s.len() == 0 {
        s
    } else if survives(s.last()) {
        survivors(s.drop_last()).push(s.last())
    } else {
        survivors(s.drop_last())
    }
}

/// Some actor among the first `n` of `s` is the player and is dead.
pub open spec fn player_fallen(s: Seq<Actor>, n: int) -> bool {
    exists|i: int| 0 <= i < n && i < s.len() && (#[trigger] s[i]).is_player() && s[i].is_dead()
}

/// Each of the survivors is one of the actors, and none comes before an actor
/// that stood before it.
pub proof fn lemma_survivors_from(s: Seq<Actor>, k: int) -> (j: int)
    requires
        0 <= k < survivors(s).len(),
    ensures
        0 <= j < s.len(),
        k <= j,
        survivors(s)[k] == s[j],
        survives(s[j]),
        survivors(s.take(j)).len() == k,
    decreases s.len(),
{
    let rest = s.drop_last();
    if survives(s.last()) && k == survivors(rest).len() {
        lemma_survivors_len(rest);
        s.len() - 1
    } else {
        let j = lemma_survivors_from(rest, k);
        assert(rest.take(j) == s.take(j));
        j
    }
}

/// There are no more survivors than actors.
pub proof fn lemma_survivors_len(s: Seq<Actor>)
    ensures
        survivors(s).len() <= s.len(),
    decreases s.len(),
{
    if s.len() > 0 {
        lemma_survivors_len(s.drop_last());
    }
}

/// An actor that stays in the world is one of the survivors.
pub proof fn lemma_survivor_kept(s: Seq<Actor>, j: int) -> (k: int)
    requires
        0 <= j < s.len(),
        survives(s[j]),
    ensures
        0 <= k < survivors(s).len(),
        survivors(s)[k] == s[j],
    decreases s.len(),
{
    let rest = s.drop_last();
    if j == s.len() - 1 {
        survivors(rest).len() as int
    } else {
        let k = lemma_survivor_kept(rest, j);
        k
    }
}

impl DamageSystem {
    /// Takes the damage that waits for each actor from its hit points, and
    /// leaves no damage waiting.
    pub fn run(&mut self, ecs: &mut World)
        requires
            old(ecs).wf(),
        ensures
            final(ecs).wf(),
            final(ecs).same_but_actors(old(ecs)),
            final(ecs).actors@.len() == old(ecs).actors@.len(),
            forall|i: int|
                0 <= i < old(ecs).actors@.len() ==> #[trigger] final(ecs).actors@[i] == hurt(
                    old(ecs).actors@[i],
                ),
            final(ecs).no_pending_damage(),
    {
        let n = ecs.actors.len();
        let mut i: usize = 0;
        while i < n
            invariant
                i <= n,
                n == old(ecs).actors@.len(),
                ecs.actors@.len() == n,
                ecs.same_but_actors(old(ecs)),
                old(ecs).wf(),
                forall|k: int| 0 <= k < i ==> #[trigger] ecs.actors@[k] == hurt(old(ecs).actors@[k]),
                forall|k: int| i <= k < n ==> #[trigger] ecs.actors@[k] == old(ecs).actors@[k],
            decreases n - i,
        {
            match ecs.actors[i].suffer_damage {
                Some(damage) => {
                    match ecs.actors[i].combat_stats {
                        Some(stats) => {
                            ecs.actors[i].combat_stats = Some(
                                CombatStats { hp: stats.hp - damage.amount, ..stats },
                            );
                        },
                        None => {},
                    }
                },
                None => {},
            }
            // the damage has been dealt with
            ecs.actors[i].suffer_damage = None;
            i = i + 1;
        }
    }
}

/// Takes every dead actor out of the world, but not the player: who is alive
/// stays, and so does the player, in the order they had. Says whether the
/// player is dead: then the game is over.
pub fn delete_the_dead(ecs: &mut World) -> (player_dead: bool)
    requires
        old(ecs).wf(),
    ensures
        final(ecs).wf(),
        final(ecs).same_but_actors(old(ecs)),
        final(ecs).actors@ == survivors(old(ecs).actors@),
        player_dead == player_fallen(old(ecs).actors@, old(ecs).actors@.len() as int),
        forall|k: int| 0 <= k < final(ecs).actors@.len() ==> survives(#[trigger] final(ecs).actors@[k]),
        forall|i: int|
            0 <= i < old(ecs).actors@.len() && survives(#[trigger] old(ecs).actors@[i])
                ==> final(ecs).actors@.contains(old(ecs).actors@[i]),
{
    let ghost before = ecs.actors@;
    let ghost mut k: int = 0;
    let mut player_dead = false;
    let mut i: usize = 0;
    proof {
        assert(before.take(0) =~= Seq::<Actor>::empty());
    }
    while i < ecs.actors.len()
        invariant
            before == old(ecs).actors@,
            0 <= k <= before.len(),
            i == survivors(before.take(k)).len(),
            ecs.actors@ == survivors(before.take(k)) + before.skip(k),
            ecs.same_but_actors(old(ecs)),
            player_dead == player_fallen(before, k),
        decreases before.len() - k,
    {
        proof {
            assert(before.take(k + 1).drop_last() == before.take(k));
        }
        let dead = match ecs.actors[i].combat_stats {
            Some(stats) => stats.hp < 1,
            None => false,
        };
        if dead && ecs.actors[i].player.is_none() {
            // not the player, so it leaves
            ecs.actors.remove(i);
        } else {
            if dead {
                player_dead = true;
            }
            i = i + 1;
        }
        proof {
            k = k + 1;
        }
    }
    proof {
        lemma_survivors_len(before.take(k));
        assert(before.take(k) =~= before);
        lemma_survivors_wf(*old(ecs), *ecs);
        assert forall|k: int| 0 <= k < ecs.actors@.len() implies survives(#[trigger] ecs.actors@[k]) by {
            let j = lemma_survivors_from(before, k);
        }
        assert forall|i: int|
            0 <= i < before.len() && survives(#[trigger] before[i]) implies ecs.actors@.contains(
            before[i],
        ) by {
            let k = lemma_survivor_kept(before, i);
        }
    }
    player_dead
}

/// A well-formed world is still well formed when only its survivors are left.
pub proof fn lemma_survivors_wf(before: World, after: World)
    requires
        before.wf(),
        after.same_but_actors(&before),
        after.actors@ == survivors(before.actors@),
    ensures
        after.wf(),
{
    let s = before.actors@;
    lemma_survivors_len(s);
    assert forall|a: int, b: int| 0 <= a < b < after.actors@.len() implies (
    #[trigger] after.actors@[a]).entity != (#[trigger] after.actors@[b]).entity && !(
    after.actors@[a].is_player() && after.actors@[b].is_player()) by {
        let ja = lemma_survivors_from(s, a);
        let jb = lemma_survivors_from(s, b);
    }
    assert forall|a: int| 0 <= a < after.actors@.len() implies (#[trigger] after.actors@[a]).in_range()
        && !(after.actors@[a].is_player() && after.actors@[a].monster.is_some()) && (
    after.actors@[a].position.is_some() ==> after.map.in_bounds(
        after.actors@[a].position.unwrap().x as int,
        after.actors@[a].position.unwrap().y as int,
    )) by {
        let ja = lemma_survivors_from(s, a);
    }
}

} // verus!
