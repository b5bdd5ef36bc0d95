use vstd::prelude::*;
use crate::components::{CombatStats, SufferDamage};
use crate::world::{Actor, LogEntry, LogLine, World, MAX_ACTORS, STAT_LIMIT};

verus! {

/// Turns the wishes to hit into damage that waits for the targets.
pub struct MeleeCombatSystem {}

/// The actor takes part in the fight as an attacker: it wishes to hit, and
/// has a name and hit points.
pub open spec fn fights(a: Actor) -> bool {
    a.wants_to_melee.is_some() && a.name.is_some() && a.combat_stats.is_some()
}

/// The damage of a blow: the attacker's power less the target's defense, and
/// never less than nothing.
pub open spec fn blow_damage(attacker: CombatStats, target: CombatStats) -> int {
    if attacker.power - target.defense > 0 {
        attacker.power - target.defense
    } else {
        0
    }
}

/// The damage that waits for an actor when blows have dealt it `total`.
pub open spec fn waiting(total: int) -> Option<SufferDamage> {
    if total > 0 {
        Some(SufferDamage { amount: total as i32 })
    } else {
        None
    }
}

impl World {
    /// The place of the actor that the actor at the place `i` wishes to hit.
    pub open spec fn victim(&self, i: int) -> int {
        self.place_of(self.actors@[i].wants_to_melee.unwrap().target)
    }

    /// The actor at the place `i` strikes a blow: it fights and is alive, and
    /// so is its target.
    pub open spec fn strikes(&self, i: int) -> bool {
        let a = self.actors@[i];
        &&& fights(a)
        &&& a.combat_stats.unwrap().hp > 0
        &&& self.holds(a.wants_to_melee.unwrap().target)
        &&& self.actors@[self.victim(i)].combat_stats.is_some()
        &&& self.actors@[self.victim(i)].combat_stats.unwrap().hp > 0
    }

    /// The damage of the blow that the actor at the place `i` strikes.
    pub open spec fn struck(&self, i: int) -> int {
        blow_damage(
            self.actors@[i].combat_stats.unwrap(),
            self.actors@[self.victim(i)].combat_stats.unwrap(),
        )
    }

    /// The damage that the first `n` actors deal to the actor at the place `t`.
    pub open spec fn damage_to(&self, t: int, n: int) -> int
        decreases n,
    {
        if n <= 0 {
            0
        } else if self.strikes(n - 1) && self.victim(n - 1) == t {
            self.damage_to(t, n - 1) + self.struck(n - 1)
        } else {
            self.damage_to(t, n - 1)
        }
    }

    /// The message for the blow that the actor at the place `i` strikes.
    pub open spec fn blow_line(&self, i: int) -> LogLine {
        let attacker = self.actors@[i].name.unwrap().name@;
        let target = self.actors@[self.victim(i)].name.unwrap().name@;
        if self.struck(i) == 0 {
            LogLine::UnableToHurt { attacker, target }
        } else {
            LogLine::Hit { attacker, target, damage: self.struck(i) }
        }
    }

    /// The messages for the blows of the first `n` actors, in their order.
    pub open spec fn fight_log(&self, n: int) -> Seq<LogLine>
        decreases n,
    {
        if n <= 0 {
            Seq::empty()
        } else if self.strikes(n - 1) {
            self.fight_log(n - 1).push(self.blow_line(n - 1))
        } else {
            self.fight_log(n - 1)
        }
    }

    /// Every living attacker finds its target, the target has hit points, and a
    /// living target has a name.
    pub open spec fn intents_answerable(&self) -> bool {
        forall|i: int|
            0 <= i < self.actors@.len() && #[trigger] fights(self.actors@[i])
                && self.actors@[i].combat_stats.unwrap().hp > 0 ==> {
                &&& self.holds(self.actors@[i].wants_to_melee.unwrap().target)
                &&& self.actors@[self.victim(i)].combat_stats.is_some()
                &&& self.actors@[self.victim(i)].combat_stats.unwrap().hp > 0
                    ==> self.actors@[self.victim(i)].name.is_some()
            }
    }

    /// The first `n` actors deal no actor more than `n` times the strongest blow.
    pub proof fn lemma_damage_bound(&self, t: int, n: int)
        requires
            self.wf(),
            0 <= n <= self.actors@.len(),
        ensures
            0 <= self.damage_to(t, n) <= n * (2 * STAT_LIMIT),
        decreases n,
    {
        if n > 0 {
            self.lemma_damage_bound(t, n - 1);
        }
    }
}

/// The blow that the actor at the place `i` strikes, if it strikes one: the
/// place of the target, the message for the log, and the damage.
fn blow(ecs: &World, i: usize) -> (struck: Option<(usize, LogEntry, i32)>)
    requires
        ecs.wf(),
        ecs.intents_answerable(),
        i < ecs.actors@.len(),
    ensures
        struck.is_some() == ecs.strikes(i as int),
        struck matches Some((t, entry, damage)) ==> {
            &&& t == ecs.victim(i as int)
            &&& entry@ == ecs.blow_line(i as int)
            &&& damage == ecs.struck(i as int)
        },
{
    let attacker = &ecs.actors[i];
    let intent = match attacker.wants_to_melee {
        Some(intent) => intent,
        None => {
            return None;
        },
    };
    let stats = match attacker.combat_stats {
        Some(stats) => stats,
        None => {
            return None;
        },
    };
    let name = match &attacker.name {
        Some(name) => name,
        None => {
            return None;
        },
    };
    // the dead do not hit
    if stats.hp <= 0 {
        return None;
    }
    assert(fights(ecs.actors@[i as int]));
    let t = match ecs.find(intent.target) {
        Some(t) => t,
        None => {
            return None;
        },
    };
    proof {
        ecs.lemma_place_of(t as int);
        assert(ecs.actors@[i as int].in_range());
        assert(ecs.actors@[t as int].in_range());
    }
    let target_stats = match ecs.actors[t].combat_stats {
        Some(target_stats) => target_stats,
        None => {
            return None;
        },
    };
    // nor are the dead hit
    if target_stats.hp <= 0 {
        return None;
    }
    let target_name = match &ecs.actors[t].name {
        Some(target_name) => target_name,
        None => {
            return None;
        },
    };
    let damage = if stats.power - target_stats.defense > 0 {
        stats.power - target_stats.defense
    } else {
        0
    };
    let entry = if damage == 0 {
        LogEntry::UnableToHurt { attacker: name.name.clone(), target: target_name.name.clone() }
    } else {
        LogEntry::Hit { attacker: name.name.clone(), target: target_name.name.clone(), damage }
    };
    Some((t, entry, damage))
}

impl World {
    /// A blow depends only on who the actors are, what they are called, their
    /// numbers, and the wish of the one who strikes.
    pub proof fn lemma_blow_same(&self, other: &World, i: int)
        requires
            self.wf(),
            other.wf(),
            self.actors@.len() == other.actors@.len(),
            0 <= i < self.actors@.len(),
            self.actors@[i].wants_to_melee == other.actors@[i].wants_to_melee,
            forall|k: int|
                0 <= k < self.actors@.len() ==> {
                    &&& (#[trigger] self.actors@[k]).entity == other.actors@[k].entity
                    &&& self.actors@[k].name == other.actors@[k].name
                    &&& self.actors@[k].combat_stats == other.actors@[k].combat_stats
                },
        ensures
            self.strikes(i) == other.strikes(i),
            self.strikes(i) ==> {
                &&& self.victim(i) == other.victim(i)
                &&& self.struck(i) == other.struck(i)
                &&& self.blow_line(i) == other.blow_line(i)
            },
    {
        if self.actors@[i].wants_to_melee.is_some() {
            self.lemma_same_places(other, self.actors@[i].wants_to_melee.unwrap().target);
        }
    }

    /// Every attacker still finds its target when wishes have gone and damage
    /// has come to wait, as long as the actors are who they were.
    pub proof fn lemma_answerable_kept(&self, before: &World)
        requires
            before.wf(),
            before.intents_answerable(),
            self.wf(),
            self.actors@.len() == before.actors@.len(),
            forall|k: int|
                0 <= k < self.actors@.len() ==> {
                    &&& (#[trigger] self.actors@[k]).entity == before.actors@[k].entity
                    &&& self.actors@[k].name == before.actors@[k].name
                    &&& self.actors@[k].combat_stats == before.actors@[k].combat_stats
                    &&& self.actors@[k].wants_to_melee.is_some() ==> self.actors@[k].wants_to_melee
                        == before.actors@[k].wants_to_melee
                },
        ensures
            self.intents_answerable(),
    {
        assert forall|i: int|
            0 <= i < self.actors@.len() && #[trigger] fights(self.actors@[i])
                && self.actors@[i].combat_stats.unwrap().hp > 0 implies {
            &&& self.holds(self.actors@[i].wants_to_melee.unwrap().target)
            &&& self.actors@[self.victim(i)].combat_stats.is_some()
            &&& self.actors@[self.victim(i)].combat_stats.unwrap().hp > 0
                ==> self.actors@[self.victim(i)].name.is_some()
        } by {
            assert(fights(before.actors@[i]));
            self.lemma_same_places(before, self.actors@[i].wants_to_melee.unwrap().target);
        }
    }

    /// When the first `n` actors have struck, the world is well formed: an
    /// actor that was dealt damage is alive, and the damage is in range.
    pub proof fn lemma_struck_wf(&self, before: &World, n: int)
        requires
            before.wf(),
            before.no_pending_damage(),
            0 <= n <= before.actors@.len(),
            self.map == before.map,
            self.player_pos == before.player_pos,
            self.actors@.len() == before.actors@.len(),
            forall|t: int|
                0 <= t < before.actors@.len() ==> #[trigger] self.actors@[t] == (Actor {
                    wants_to_melee: if t < n {
                        None
                    } else {
                        before.actors@[t].wants_to_melee
                    },
                    suffer_damage: waiting(before.damage_to(t, n)),
                    ..before.actors@[t]
                }),
        ensures
            self.wf(),
    {
        assert forall|a: int| 0 <= a < self.actors@.len() implies {
            &&& (#[trigger] self.actors@[a]).entity == before.actors@[a].entity
            &&& self.actors@[a].player == before.actors@[a].player
            &&& self.actors@[a].monster == before.actors@[a].monster
            &&& self.actors@[a].in_range()
            &&& self.actors@[a].position.is_some() ==> self.map.in_bounds(
                self.actors@[a].position.unwrap().x as int,
                self.actors@[a].position.unwrap().y as int,
            )
        } by {
            assert(before.actors@[a].in_range());
            before.lemma_damage_bound(a, n);
            if before.damage_to(a, n) > 0 {
                before.lemma_damaged_alive(a, n);
            }
            assert(n * (2 * STAT_LIMIT) <= MAX_ACTORS * (2 * STAT_LIMIT)) by (nonlinear_arith)
                requires
                    n <= MAX_ACTORS,
            ;
        }
        self.lemma_wf_kept(before);
    }
}

impl MeleeCombatSystem {
    /// Lets every living attacker strike its living target: the damage of the
    /// blow is added to what waits for the target, unless it is nothing, and
    /// the blow is written to the log. Then nobody wishes to hit anybody.
    pub fn run(&mut self, ecs: &mut World)
        requires
            old(ecs).wf(),
            old(ecs).no_pending_damage(),
            old(ecs).intents_answerable(),
        ensures
            final(ecs).wf(),
            final(ecs).map == old(ecs).map,
            final(ecs).player_pos == old(ecs).player_pos,
            final(ecs).player_entity == old(ecs).player_entity,
            final(ecs).run_state == old(ecs).run_state,
            final(ecs).actors@.len() == old(ecs).actors@.len(),
            forall|t: int|
                0 <= t < old(ecs).actors@.len() ==> #[trigger] final(ecs).actors@[t] == (Actor {
                    wants_to_melee: None,
                    suffer_damage: waiting(
                        old(ecs).damage_to(t, old(ecs).actors@.len() as int),
                    ),
                    ..old(ecs).actors@[t]
                }),
            final(ecs).log.lines() == old(ecs).log.lines() + old(ecs).fight_log(
                old(ecs).actors@.len() as int,
            ),
            final(ecs).no_intents(),
    {
        let n = ecs.actors.len();
        let mut i: usize = 0;
        while i < n
            invariant
                i <= n,
                n == old(ecs).actors@.len(),
                ecs.actors@.len() == n,
                old(ecs).wf(),
                old(ecs).no_pending_damage(),
                old(ecs).intents_answerable(),
                ecs.wf(),
                ecs.map == old(ecs).map,
                ecs.player_pos == old(ecs).player_pos,
                ecs.player_entity == old(ecs).player_entity,
                ecs.run_state == old(ecs).run_state,
                forall|t: int|
                    0 <= t < n ==> #[trigger] ecs.actors@[t] == (Actor {
                        wants_to_melee: if t < i {
                            None
                        } else {
                            old(ecs).actors@[t].wants_to_melee
                        },
                        suffer_damage: waiting(old(ecs).damage_to(t, i as int)),
                        ..old(ecs).actors@[t]
                    }),
                ecs.log.lines() == old(ecs).log.lines() + old(ecs).fight_log(i as int),
            decreases n - i,
        {
            proof {
                // the blows so far have changed nothing that a blow goes by
                ecs.lemma_answerable_kept(old(ecs));
                ecs.lemma_blow_same(old(ecs), i as int);
            }
            match blow(ecs, i) {
                Some((t, entry, damage)) => {
                    proof {
                        old(ecs).lemma_damage_bound(t as int, i as int);
                    }
                    let ghost lines = ecs.log.lines();
                    ecs.log.entries.push(entry);
                    proof {
                        assert(ecs.log.lines() =~= lines.push(entry@));
                    }
                    if damage > 0 {
                        let so_far = match ecs.actors[t].suffer_damage {
                            Some(waiting) => waiting.amount,
                            None => 0,
                        };
                        ecs.actors[t].suffer_damage = Some(SufferDamage { amount: so_far + damage });
                    }
                },
                None => {},
            }
            // the wish has been dealt with
            ecs.actors[i].wants_to_melee = None;
            i = i + 1;
            proof {
                ecs.lemma_struck_wf(old(ecs), i as int);
            }
        }
    }
}

impl World {
    /// Only an actor that is alive is dealt damage.
    pub proof fn lemma_damaged_alive(&self, t: int, n: int)
        requires
            self.wf(),
            0 <= t < self.actors@.len(),
            0 <= n <= self.actors@.len(),
            self.damage_to(t, n) > 0,
        ensures
            self.actors@[t].combat_stats.is_some(),
            self.actors@[t].combat_stats.unwrap().hp > 0,
        decreases n,
    {
        if n > 0 {
            if !(self.strikes(n - 1) && self.victim(n - 1) == t) {
                self.lemma_damaged_alive(t, n - 1);
            }
        }
    }
}

} // verus!
