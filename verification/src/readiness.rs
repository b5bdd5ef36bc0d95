use vstd::prelude::*;
use crate::components::{Entity, WantsToMelee};
use crate::damage_system::{
    hurt, lemma_survivor_kept, lemma_survivors_from, lemma_survivors_wf, survives, survivors,
};
use crate::melee_combat_system::waiting;
use crate::monster_ai_system::NavigationPath;
use crate::melee_combat_system::fights;
use crate::world::{Actor, World};

verus! {

/// The two actors agree in all that a fight and the sweep of the dead go by:
/// identity, marks, name, numbers, wish and waiting damage.
pub open spec fn same_core(a: Actor, b: Actor) -> bool {
    &&& a.entity == b.entity
    &&& a.player == b.player
    &&& a.monster == b.monster
    &&& a.blocks_tile == b.blocks_tile
    &&& a.name == b.name
    &&& a.combat_stats == b.combat_stats
    &&& a.wants_to_melee == b.wants_to_melee
    &&& a.suffer_damage == b.suffer_damage
}

impl World {
    /// Every actor with hit points has a name.
    pub open spec fn combatants_named(&self) -> bool {
        forall|i: int|
            0 <= i < self.actors@.len() && (#[trigger] self.actors@[i]).combat_stats.is_some()
                ==> self.actors@[i].name.is_some()
    }

    /// The identity of the player leads to an actor that is marked as the
    /// player and has hit points.
    pub open spec fn player_ready(&self) -> bool {
        &&& self.holds(self.player_entity)
        &&& self.actors@[self.place_of(self.player_entity)].is_player()
        &&& self.actors@[self.place_of(self.player_entity)].combat_stats.is_some()
    }

    /// What the actor at the place `i` wishes to hit, if anything.
    pub open spec fn wish(&self, i: int) -> Option<WantsToMelee> {
        self.actors@[i].wants_to_melee
    }

    /// Every wish to hit names an actor that has hit points and that the sweep
    /// of the dead would leave in the world.
    pub open spec fn targets_known(&self) -> bool {
        forall|i: int|
            0 <= i < self.actors@.len() && (#[trigger] self.wish(i)).is_some() ==> {
                let e = self.wish(i).unwrap().target;
                &&& self.holds(e)
                &&& self.actors@[self.place_of(e)].combat_stats.is_some()
                &&& survives(self.actors@[self.place_of(e)])
            }
    }

    /// No dead actor is left in the world, but perhaps the player.
    pub open spec fn swept(&self) -> bool {
        forall|i: int| 0 <= i < self.actors@.len() ==> survives(#[trigger] self.actors@[i])
    }

    /// What holds of the world between the steps of a tick, so that no step
    /// meets a missing actor or a number out of range: the world is well
    /// formed, no damage waits, every fighter has a name, the player is there
    /// and stands inside the rim, and every wish to hit names a target.
    pub open spec fn ready(&self) -> bool {
        &&& self.wf()
        &&& self.no_pending_damage()
        &&& self.combatants_named()
        &&& self.player_ready()
        &&& self.player_inside()
        &&& self.targets_known()
    }

    /// Two well-formed worlds whose actors have the same identities, place by
    /// place, find every identity at the same place.
    pub proof fn lemma_same_places(&self, other: &World, e: Entity)
        requires
            self.wf(),
            other.wf(),
            self.actors@.len() == other.actors@.len(),
            forall|i: int|
                0 <= i < self.actors@.len() ==> (#[trigger] self.actors@[i]).entity
                    == other.actors@[i].entity,
        ensures
            self.holds(e) == other.holds(e),
            self.holds(e) ==> self.place_of(e) == other.place_of(e),
    {
        if other.holds(e) {
            let p = other.place_of(e);
            self.lemma_place_of(p);
        }
    }

    /// A well-formed world is ready if a ready world has the same player and
    /// the same actors, but for changes to where they stand and what they see
    /// that leave the player inside the rim.
    pub proof fn lemma_ready_kept(&self, before: &World)
        requires
            before.ready(),
            self.wf(),
            self.player_entity == before.player_entity,
            self.actors@.len() == before.actors@.len(),
            forall|i: int|
                0 <= i < self.actors@.len() ==> same_core(#[trigger] self.actors@[i], before.actors@[i]),
            self.player_inside(),
        ensures
            self.ready(),
            before.swept() ==> self.swept(),
            before.no_intents() ==> self.no_intents(),
    {
        self.lemma_same_places(before, self.player_entity);
        assert forall|i: int|
            0 <= i < self.actors@.len() && (#[trigger] self.wish(i)).is_some() implies {
            let e = self.wish(i).unwrap().target;
            &&& self.holds(e)
            &&& self.actors@[self.place_of(e)].combat_stats.is_some()
            &&& survives(self.actors@[self.place_of(e)])
        } by {
            assert(before.wish(i).is_some());
            let e = self.wish(i).unwrap().target;
            self.lemma_same_places(before, e);
        }
    }

    /// A ready world is still ready when the monsters have made up their minds:
    /// their wishes name the player.
    pub proof fn lemma_ready_decided(&self, before: &World)
        requires
            before.ready(),
            self.wf(),
            self.same_but_actors(before),
            self.actors@.len() == before.actors@.len(),
            forall|i: int|
                0 <= i < before.actors@.len() ==> #[trigger] self.actors@[i] == before.decided(i),
        ensures
            self.ready(),
    {
        self.lemma_same_places(before, self.player_entity);
        assert forall|i: int|
            0 <= i < self.actors@.len() && (#[trigger] self.wish(i)).is_some() implies {
            let e = self.wish(i).unwrap().target;
            &&& self.holds(e)
            &&& self.actors@[self.place_of(e)].combat_stats.is_some()
            &&& survives(self.actors@[self.place_of(e)])
        } by {
            let e = self.wish(i).unwrap().target;
            self.lemma_same_places(before, e);
            if !(before.attacks(i)) {
                assert(before.wish(i).is_some());
            }
        }
    }

    /// A ready world without dead actors is still so when one actor has come
    /// to wish to hit an actor with hit points.
    pub proof fn lemma_ready_struck(&self, before: &World, p: int, target: Entity)
        requires
            before.ready(),
            before.swept(),
            self.wf(),
            self.player_inside(),
            self.player_entity == before.player_entity,
            self.actors@.len() == before.actors@.len(),
            0 <= p < before.actors@.len(),
            before.is_foe(target),
            self.actors@[p] == (Actor {
                wants_to_melee: Some(WantsToMelee { target }),
                ..before.actors@[p]
            }),
            forall|j: int| 0 <= j < before.actors@.len() && j != p ==> self.actors@[j] == before.actors@[j],
        ensures
            self.ready(),
            self.swept(),
    {
        assert forall|i: int|
            0 <= i < self.actors@.len() && (#[trigger] self.wish(i)).is_some() implies {
            let e = self.wish(i).unwrap().target;
            &&& self.holds(e)
            &&& self.actors@[self.place_of(e)].combat_stats.is_some()
            &&& survives(self.actors@[self.place_of(e)])
        } by {
            let e = self.wish(i).unwrap().target;
            if i != p {
                assert(before.wish(i).is_some());
            }
        }
    }

    /// The actor at the place `t` after the fight of this tick: the blows have
    /// been struck, their damage has been taken from its hit points, and it
    /// wishes to hit nobody.
    pub open spec fn fought(&self, t: int) -> Actor {
        hurt(
            Actor {
                wants_to_melee: None,
                suffer_damage: waiting(self.damage_to(t, self.actors@.len() as int)),
                ..self.actors@[t]
            },
        )
    }

    /// The actors after the fight of this tick.
    pub open spec fn after_fight(&self) -> Seq<Actor> {
        Seq::new(self.actors@.len(), |t: int| self.fought(t))
    }

    /// Two well-formed worlds with the same actors see the same fight.
    pub proof fn lemma_fight_same(&self, other: &World, t: int, n: int)
        requires
            self.wf(),
            other.wf(),
            self.actors == other.actors,
            0 <= n <= self.actors@.len(),
        ensures
            self.damage_to(t, n) == other.damage_to(t, n),
            self.fight_log(n) == other.fight_log(n),
        decreases n,
    {
        if n > 0 {
            self.lemma_fight_same(other, t, n - 1);
        }
    }

    /// A ready world is ready again, and without dead actors, when only its
    /// survivors are left.
    pub proof fn lemma_survivors_ready(&self, before: &World)
        requires
            before.ready(),
            self.same_but_actors(before),
            self.actors@ == survivors(before.actors@),
        ensures
            self.ready(),
            self.swept(),
            before.no_intents() ==> self.no_intents(),
    {
        let s = before.actors@;
        lemma_survivors_wf(*before, *self);
        assert forall|a: int| 0 <= a < self.actors@.len() implies {
            &&& (#[trigger] self.actors@[a]).suffer_damage.is_none()
            &&& survives(self.actors@[a])
            &&& self.actors@[a].combat_stats.is_some() ==> self.actors@[a].name.is_some()
            &&& self.actors@[a].is_steered() ==> self.map.interior(
                self.actors@[a].position.unwrap().x as int,
                self.actors@[a].position.unwrap().y as int,
            )
            &&& before.no_intents() ==> self.actors@[a].wants_to_melee.is_none()
        } by {
            let j = lemma_survivors_from(s, a);
        }
        // the player stays
        let pp = before.place_of(before.player_entity);
        let kp = lemma_survivor_kept(s, pp);
        // and so does every target
        assert forall|i: int|
            0 <= i < self.actors@.len() && (#[trigger] self.wish(i)).is_some() implies {
            let e = self.wish(i).unwrap().target;
            &&& self.holds(e)
            &&& self.actors@[self.place_of(e)].combat_stats.is_some()
            &&& survives(self.actors@[self.place_of(e)])
        } by {
            let j = lemma_survivors_from(s, i);
            let e = before.wish(j).unwrap().target;
            let v = before.place_of(e);
            let k = lemma_survivor_kept(s, v);
        }
    }

    /// Whether no dead actor is left in the world, but perhaps the player.
    pub fn is_swept(&self) -> (ok: bool)
        ensures
            ok == self.swept(),
    {
        let mut i: usize = 0;
        while i < self.actors.len()
            invariant
                i <= self.actors@.len(),
                forall|k: int| 0 <= k < i ==> survives(#[trigger] self.actors@[k]),
            decreases self.actors@.len() - i,
        {
            let dead = match self.actors[i].combat_stats {
                Some(stats) => stats.hp < 1,
                None => false,
            };
            if dead && self.actors[i].player.is_none() {
                return false;
            }
            i = i + 1;
        }
        true
    }

    /// Whether the world is ready for the next step of a tick.
    pub fn is_ready(&self) -> (ok: bool)
        ensures
            ok == self.ready(),
    {
        if !self.is_valid() {
            return false;
        }
        match self.find(self.player_entity) {
            Some(p) => {
                if self.actors[p].player.is_none() || self.actors[p].combat_stats.is_none() {
                    return false;
                }
            },
            None => {
                return false;
            },
        }
        let n = self.actors.len();
        let mut i: usize = 0;
        while i < n
            invariant
                i <= n,
                n == self.actors@.len(),
                self.wf(),
                forall|k: int|
                    0 <= k < i ==> {
                        &&& (#[trigger] self.actors@[k]).suffer_damage.is_none()
                        &&& self.actors@[k].combat_stats.is_some() ==> self.actors@[k].name.is_some()
                        &&& self.actors@[k].is_steered() ==> self.map.interior(
                            self.actors@[k].position.unwrap().x as int,
                            self.actors@[k].position.unwrap().y as int,
                        )
                    },
                forall|k: int|
                    0 <= k < i && (#[trigger] self.wish(k)).is_some() ==> {
                        let e = self.wish(k).unwrap().target;
                        &&& self.holds(e)
                        &&& self.actors@[self.place_of(e)].combat_stats.is_some()
                        &&& survives(self.actors@[self.place_of(e)])
                    },
            decreases n - i,
        {
            let actor = &self.actors[i];
            if actor.suffer_damage.is_some() {
                return false;
            }
            if actor.combat_stats.is_some() && actor.name.is_none() {
                return false;
            }
            if actor.player.is_some() && actor.viewshed.is_some() {
                match actor.position {
                    Some(pos) => {
                        if !(0 < pos.x && pos.x < self.map.width - 1 && 0 < pos.y && pos.y
                            < self.map.height - 1) {
                            return false;
                        }
                    },
                    None => {},
                }
            }
            match actor.wants_to_melee {
                Some(wish) => {
                    assert(self.wish(i as int) == Some(wish));
                    match self.find(wish.target) {
                        Some(t) => {
                            match self.actors[t].combat_stats {
                                Some(stats) => {
                                    if stats.hp < 1 && self.actors[t].player.is_none() {
                                        return false;
                                    }
                                },
                                None => {
                                    return false;
                                },
                            }
                        },
                        None => {
                            return false;
                        },
                    }
                },
                None => {},
            }
            i = i + 1;
        }
        true
    }

    /// Whether the actor at the place `actor` can take `path` as the answer
    /// to its request: there is such an actor, and a step that it would take
    /// leads to a cell of the map.
    pub fn can_follow(&self, actor: usize, path: &NavigationPath) -> (ok: bool)
        requires
            self.wf(),
        ensures
            ok == (actor < self.actors@.len() && (self.leads(actor as int, path) ==> path.steps@[1]
                < self.map.size())),
    {
        if actor >= self.actors.len() {
            return false;
        }
        if !(path.success && path.steps.len() > 1) {
            return true;
        }
        if self.actors[actor].monster.is_none() || self.actors[actor].viewshed.is_none()
            || self.actors[actor].position.is_none() {
            return true;
        }
        path.steps[1] < self.map.tiles.len()
    }

    /// In a ready world every attacker finds its target.
    pub proof fn lemma_ready_answerable(&self)
        requires
            self.ready(),
        ensures
            self.intents_answerable(),
    {
        assert forall|i: int|
            0 <= i < self.actors@.len() && #[trigger] fights(self.actors@[i])
                && self.actors@[i].combat_stats.unwrap().hp > 0 implies {
            &&& self.holds(self.actors@[i].wants_to_melee.unwrap().target)
            &&& self.actors@[self.victim(i)].combat_stats.is_some()
            &&& self.actors@[self.victim(i)].combat_stats.unwrap().hp > 0
                ==> self.actors@[self.victim(i)].name.is_some()
        } by {
            let e = self.wish(i).unwrap().target;
        }
    }
}

} // verus!
