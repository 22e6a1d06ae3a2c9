//! Combat: how much an attack hurts, and what dying does to an entity.

use vstd::prelude::*;
use vstd::string::*;
use crate::color::Color;
use crate::game::Game;
use crate::object::{DeathCallback, Fighter, Object, ObjectView};
use crate::text::{hit_message, hit_text, miss_message, miss_text, remains_name, remains_of};

verus! {

impl ObjectView {
    /// The attack strength; an entity that cannot fight has none.
    pub open spec fn power(self) -> int {
        match self.fighter {
            Some(f) => f.power as int,
            None => 0,
        }
    }

    /// The armour; an entity that cannot fight has none.
    pub open spec fn defense(self) -> int {
        match self.fighter {
            Some(f) => f.defense as int,
            None => 0,
        }
    }

    /// The damage that an attack of `self` on `target` does: the attacker's
    /// power less the target's defense.
    pub open spec fn damage_to(self, target: ObjectView) -> int {
        self.power() - target.defense()
    }

    /// What is left of the player: only the looks change.
    pub open spec fn player_remains(self) -> ObjectView {
        ObjectView { glyph: '%', color: Color::dark_red(), ..self }
    }

    /// What is left of a monster: a corpse that is in nobody's way, cannot
    /// fight and cannot act.
    pub open spec fn monster_remains(self) -> ObjectView {
        ObjectView {
            glyph: '%',
            color: Color::dark_red(),
            blocks: false,
            fighter: None,
            ai: None,
            name: remains_name(self.name),
            ..self
        }
    }

    /// The entity after the death that `policy` selects.
    pub open spec fn remains(self, policy: DeathCallback) -> ObjectView {
        match policy {
            DeathCallback::Player => self.player_remains(),
            DeathCallback::Monster => self.monster_remains(),
        }
    }

    /// The health of a fighter with health `hp` once `damage` is taken:
    /// only a positive amount hurts.
    pub open spec fn hp_after(hp: int, damage: int) -> int {
        if damage > 0 {
            hp - damage
        } else {
            hp
        }
    }

    /// Whether taking `damage` kills the entity.
    pub open spec fn dies_of(self, damage: int) -> bool {
        match self.fighter {
            Some(f) => Self::hp_after(f.hp as int, damage) <= 0,
            None => false,
        }
    }

    /// Whether the health that is left after `damage` can be stored.
    pub open spec fn can_take(self, damage: int) -> bool {
        match self.fighter {
            Some(f) => i32::MIN <= Self::hp_after(f.hp as int, damage) <= i32::MAX,
            None => true,
        }
    }

    /// The entity once `damage` is taken: the health goes down, and at zero
    /// or below the entity is dead and turns into its remains.
    pub open spec fn after_damage(self, damage: int) -> ObjectView {
        match self.fighter {
            Some(f) => {
                let hurt = ObjectView {
                    fighter: Some(Fighter { hp: Self::hp_after(f.hp as int, damage) as i32, ..f }),
                    ..self
                };
                if self.dies_of(damage) {
                    (ObjectView { alive: false, ..hurt }).remains(f.on_death)
                } else {
                    hurt
                }
            },
            None => self,
        }
    }

    /// Whether an attack of `self` on `target` stays within what the
    /// machine can count.
    pub open spec fn can_attack(self, target: ObjectView) -> bool {
        &&& i32::MIN <= self.damage_to(target) <= i32::MAX
        &&& target.can_take(self.damage_to(target))
    }

    /// The target after an attack of `self`.
    pub open spec fn attacked(self, target: ObjectView) -> ObjectView {
        if self.damage_to(target) > 0 {
            target.after_damage(self.damage_to(target))
        } else {
            target
        }
    }

    /// The one entry that an attack of `self` on `target` adds to the log:
    /// a hit with its damage, or a miss. Whether the target dies of the hit
    /// makes no difference to the log.
    pub open spec fn attack_entry(self, target: ObjectView) -> (Seq<char>, Color) {
        let damage = self.damage_to(target);
        if damage > 0 {
            (hit_text(self.name, target.name, damage as nat), Color::white())
        } else {
            (miss_text(self.name, target.name), Color::white())
        }
    }
}

/// The death of the player: the game is over, and the player is drawn as
/// remains. The map and the log stay as they are.
pub fn player_death(player: &mut Object, game: &mut Game)
    ensures
        final(player)@ == old(player)@.player_remains(),
        *final(game) == *old(game),
{
    player.glyph = '%';
    player.color = Color::dark_red();
}

/// The death of a monster: it turns into a corpse that blocks nothing,
/// cannot be attacked and does not move. The map and the log stay as they
/// are.
pub fn monster_death(monster: &mut Object, game: &mut Game)
    ensures
        final(monster)@ == old(monster)@.monster_remains(),
        *final(game) == *old(game),
{
    monster.glyph = '%';
    monster.color = Color::dark_red();
    monster.blocks = false;
    monster.fighter = None;
    monster.ai = None;
    monster.name = remains_of(monster.name.as_str());
}

impl DeathCallback {
    /// Carries out the death that `self` selects.
    pub fn callback(self, object: &mut Object, game: &mut Game)
        ensures
            final(object)@ == old(object)@.remains(self),
            *final(game) == *old(game),
    {
        match self {
            DeathCallback::Player => player_death(object, game),
            DeathCallback::Monster => monster_death(object, game),
        }
    }
}

impl Object {
    /// Takes `damage` points of damage, if the entity can fight and the
    /// amount is positive, and dies if no health is left. The map and the
    /// log stay as they are.
    pub fn take_damage(&mut self, damage: i32, game: &mut Game)
        requires
            old(self)@.can_take(damage as int),
        ensures
            final(self)@ == old(self)@.after_damage(damage as int),
            *final(game) == *old(game),
    {
        match self.fighter {
            Some(fighter) => {
                let hp: i32 = if damage > 0 {
                    fighter.hp - damage
                } else {
                    fighter.hp
                };
                self.fighter = Some(
                    Fighter {
                        max_hp: fighter.max_hp,
                        hp,
                        defense: fighter.defense,
                        power: fighter.power,
                        on_death: fighter.on_death,
                    },
                );
                if hp <= 0 {
                    self.alive = false;
                    fighter.on_death.callback(self, game);
                }
            },
            None => {},
        }
    }

    /// Attacks `target`. A hit is logged and hurts the target; an attack
    /// that the target's defense absorbs is logged as such and changes
    /// nothing else. Either way the log grows by exactly one entry.
    pub fn attack(&mut self, target: &mut Object, game: &mut Game)
        requires
            old(self)@.can_attack(old(target)@),
        ensures
            final(self)@ == old(self)@,
            final(target)@ == old(self)@.attacked(old(target)@),
            final(game).messages@ == old(game).messages@.push(
                old(self)@.attack_entry(old(target)@),
            ),
            final(game).map == old(game).map,
    {
        let power: i32 = match self.fighter {
            Some(f) => f.power,
            None => 0,
        };
        let defense: i32 = match target.fighter {
            Some(f) => f.defense,
            None => 0,
        };
        let damage: i32 = power - defense;
        if damage > 0 {
            let notice = hit_message(self.name.as_str(), target.name.as_str(), damage as u32);
            game.messages.add(notice.as_str(), Color::white());
            target.take_damage(damage, game);
        } else {
            let notice = miss_message(self.name.as_str(), target.name.as_str());
            game.messages.add(notice.as_str(), Color::white());
        }
    }
}

/// After a monster's death the corpse cannot fight, cannot act, is in
/// nobody's way and is not alive.
pub proof fn lemma_monster_death_clears_capabilities(monster: ObjectView, damage: int)
    requires
        monster.fighter is Some,
        monster.fighter->0.on_death == DeathCallback::Monster,
        monster.dies_of(damage),
    ensures
        monster.after_damage(damage).fighter is None,
        monster.after_damage(damage).ai is None,
        !monster.after_damage(damage).blocks,
        !monster.after_damage(damage).alive,
{
}

/// The player's death leaves the capability to fight in place, with no
/// health left: only the looks and the life change.
pub proof fn lemma_player_death_keeps_fighter(player: ObjectView, damage: int)
    requires
        player.fighter is Some,
        player.fighter->0.on_death == DeathCallback::Player,
        player.dies_of(damage),
        player.can_take(damage),
    ensures
        player.after_damage(damage).fighter is Some,
        player.after_damage(damage).fighter->0.hp <= 0,
        !player.after_damage(damage).alive,
        player.after_damage(damage).ai == player.ai,
        player.after_damage(damage).blocks == player.blocks,
        player.after_damage(damage).name == player.name,
{
}

} // verus!
