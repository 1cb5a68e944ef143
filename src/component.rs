//! Data of the battle: factions, moves and the fighter component.
//!
//! Chances and accuracies are whole numbers out of `ROLL_SCALE`: an accuracy
//! of `ROLL_SCALE` always hits.
use std::sync::Arc;
use vstd::prelude::*;

verus! {

/// The denominator of every chance: random draws lie in `0..ROLL_SCALE`.
pub const ROLL_SCALE: u16 = 1000;

/// Battle factions.
#[derive(Debug, Clone, Copy, PartialEq, Eq, Structural)]
pub enum Faction {
    Ally,
    Enemy,
}

/// Strategies that pick a fighter's move.
#[derive(Debug, Clone, Copy, PartialEq, Eq, Structural)]
pub enum AI {
    Random,
}

/// Area-of-effect targets.
#[derive(Debug, Clone, Copy, PartialEq, Eq, Structural)]
pub enum AOETarget {
    All,
    Ally,
    Enemy,
}

/// Single targets.
#[derive(Debug, Clone, Copy, PartialEq, Eq, Structural)]
pub enum SingleTarget {
    Ally,
    Enemy,
    User,
}

/// How a move chooses whom it affects.
#[derive(Debug, Clone, Copy, PartialEq, Eq, Structural)]
pub enum MoveTarget {
    Single(SingleTarget),
    AOE(AOETarget),
}

/// A battle action's costs, power, accuracy and targeting. Moves are shared
/// read-only between the fighters that know them.
#[derive(Debug)]
pub struct Move {
    pub name: String,
    pub description: String,
    pub use_message: String,
    pub hp_cost: u16,
    pub sp_cost: u16,
    pub power: Option<u16>,
    /// Attacking when set; supporting (healing) otherwise.
    pub damaging: bool,
    /// Out of `ROLL_SCALE`.
    pub accuracy: u16,
    /// Whether the move can land a critical hit.
    pub crit: bool,
    /// Bonus to the critical chance, out of `ROLL_SCALE`.
    pub crit_chance: u16,
    pub target: MoveTarget,
}

impl Move {
    /// A move without critical hits; a power of zero means none.
    pub fn new(
        name: &str,
        description: &str,
        use_message: &str,
        hp_cost: u16,
        sp_cost: u16,
        power: u16,
        damaging: bool,
        accuracy: u16,
        target: MoveTarget,
    ) -> (r: Move)
        ensures
            r.name@ == name@,
            r.description@ == description@,
            r.use_message@ == use_message@,
            r.hp_cost == hp_cost,
            r.sp_cost == sp_cost,
            r.power == (if power == 0 { None } else { Some(power) }),
            r.damaging == damaging,
            r.accuracy == accuracy,
            !r.crit,
            r.crit_chance == 0,
            r.target == target,
    {
        Move {
            name: name.to_owned(),
            description: description.to_owned(),
            use_message: use_message.to_owned(),
            hp_cost,
            sp_cost,
            power: if power == 0 {
                None
            } else {
                Some(power)
            },
            damaging,
            accuracy,
            crit: false,
            crit_chance: 0,
            target,
        }
    }

    pub fn set_hp_cost(self, hp: u16) -> (r: Move)
        ensures
            r == (Move { hp_cost: hp, ..self }),
    {
        Move { hp_cost: hp, ..self }
    }

    pub fn set_sp_cost(self, sp: u16) -> (r: Move)
        ensures
            r == (Move { sp_cost: sp, ..self }),
    {
        Move { sp_cost: sp, ..self }
    }

    pub fn set_power(self, power: u16) -> (r: Move)
        ensures
            r == (Move { power: Some(power), ..self }),
    {
        Move { power: Some(power), ..self }
    }

    /// Lets the move land critical hits, with `chance` added to the odds.
    pub fn set_crit(self, chance: u16) -> (r: Move)
        ensures
            r == (Move { crit: true, crit_chance: chance, ..self }),
    {
        Move { crit: true, crit_chance: chance, ..self }
    }
}

/// Gives an entity the ability to take part in battles.
#[derive(Debug)]
pub struct FighterComponent {
    pub display_name: String,
    pub level: u8,
    pub faction: Faction,
    pub ai: AI,
    pub moves: Vec<Arc<Move>>,
    pub max_hp: u16,
    pub hp: u16,
    pub max_sp: u16,
    pub sp: u16,
    /// Moves cost no SP.
    pub infinite_sp: bool,
    /// False from the moment HP reaches zero until a revive.
    pub alive: bool,
    pub attack: u16,
    pub defence: u16,
    pub agility: u16,
    pub luck: u16,
    /// Bonus to the critical chance, out of `ROLL_SCALE`.
    pub crit: u16,
    /// Healing scale in percent.
    pub support: u16,
    /// A move staged before it is carried out.
    pub selected_move: Option<Arc<Move>>,
}

impl FighterComponent {
    /// HP and SP within their maxima, and a downed fighter has no HP.
    pub open spec fn wf(&self) -> bool {
        &&& self.hp <= self.max_hp
        &&& self.sp <= self.max_sp
        &&& !self.alive ==> self.hp == 0
    }

    /// After losing `x` HP, stopping at zero.
    pub open spec fn hp_lowered(self, x: u16) -> FighterComponent {
        let hp = if self.hp >= x {
            (self.hp - x) as u16
        } else {
            0u16
        };
        FighterComponent { hp, alive: self.alive && hp > 0, ..self }
    }

    /// After healing `x` HP, stopping at the maximum; a downed fighter is
    /// not healed.
    pub open spec fn hp_raised(self, x: u16) -> FighterComponent {
        let hp = if !self.alive {
            self.hp
        } else if self.hp + x >= self.max_hp {
            self.max_hp
        } else {
            (self.hp + x) as u16
        };
        FighterComponent { hp, alive: self.alive && hp > 0, ..self }
    }

    /// After spending `x` SP, stopping at zero; free with infinite SP.
    pub open spec fn sp_lowered(self, x: u16) -> FighterComponent {
        let sp = if self.infinite_sp {
            self.sp
        } else if self.sp >= x {
            (self.sp - x) as u16
        } else {
            0u16
        };
        FighterComponent { sp, ..self }
    }

    /// After a revive to `per_mille` thousandths of the maximum HP, rounded
    /// down.
    pub open spec fn revived(self, per_mille: u16) -> FighterComponent {
        FighterComponent {
            hp: (self.max_hp * per_mille / ROLL_SCALE as int) as u16,
            alive: true,
            ..self
        }
    }

    /// A fighter at full HP and SP, with the given move list.
    pub fn new(
        display_name: &str,
        level: u8,
        faction: Faction,
        ai: AI,
        hp: u16,
        sp: u16,
        moves: Vec<Arc<Move>>,
        attack: u16,
        defence: u16,
        agility: u16,
        luck: u16,
    ) -> (r: FighterComponent)
        ensures
            r.wf(),
            r.display_name@ == display_name@,
            r.level == level,
            r.faction == faction,
            r.ai == ai,
            r.moves == moves,
            r.max_hp == hp && r.hp == hp,
            r.max_sp == sp && r.sp == sp,
            !r.infinite_sp,
            r.alive == (hp > 0),
            r.attack == attack && r.defence == defence,
            r.agility == agility && r.luck == luck,
            r.crit == 0,
            r.support == 100,
            r.selected_move.is_none(),
    {
        FighterComponent {
            display_name: display_name.to_owned(),
            level,
            faction,
            ai,
            moves,
            max_hp: hp,
            hp,
            max_sp: sp,
            sp,
            infinite_sp: false,
            alive: hp > 0,
            attack,
            defence,
            agility,
            luck,
            crit: 0,
            support: 100,
            selected_move: None,
        }
    }

    /// Loses `x` HP, stopping at zero; reaching zero downs the fighter.
    pub fn dec_hp(&mut self, x: u16)
        ensures
            *final(self) == old(self).hp_lowered(x),
    {
        if self.hp >= x {
            self.hp = self.hp - x;
        } else {
            self.hp = 0;
        }
        self.alive = self.alive && self.hp > 0;
    }

    /// Heals `x` HP, stopping at the maximum. A downed fighter stays down.
    pub fn inc_hp(&mut self, x: u16)
        ensures
            *final(self) == old(self).hp_raised(x),
    {
        if self.alive {
            if self.hp as u32 + x as u32 >= self.max_hp as u32 {
                self.hp = self.max_hp;
            } else {
                self.hp = self.hp + x;
            }
        }
        self.alive = self.alive && self.hp > 0;
    }

    /// Spends `x` SP, stopping at zero; nothing with infinite SP.
    pub fn dec_sp(&mut self, x: u16)
        ensures
            *final(self) == old(self).sp_lowered(x),
    {
        if !self.infinite_sp {
            if self.sp >= x {
                self.sp = self.sp - x;
            } else {
                self.sp = 0;
            }
        }
    }

    /// Brings the fighter back with `per_mille` thousandths of its maximum
    /// HP, rounded down.
    pub fn revive(&mut self, per_mille: u16)
        requires
            0 < per_mille <= ROLL_SCALE,
        ensures
            *final(self) == old(self).revived(per_mille),
    {
        proof {
            assert(self.max_hp * per_mille <= 65535 * 1000) by (nonlinear_arith)
                requires self.max_hp <= 65535, per_mille <= 1000;
            assert(self.max_hp * per_mille / 1000 <= self.max_hp) by (nonlinear_arith)
                requires per_mille <= 1000;
        }
        let hp = (self.max_hp as u32 * per_mille as u32 / ROLL_SCALE as u32) as u16;
        self.hp = hp;
        self.alive = true;
    }

    /// HP changes never leave `0..=max_hp`, a fighter whose HP reached zero
    /// is down, and a revive by a fraction in `(0, 1]` brings it back up
    /// with that fraction of its maximum, rounded down.
    pub proof fn lemma_health_clamping(self, x: u16, per_mille: u16)
        requires
            self.wf(),
            0 < per_mille <= ROLL_SCALE,
        ensures
            self.hp_lowered(x).wf(),
            self.hp_raised(x).wf(),
            self.revived(per_mille).wf(),
            self.hp_lowered(x).hp == 0 ==> !self.hp_lowered(x).alive,
            self.hp_raised(x).hp == 0 ==> !self.hp_raised(x).alive,
            self.revived(per_mille).alive,
            self.revived(per_mille).hp == self.max_hp * per_mille / 1000,
    {
        assert(self.max_hp * per_mille / 1000 <= self.max_hp) by (nonlinear_arith)
            requires per_mille <= 1000;
    }

    pub fn add_move(self, m: &Arc<Move>) -> (r: FighterComponent)
        ensures
            r.moves@ == self.moves@.push(*m),
            r == (FighterComponent { moves: r.moves, ..self }),
    {
        let mut moves = self.moves;
        moves.push(m.clone());
        FighterComponent { moves, ..self }
    }

    pub fn set_level(self, level: u8) -> (r: FighterComponent)
        ensures
            r == (FighterComponent { level, ..self }),
    {
        FighterComponent { level, ..self }
    }

    /// Sets the maximum HP and fills HP up to it.
    pub fn set_max_hp(self, hp: u16) -> (r: FighterComponent)
        ensures
            r == (FighterComponent { max_hp: hp, hp, alive: hp > 0, ..self }),
    {
        FighterComponent { max_hp: hp, hp, alive: hp > 0, ..self }
    }

    /// Sets the maximum SP and fills SP up to it.
    pub fn set_max_sp(self, sp: u16) -> (r: FighterComponent)
        ensures
            r == (FighterComponent { max_sp: sp, sp, ..self }),
    {
        FighterComponent { max_sp: sp, sp, ..self }
    }

    pub fn set_attack(self, atk: u16) -> (r: FighterComponent)
        ensures
            r == (FighterComponent { attack: atk, ..self }),
    {
        FighterComponent { attack: atk, ..self }
    }

    pub fn set_defence(self, def: u16) -> (r: FighterComponent)
        ensures
            r == (FighterComponent { defence: def, ..self }),
    {
        FighterComponent { defence: def, ..self }
    }

    pub fn set_agility(self, agi: u16) -> (r: FighterComponent)
        ensures
            r == (FighterComponent { agility: agi, ..self }),
    {
        FighterComponent { agility: agi, ..self }
    }

    pub fn set_luck(self, luk: u16) -> (r: FighterComponent)
        ensures
            r == (FighterComponent { luck: luk, ..self }),
    {
        FighterComponent { luck: luk, ..self }
    }

    pub fn set_support(self, support: u16) -> (r: FighterComponent)
        ensures
            r == (FighterComponent { support, ..self }),
    {
        FighterComponent { support, ..self }
    }

    pub fn set_crit(self, crit: u16) -> (r: FighterComponent)
        ensures
            r == (FighterComponent { crit, ..self }),
    {
        FighterComponent { crit, ..self }
    }

    pub fn set_infinite_sp(self, infinite_sp: bool) -> (r: FighterComponent)
        ensures
            r == (FighterComponent { infinite_sp, ..self }),
    {
        FighterComponent { infinite_sp, ..self }
    }
}

} // verus!
