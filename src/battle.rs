//! One encounter: its roster and turn order, the effect of a move, and the
//! random strategy that picks moves and targets.
use crate::component::{AI, AOETarget, Faction, FighterComponent, Move, MoveTarget, SingleTarget, ROLL_SCALE};
use crate::ecs::{Entity, State};
use crate::random::draw_below;
use std::sync::Arc;
use vstd::prelude::*;

verus! {

/// What the presentation layer is asked to play out.
#[derive(Debug)]
pub enum Action {
    /// A source uses a move on one target.
    Move(Entity, Arc<Move>, Entity),
    Down(Entity),
}

/// Where an encounter stands between two steps.
#[derive(Debug, Clone, Copy, PartialEq, Eq, Structural)]
pub enum BattleState {
    /// Entry only: the turn order is not set yet.
    Started,
    /// The next fighter may act.
    Available,
    /// Blocked until a human picks a move.
    WaitingPlayer,
    /// Blocked until the queued actions have been played out.
    WaitingEvent,
}

/// The outcome of a move, to be applied after it has been played out.
#[derive(Debug, Clone, Copy, PartialEq, Eq, Structural)]
pub struct MoveResult {
    pub hit: bool,
    pub crit: bool,
    pub hp_cost: u16,
    pub sp_cost: u16,
    /// HP taken from the target, or given to it when not damaging.
    pub hp: u16,
    pub damaging: bool,
}

/// The three uniform draws that decide a move's effect, each meant to lie
/// in `0..ROLL_SCALE`.
#[derive(Debug, Clone, Copy, PartialEq, Eq, Structural)]
pub struct EffectRolls {
    /// The move hits when this lies below its accuracy.
    pub hit: u16,
    /// A critical hit lands when this lies below the critical chance.
    pub crit: u16,
    /// Scales the power by `(900 + variation / 5)` thousandths.
    pub variation: u16,
}

/// Three fresh draws.
pub fn draw_rolls() -> (r: EffectRolls)
    ensures
        r.hit < ROLL_SCALE,
        r.crit < ROLL_SCALE,
        r.variation < ROLL_SCALE,
{
    let hit = draw_below(ROLL_SCALE as usize) as u16;
    let crit = draw_below(ROLL_SCALE as usize) as u16;
    let variation = draw_below(ROLL_SCALE as usize) as u16;
    EffectRolls { hit, crit, variation }
}

pub open spec fn ceil_div(n: int, d: int) -> int {
    (n + d - 1) / d
}

/// Whether a hit of `m` by `source` is critical.
pub open spec fn is_crit(source: FighterComponent, m: Move, rolls: EffectRolls) -> bool {
    m.damaging && m.crit && rolls.crit < m.crit_chance + source.crit + 100
}

/// The HP power of a hit: the move's power scaled by attack over defence
/// (a defence of zero counting as one) when attacking, by support in
/// percent when supporting, by one and a half on a critical hit and by the
/// variation; rounded up and capped at `u16::MAX`.
pub open spec fn hit_power(source: FighterComponent, m: Move, target: FighterComponent, rolls: EffectRolls) -> int {
    let base: int = match m.power {
        Some(p) => p as int,
        None => 0,
    };
    let factor: int = 900 + rolls.variation / 5;
    let defence: int = if target.defence == 0 { 1 } else { target.defence as int };
    let crit_num: int = if is_crit(source, m, rolls) { 3 } else { 2 };
    let raw = if m.damaging {
        ceil_div(base * source.attack * crit_num * factor, defence * 2 * 1000)
    } else {
        ceil_div(base * source.support * factor, 100000int)
    };
    if raw > u16::MAX {
        u16::MAX as int
    } else {
        raw
    }
}

/// The effect of `m`, used by `source` on `target`, under the given draws.
/// A miss has no effect at all: no power and no costs.
pub open spec fn effect_of(source: FighterComponent, m: Move, target: FighterComponent, rolls: EffectRolls) -> MoveResult {
    if rolls.hit < m.accuracy {
        MoveResult {
            hit: true,
            crit: is_crit(source, m, rolls),
            hp_cost: m.hp_cost,
            sp_cost: m.sp_cost,
            hp: hit_power(source, m, target, rolls) as u16,
            damaging: m.damaging,
        }
    } else {
        MoveResult { hit: false, crit: false, hp_cost: 0, sp_cost: 0, hp: 0, damaging: m.damaging }
    }
}

/// Works out what `selected_move` does when `source` uses it on `target`.
/// The draws are the only source of chance: the same draws on the same
/// fighters and move give the same hit, critical hit and power.
pub fn calculate_effect(
    source: &FighterComponent,
    selected_move: &Move,
    target: &FighterComponent,
    rolls: &EffectRolls,
) -> (r: MoveResult)
    ensures
        r == effect_of(*source, *selected_move, *target, *rolls),
{
    if rolls.hit >= selected_move.accuracy {
        return MoveResult {
            hit: false,
            crit: false,
            hp_cost: 0,
            sp_cost: 0,
            hp: 0,
            damaging: selected_move.damaging,
        };
    }
    let crit = selected_move.damaging && selected_move.crit && (rolls.crit as u32)
        < selected_move.crit_chance as u32 + source.crit as u32 + 100;
    let base: u64 = match selected_move.power {
        Some(p) => p as u64,
        None => 0,
    };
    let factor: u64 = 900 + rolls.variation as u64 / 5;
    let raw: u64 = if selected_move.damaging {
        let defence: u64 = if target.defence == 0 {
            1
        } else {
            target.defence as u64
        };
        let crit_num: u64 = if crit {
            3
        } else {
            2
        };
        let attack = source.attack as u64;
        proof {
            assert(base * attack <= 65535 * 65535) by (nonlinear_arith)
                requires base <= 65535, attack <= 65535;
            assert(base * attack * crit_num <= 65535 * 65535 * 3) by (nonlinear_arith)
                requires base * attack <= 65535 * 65535, crit_num <= 3;
            assert(base * attack * crit_num * factor <= 65535 * 65535 * 3 * 14007) by (nonlinear_arith)
                requires base * attack * crit_num <= 65535 * 65535 * 3, factor <= 14007;
            assert(defence * 2 * 1000 <= 65535 * 2000) by (nonlinear_arith)
                requires defence <= 65535;
        }
        let num = base * attack * crit_num * factor;
        let den = defence * 2 * 1000;
        (num + den - 1) / den
    } else {
        let support = source.support as u64;
        proof {
            assert(base * support <= 65535 * 65535) by (nonlinear_arith)
                requires base <= 65535, support <= 65535;
            assert(base * support * factor <= 65535 * 65535 * 14007) by (nonlinear_arith)
                requires base * support <= 65535 * 65535, factor <= 14007;
        }
        let num = base * support * factor;
        (num + 100 * 1000 - 1) / (100 * 1000)
    };
    let hp: u16 = if raw > u16::MAX as u64 {
        u16::MAX
    } else {
        raw as u16
    };
    MoveResult {
        hit: true,
        crit,
        hp_cost: selected_move.hp_cost,
        sp_cost: selected_move.sp_cost,
        hp,
        damaging: selected_move.damaging,
    }
}

/// The source after paying a move's costs.
pub open spec fn paid(f: FighterComponent, result: MoveResult) -> FighterComponent {
    f.sp_lowered(result.sp_cost).hp_lowered(result.hp_cost)
}

/// The target after a move's power lands on it.
pub open spec fn struck(f: FighterComponent, result: MoveResult) -> FighterComponent {
    if result.damaging {
        f.hp_lowered(result.hp)
    } else {
        f.hp_raised(result.hp)
    }
}

pub open spec fn fighter_of<P>(state: &State<P>, e: Entity) -> Option<FighterComponent> {
    state.fighter_components.lookup(e)
}

/// The fighter store after `execute_effect`: the source pays the costs,
/// then the power lands on the target (the source's new self, when they are
/// the same). Unchanged when either has no fighter component.
pub open spec fn after_effect<P>(
    state: &State<P>,
    source: Entity,
    target: Entity,
    result: MoveResult,
) -> Seq<Option<(FighterComponent, u32)>> {
    match (fighter_of(state, source), fighter_of(state, target)) {
        (Some(fs), Some(ft_old)) => {
            let ft = if target.spec_index() == source.spec_index() {
                paid(fs, result)
            } else {
                ft_old
            };
            state.fighter_components@.update(
                source.spec_index() as int,
                Some((paid(fs, result), source.spec_generation() as u32)),
            ).update(target.spec_index() as int, Some((struck(ft, result), target.spec_generation() as u32)))
        },
        _ => state.fighter_components@,
    }
}

/// Applies a move's result: the source pays the costs, then the power lands
/// on the target (the source itself, when it is the target). When either
/// has no fighter component the move has no effect.
pub fn execute_effect<P>(state: &mut State<P>, source: Entity, target: Entity, result: MoveResult)
    ensures
        final(state).entity_allocator == old(state).entity_allocator,
        final(state).null_components == old(state).null_components,
        final(state).position_components == old(state).position_components,
        old(state).wf() ==> final(state).wf(),
        final(state).fighter_components@ == after_effect(old(state), source, target, result),
{
    if state.fighter_components.get(source).is_none() || state.fighter_components.get(target).is_none() {
        return;
    }
    match state.fighter_components.get_mut(source) {
        Some(s) => {
            s.dec_sp(result.sp_cost);
            s.dec_hp(result.hp_cost);
        },
        None => {},
    }
    match state.fighter_components.get_mut(target) {
        Some(t) => {
            if result.damaging {
                t.dec_hp(result.hp);
            } else {
                t.inc_hp(result.hp);
            }
        },
        None => {},
    }
}


/// One encounter: its roster in turn order, whose turn it is, the queue of
/// actions waiting to be played out, and the state of the turn machine.
pub struct BattleInstance {
    pub enemy_name: String,
    pub win_message: Option<String>,
    pub loss_message: Option<String>,
    pub entities: Vec<Entity>,
    /// The roster position of the fighter whose turn it is.
    pub entity_index: usize,
    pub actions: Vec<Action>,
    pub state: BattleState,
}

impl BattleInstance {
    /// The turn index points into the roster, or is zero.
    pub open spec fn wf(&self) -> bool {
        self.entity_index == 0 || self.entity_index < self.entities@.len()
    }

    /// An encounter with an empty roster, about to start.
    pub fn new(enemy_name: &str) -> (r: BattleInstance)
        ensures
            r.wf(),
            r.enemy_name@ == enemy_name@,
            r.win_message.is_none(),
            r.loss_message.is_none(),
            r.entities@.len() == 0,
            r.entity_index == 0,
            r.actions@.len() == 0,
            r.state == BattleState::Started,
    {
        BattleInstance {
            enemy_name: enemy_name.to_owned(),
            win_message: None,
            loss_message: None,
            entities: Vec::new(),
            entity_index: 0,
            actions: Vec::new(),
            state: BattleState::Started,
        }
    }

    /// Moves the given entities, in order, to the end of the roster.
    pub fn add_entities(&mut self, es: &mut Vec<Entity>)
        ensures
            final(self).entities@ == old(self).entities@ + old(es)@,
            final(es)@.len() == 0,
            final(self).entity_index == old(self).entity_index,
            final(self).actions@ == old(self).actions@,
            final(self).state == old(self).state,
            final(self).enemy_name == old(self).enemy_name,
            old(self).wf() ==> final(self).wf(),
    {
        self.entities.append(es);
    }

    /// Appends an action to the queue.
    pub fn add_action(&mut self, action: Action)
        ensures
            final(self).actions@ == old(self).actions@.push(action),
            final(self).entities@ == old(self).entities@,
            final(self).entity_index == old(self).entity_index,
            final(self).state == old(self).state,
            final(self).enemy_name == old(self).enemy_name,
    {
        self.actions.push(action);
    }

    /// Splits the roster, from the source's point of view, into those of its
    /// faction (itself included) and those of another. Members without a
    /// fighter component fall in neither; without one of its own the source
    /// sees nobody.
    pub fn partition_entities<P>(&self, state: &State<P>, source: Entity) -> (r: (Vec<Entity>, Vec<Entity>))
        ensures
            match fighter_of(state, source) {
                Some(f) => {
                    &&& r.0@ == self.entities@.filter(|e: Entity| sides_with(state, f.faction, e))
                    &&& r.1@ == self.entities@.filter(|e: Entity| opposes(state, f.faction, e))
                },
                None => r.0@.len() == 0 && r.1@.len() == 0,
            },
    {
        let faction = match state.fighter_components.get(source) {
            Some(f) => f.faction,
            None => {
                return (Vec::new(), Vec::new());
            },
        };
        let ghost roster = self.entities@;
        let ghost allied = |e: Entity| sides_with(state, faction, e);
        let ghost hostile = |e: Entity| opposes(state, faction, e);
        let mut blufor: Vec<Entity> = Vec::new();
        let mut opfor: Vec<Entity> = Vec::new();
        let mut i: usize = 0;
        while i < self.entities.len()
            invariant
                i <= roster.len(),
                roster == self.entities@,
                allied == (|e: Entity| sides_with(state, faction, e)),
                hostile == (|e: Entity| opposes(state, faction, e)),
                blufor@ == roster.subrange(0, i as int).filter(allied),
                opfor@ == roster.subrange(0, i as int).filter(hostile),
            decreases roster.len() - i,
        {
            let e = self.entities[i];
            proof {
                assert(roster.subrange(0, i as int + 1) =~= roster.subrange(0, i as int).push(e));
                roster.subrange(0, i as int).lemma_filter_push(e, allied);
                roster.subrange(0, i as int).lemma_filter_push(e, hostile);
            }
            match state.fighter_components.get(e) {
                Some(t) => {
                    if t.faction == faction {
                        blufor.push(e);
                    } else {
                        opfor.push(e);
                    }
                },
                None => {},
            }
            i = i + 1;
        }
        proof {
            assert(roster.subrange(0, roster.len() as int) =~= roster);
        }
        (blufor, opfor)
    }
}

/// Has a fighter component with HP left.
pub open spec fn is_living<P>(state: &State<P>, e: Entity) -> bool {
    match fighter_of(state, e) {
        Some(f) => f.hp > 0,
        None => false,
    }
}

/// Has a fighter component of the given faction.
pub open spec fn sides_with<P>(state: &State<P>, faction: Faction, e: Entity) -> bool {
    match fighter_of(state, e) {
        Some(f) => f.faction == faction,
        None => false,
    }
}

/// Has a fighter component of another faction.
pub open spec fn opposes<P>(state: &State<P>, faction: Faction, e: Entity) -> bool {
    match fighter_of(state, e) {
        Some(f) => f.faction != faction,
        None => false,
    }
}

/// Caught by an area move of a fighter of `faction`: every living member
/// for `All`, every member of the faction (downed ones included) for
/// `Ally`, every living member of another faction for `Enemy`.
pub open spec fn in_aoe<P>(state: &State<P>, faction: Faction, aoe: AOETarget, e: Entity) -> bool {
    match aoe {
        AOETarget::All => is_living(state, e),
        AOETarget::Ally => sides_with(state, faction, e),
        AOETarget::Enemy => opposes(state, faction, e) && is_living(state, e),
    }
}

/// The fighter can pay for the move: enough SP (or infinite SP), and HP to
/// spare after the HP cost.
pub open spec fn can_afford(f: FighterComponent, m: Move) -> bool {
    &&& f.infinite_sp || m.sp_cost <= f.sp
    &&& m.hp_cost < f.hp
}

/// The fighter's moves it can pay for, in its own order.
pub open spec fn affordable_moves_of(f: FighterComponent) -> Seq<Arc<Move>> {
    f.moves@.filter(|m: Arc<Move>| can_afford(f, *m))
}

/// The targets of a move with targeting `target` used by `source`, a
/// fighter of `faction`. Area moves take every member they catch, in roster
/// order. A single ally or enemy is the `target_pick`-th (modulo) of the
/// source's side or of the others; with nobody there the source targets
/// itself.
pub open spec fn targets_for<P>(
    roster: Seq<Entity>,
    state: &State<P>,
    source: Entity,
    faction: Faction,
    target: MoveTarget,
    target_pick: int,
) -> Seq<Entity> {
    match target {
        MoveTarget::AOE(aoe) => roster.filter(|e: Entity| in_aoe(state, faction, aoe, e)),
        MoveTarget::Single(SingleTarget::User) => seq![source],
        MoveTarget::Single(side) => {
            let pool = if side == SingleTarget::Enemy {
                roster.filter(|e: Entity| opposes(state, faction, e))
            } else {
                roster.filter(|e: Entity| sides_with(state, faction, e))
            };
            if pool.len() == 0 {
                seq![source]
            } else {
                seq![pool[target_pick % (pool.len() as int)]]
            }
        },
    }
}

/// What the random strategy chooses for `source` given its two picks: the
/// `move_pick`-th (modulo) affordable move and that move's targets; nothing
/// when the source has no fighter component or cannot pay for any move.
pub open spec fn ai_choice<P>(
    roster: Seq<Entity>,
    state: &State<P>,
    source: Entity,
    move_pick: int,
    target_pick: int,
) -> Option<(Arc<Move>, Seq<Entity>)> {
    match fighter_of(state, source) {
        None => None,
        Some(f) => {
            let cands = affordable_moves_of(f);
            if cands.len() == 0 {
                None
            } else {
                let m = cands[move_pick % (cands.len() as int)];
                Some((m, targets_for(roster, state, source, f.faction, m.target, target_pick)))
            }
        },
    }
}

/// An executable choice agrees with a chosen move and target list.
pub open spec fn same_choice(r: Option<(Arc<Move>, Vec<Entity>)>, c: Option<(Arc<Move>, Seq<Entity>)>) -> bool {
    match (r, c) {
        (Some(x), Some(y)) => x.0 == y.0 && x.1@ == y.1,
        (None, None) => true,
        _ => false,
    }
}

/// The moves `f` can pay for, in its own order.
pub fn affordable_moves(f: &FighterComponent) -> (r: Vec<Arc<Move>>)
    ensures
        r@ == affordable_moves_of(*f),
{
    let ghost moves = f.moves@;
    let ghost ok = |m: Arc<Move>| can_afford(*f, *m);
    let mut out: Vec<Arc<Move>> = Vec::new();
    let mut i: usize = 0;
    while i < f.moves.len()
        invariant
            i <= moves.len(),
            moves == f.moves@,
            ok == (|m: Arc<Move>| can_afford(*f, *m)),
            out@ == moves.subrange(0, i as int).filter(ok),
        decreases moves.len() - i,
    {
        let m = &f.moves[i];
        proof {
            assert(moves.subrange(0, i as int + 1) =~= moves.subrange(0, i as int).push(*m));
            moves.subrange(0, i as int).lemma_filter_push(*m, ok);
        }
        if (f.infinite_sp || m.sp_cost <= f.sp) && m.hp_cost < f.hp {
            out.push(m.clone());
        }
        i = i + 1;
    }
    proof {
        assert(moves.subrange(0, moves.len() as int) =~= moves);
    }
    out
}

/// The members of the roster an area move of a fighter of `faction` catches.
fn aoe_targets<P>(roster: &Vec<Entity>, state: &State<P>, faction: Faction, aoe: AOETarget) -> (r: Vec<Entity>)
    ensures
        r@ == roster@.filter(|e: Entity| in_aoe(state, faction, aoe, e)),
{
    let ghost caught = |e: Entity| in_aoe(state, faction, aoe, e);
    let mut out: Vec<Entity> = Vec::new();
    let mut i: usize = 0;
    while i < roster.len()
        invariant
            i <= roster@.len(),
            caught == (|e: Entity| in_aoe(state, faction, aoe, e)),
            out@ == roster@.subrange(0, i as int).filter(caught),
        decreases roster@.len() - i,
    {
        let e = roster[i];
        proof {
            assert(roster@.subrange(0, i as int + 1) =~= roster@.subrange(0, i as int).push(e));
            roster@.subrange(0, i as int).lemma_filter_push(e, caught);
        }
        let keep = match state.fighter_components.get(e) {
            Some(t) => match aoe {
                AOETarget::All => t.hp > 0,
                AOETarget::Ally => t.faction == faction,
                AOETarget::Enemy => t.faction != faction && t.hp > 0,
            },
            None => false,
        };
        if keep {
            out.push(e);
        }
        i = i + 1;
    }
    proof {
        assert(roster@.subrange(0, roster@.len() as int) =~= roster@);
    }
    out
}

/// Resolves the targets of `m` as `targets_for` describes.
fn resolve_targets<P>(
    instance: &BattleInstance,
    state: &State<P>,
    source: Entity,
    faction: Faction,
    m: &Move,
    target_pick: usize,
) -> (r: Vec<Entity>)
    requires
        fighter_of(state, source) matches Some(f) && f.faction == faction,
    ensures
        r@ == targets_for(instance.entities@, state, source, faction, m.target, target_pick as int),
{
    match m.target {
        MoveTarget::AOE(aoe) => aoe_targets(&instance.entities, state, faction, aoe),
        MoveTarget::Single(SingleTarget::User) => {
            let r = vec![source];
            assert(r@ =~= seq![source]);
            r
        },
        MoveTarget::Single(side) => {
            let (blufor, opfor) = instance.partition_entities(state, source);
            let pool = if side == SingleTarget::Enemy {
                opfor
            } else {
                blufor
            };
            if pool.len() == 0 {
                let r = vec![source];
                assert(r@ =~= seq![source]);
                r
            } else {
                let r = vec![pool[target_pick % pool.len()]];
                assert(r@ =~= seq![pool@[target_pick as int % (pool@.len() as int)]]);
                r
            }
        },
    }
}

/// The random strategy with its two picks given: see `ai_choice`.
pub fn ai_select<P>(
    instance: &BattleInstance,
    state: &State<P>,
    source: Entity,
    move_pick: usize,
    target_pick: usize,
) -> (r: Option<(Arc<Move>, Vec<Entity>)>)
    ensures
        same_choice(r, ai_choice(instance.entities@, state, source, move_pick as int, target_pick as int)),
{
    let f = match state.fighter_components.get(source) {
        Some(f) => f,
        None => {
            return None;
        },
    };
    let cands = affordable_moves(f);
    if cands.len() == 0 {
        return None;
    }
    let m = cands[move_pick % cands.len()].clone();
    let targets = resolve_targets(instance, state, source, f.faction, &m, target_pick);
    Some((m, targets))
}


/// Draws the two picks of the random strategy, each uniform over what it
/// picks from: the source's affordable moves, then the pool a single ally
/// or enemy is taken from. A pick with nothing to pick from is zero.
fn draw_picks<P>(instance: &BattleInstance, state: &State<P>, source: Entity) -> (r: (usize, usize))
    ensures
        fighter_of(state, source) matches Some(f) ==> (affordable_moves_of(f).len() > 0
            ==> r.0 < affordable_moves_of(f).len()),
{
    let f = match state.fighter_components.get(source) {
        Some(f) => f,
        None => {
            return (0, 0);
        },
    };
    let cands = affordable_moves(f);
    if cands.len() == 0 {
        return (0, 0);
    }
    let move_pick = draw_below(cands.len());
    let pool: usize = match cands[move_pick].target {
        MoveTarget::Single(SingleTarget::Ally) => instance.partition_entities(state, source).0.len(),
        MoveTarget::Single(SingleTarget::Enemy) => instance.partition_entities(state, source).1.len(),
        _ => 0,
    };
    let target_pick = if pool > 0 {
        draw_below(pool)
    } else {
        0
    };
    (move_pick, target_pick)
}

/// The random strategy: a uniformly drawn affordable move and, for a single
/// ally or enemy, a uniformly drawn target. Whatever is drawn, the result is
/// the choice `ai_choice` gives for some picks, and there is one exactly
/// when the source has a fighter component and can pay for a move.
pub fn ai_random<P>(instance: &BattleInstance, state: &State<P>, source: Entity) -> (r: Option<(Arc<Move>, Vec<Entity>)>)
    ensures
        exists|mp: int, tp: int|
            0 <= mp && 0 <= tp && same_choice(r, #[trigger] ai_choice(instance.entities@, state, source, mp, tp)),
        r.is_some() == ai_choice(instance.entities@, state, source, 0, 0).is_some(),
{
    let (move_pick, target_pick) = draw_picks(instance, state, source);
    let r = ai_select(instance, state, source, move_pick, target_pick);
    assert(same_choice(r, ai_choice(instance.entities@, state, source, move_pick as int, target_pick as int)));
    r
}

/// Hands the choice to the strategy the source's fighter names; nothing for
/// an entity without a fighter component.
pub fn ai_handover<P>(instance: &BattleInstance, state: &State<P>, source: Entity) -> (r: Option<(Arc<Move>, Vec<Entity>)>)
    ensures
        exists|mp: int, tp: int|
            0 <= mp && 0 <= tp && same_choice(r, #[trigger] ai_choice(instance.entities@, state, source, mp, tp)),
        r.is_some() == ai_choice(instance.entities@, state, source, 0, 0).is_some(),
{
    let ai = match state.fighter_components.get(source) {
        Some(f) => f.ai,
        None => {
            assert(same_choice(None, ai_choice(instance.entities@, state, source, 0, 0)));
            return None;
        },
    };
    match ai {
        AI::Random => ai_random(instance, state, source),
    }
}

/// The agility that orders the roster; zero without a fighter component.
pub open spec fn agility_key<P>(state: &State<P>, e: Entity) -> int {
    match fighter_of(state, e) {
        Some(f) => f.agility as int,
        None => 0,
    }
}

pub open spec fn sorted_by_agility<P>(s: Seq<Entity>, state: &State<P>) -> bool {
    forall|i: int, j: int| 0 <= i < j < s.len() ==> agility_key(state, #[trigger] s[i]) <= agility_key(state, #[trigger] s[j])
}

fn agility_of<P>(state: &State<P>, e: Entity) -> (r: u16)
    ensures
        r == agility_key(state, e),
{
    match state.fighter_components.get(e) {
        Some(f) => f.agility,
        None => 0,
    }
}

/// The roster reordered by ascending agility, equal agilities keeping their
/// order.
fn order_by_agility<P>(roster: &Vec<Entity>, state: &State<P>) -> (r: Vec<Entity>)
    ensures
        r@.to_multiset() == roster@.to_multiset(),
        sorted_by_agility(r@, state),
{
    let mut out: Vec<Entity> = Vec::new();
    let mut i: usize = 0;
    proof {
        vstd::seq_lib::to_multiset_len(out@);
        vstd::seq_lib::to_multiset_len(roster@.subrange(0, 0));
        assert(out@.to_multiset() =~= roster@.subrange(0, 0).to_multiset());
    }
    while i < roster.len()
        invariant
            i <= roster@.len(),
            sorted_by_agility(out@, state),
            out@.to_multiset() == roster@.subrange(0, i as int).to_multiset(),
        decreases roster@.len() - i,
    {
        let e = roster[i];
        let k = agility_of(state, e);
        let mut p: usize = 0;
        while p < out.len() && agility_of(state, out[p]) <= k
            invariant
                p <= out@.len(),
                forall|q: int| 0 <= q < p ==> agility_key(state, #[trigger] out@[q]) <= k,
            decreases out@.len() - p,
        {
            p = p + 1;
        }
        let ghost before = out@;
        out.insert(p, e);
        proof {
            assert(p < before.len() ==> agility_key(state, before[p as int]) > k);
            assert forall|a: int, b: int| 0 <= a < b < out@.len() implies agility_key(state, #[trigger] out@[a])
                <= agility_key(state, #[trigger] out@[b]) by {
                if b < p {
                    assert(out@[a] == before[a] && out@[b] == before[b]);
                } else if b == p {
                    assert(out@[a] == before[a]);
                } else if a < p {
                    assert(out@[a] == before[a] && out@[b] == before[b - 1]);
                } else if a == p {
                    assert(out@[b] == before[b - 1]);
                    assert(agility_key(state, before[p as int]) <= agility_key(state, before[b - 1]));
                } else {
                    assert(out@[a] == before[a - 1] && out@[b] == before[b - 1]);
                }
            }
            assert(roster@.subrange(0, i as int + 1) =~= roster@.subrange(0, i as int).push(e));
            assert(out@ == before.insert(p as int, e));
            vstd::seq_lib::to_multiset_insert(before, p as int, e);
            vstd::seq_lib::to_multiset_build(roster@.subrange(0, i as int), e);
        }
        i = i + 1;
    }
    proof {
        assert(roster@.subrange(0, roster@.len() as int) =~= roster@);
    }
    out
}

/// The actions a choice queues: one per target, in order, each from the
/// source with the chosen move.
pub open spec fn queued(source: Entity, m: Arc<Move>, targets: Seq<Entity>) -> Seq<Action> {
    targets.map_values(|t: Entity| Action::Move(source, m, t))
}

/// What the fighter at `index` of `roster` queues on its turn: nothing when
/// it is down or has no fighter component, or when its strategy finds no
/// move it can pay for (it passes); otherwise its strategy's choice for the
/// given picks.
pub open spec fn turn_choice<P>(
    roster: Seq<Entity>,
    index: int,
    state: &State<P>,
    move_pick: int,
    target_pick: int,
) -> Option<(Arc<Move>, Seq<Entity>)> {
    let source = roster[index];
    if is_living(state, source) {
        ai_choice(roster, state, source, move_pick, target_pick)
    } else {
        None
    }
}

/// The turn of the fighter at `index` of `roster`, with `actions` queued
/// before it, ends in `after`: the fighter queues one action per target of
/// its choice and the machine waits for the event, or it passes and the
/// machine stays available; the turn passes to the next in the roster
/// either way. With an empty roster nothing happens.
pub open spec fn turn_taken<P>(
    roster: Seq<Entity>,
    index: int,
    actions: Seq<Action>,
    after: BattleInstance,
    state: &State<P>,
    move_pick: int,
    target_pick: int,
) -> bool {
    &&& after.entities@ == roster
    &&& if roster.len() == 0 {
        &&& after.entity_index == index
        &&& after.actions@ == actions
        &&& after.state == BattleState::Available
    } else {
        &&& after.entity_index == (index + 1) % (roster.len() as int)
        &&& match turn_choice(roster, index, state, move_pick, target_pick) {
            Some(c) => {
                &&& after.actions@ == actions + queued(roster[index], c.0, c.1)
                &&& after.state == BattleState::WaitingEvent
            },
            None => {
                &&& after.actions@ == actions
                &&& after.state == BattleState::Available
            },
        }
    }
}

/// One step of the turn machine, from `before` to `after`, with the given
/// picks for the strategy:
/// - while waiting for an event or a player nothing changes;
/// - on start the roster is put in ascending order of agility, then its head
///   takes its turn;
/// - when available, the fighter whose turn it is takes its turn.
pub open spec fn step_taken<P>(
    before: BattleInstance,
    after: BattleInstance,
    state: &State<P>,
    move_pick: int,
    target_pick: int,
) -> bool {
    &&& after.enemy_name == before.enemy_name
    &&& after.win_message == before.win_message
    &&& after.loss_message == before.loss_message
    &&& match before.state {
        BattleState::Started => {
            &&& after.entities@.to_multiset() == before.entities@.to_multiset()
            &&& sorted_by_agility(after.entities@, state)
            &&& turn_taken(after.entities@, 0, before.actions@, after, state, move_pick, target_pick)
        },
        BattleState::Available => turn_taken(
            before.entities@,
            before.entity_index as int,
            before.actions@,
            after,
            state,
            move_pick,
            target_pick,
        ),
        _ => {
            &&& after.entities@ == before.entities@
            &&& after.entity_index == before.entity_index
            &&& after.actions@ == before.actions@
            &&& after.state == before.state
        },
    }
}

/// The roster position that acts in a step from `before`: the head of the
/// freshly ordered roster on start, the current turn otherwise.
pub open spec fn acting_index(before: BattleInstance) -> int {
    if before.state == BattleState::Started {
        0
    } else {
        before.entity_index as int
    }
}

impl BattleInstance {
    /// Sets the turn order: ascending agility, the turn to the head of the
    /// roster, ready for the first action.
    fn begin<P>(&mut self, state: &State<P>)
        ensures
            final(self).entities@.to_multiset() == old(self).entities@.to_multiset(),
            sorted_by_agility(final(self).entities@, state),
            final(self).entity_index == 0,
            final(self).actions@ == old(self).actions@,
            final(self).state == BattleState::Available,
            final(self).enemy_name == old(self).enemy_name,
            final(self).win_message == old(self).win_message,
            final(self).loss_message == old(self).loss_message,
    {
        let ordered = order_by_agility(&self.entities, state);
        self.entities = ordered;
        self.entity_index = 0;
        self.state = BattleState::Available;
    }
}

/// The turn of the fighter whose turn it is: see `turn_taken`.
fn take_turn<P>(state: &State<P>, instance: &mut BattleInstance, move_pick: usize, target_pick: usize)
    requires
        old(instance).wf(),
        old(instance).state == BattleState::Available,
    ensures
        final(instance).wf(),
        turn_taken(
            old(instance).entities@,
            old(instance).entity_index as int,
            old(instance).actions@,
            *final(instance),
            state,
            move_pick as int,
            target_pick as int,
        ),
        final(instance).enemy_name == old(instance).enemy_name,
        final(instance).win_message == old(instance).win_message,
        final(instance).loss_message == old(instance).loss_message,
{
    let ghost before = *instance;
    let n = instance.entities.len();
    if n == 0 {
        return;
    }
    let source = instance.entities[instance.entity_index];
    instance.entity_index = (instance.entity_index + 1) % n;
    let living = match state.fighter_components.get(source) {
        Some(f) => f.hp > 0,
        None => false,
    };
    if !living {
        return;
    }
    let ghost roster = instance.entities@;
    let choice = ai_select(instance, state, source, move_pick, target_pick);
    match choice {
        Some((m, targets)) => {
            let ghost start = instance.actions@;
            let mut k: usize = 0;
            while k < targets.len()
                invariant
                    k <= targets@.len(),
                    instance.entities@ == roster,
                    instance.actions@ == start + queued(source, m, targets@.subrange(0, k as int)),
                    instance.entity_index < roster.len(),
                    instance.entity_index == (before.entity_index + 1) % (roster.len() as int),
                    instance.enemy_name == before.enemy_name,
                    instance.win_message == before.win_message,
                    instance.loss_message == before.loss_message,
                decreases targets@.len() - k,
            {
                instance.actions.push(Action::Move(source, m.clone(), targets[k]));
                proof {
                    assert(queued(source, m, targets@.subrange(0, k as int + 1)) =~= queued(
                        source,
                        m,
                        targets@.subrange(0, k as int),
                    ).push(Action::Move(source, m, targets@[k as int])));
                }
                k = k + 1;
            }
            proof {
                assert(targets@.subrange(0, targets@.len() as int) =~= targets@);
            }
            instance.state = BattleState::WaitingEvent;
        },
        None => {},
    }
}

/// One step of the turn machine with the strategy's picks given: see
/// `step_taken`.
pub fn battle_step<P>(state: &State<P>, instance: &mut BattleInstance, move_pick: usize, target_pick: usize)
    requires
        old(instance).wf(),
    ensures
        final(instance).wf(),
        step_taken(*old(instance), *final(instance), state, move_pick as int, target_pick as int),
{
    match instance.state {
        BattleState::Started => {
            instance.begin(state);
            take_turn(state, instance, move_pick, target_pick);
        },
        BattleState::Available => {
            take_turn(state, instance, move_pick, target_pick);
        },
        _ => {},
    }
}

/// One step of the turn machine, drawing the strategy's picks for the
/// fighter that acts: the step is the one `step_taken` describes for some
/// picks.
pub fn battle_loop<P>(state: &State<P>, instance: &mut BattleInstance)
    requires
        old(instance).wf(),
    ensures
        final(instance).wf(),
        exists|mp: int, tp: int| #[trigger] step_taken(*old(instance), *final(instance), state, mp, tp),
{
    let ghost before = *instance;
    if instance.state == BattleState::Started {
        instance.begin(state);
    }
    if instance.state == BattleState::Available {
        let (move_pick, target_pick) = if instance.entities.len() > 0 {
            let source = instance.entities[instance.entity_index];
            draw_picks(instance, state, source)
        } else {
            (0, 0)
        };
        take_turn(state, instance, move_pick, target_pick);
        assert(step_taken(before, *instance, state, move_pick as int, target_pick as int));
    } else {
        assert(step_taken(before, *instance, state, 0, 0));
    }
}

/// An area move against enemies queues exactly one action per living enemy
/// of the source in the roster, each from the source and with that move.
pub proof fn lemma_aoe_enemy_fan_out<P>(
    roster: Seq<Entity>,
    state: &State<P>,
    source: Entity,
    m: Arc<Move>,
    target_pick: int,
)
    requires
        fighter_of(state, source).is_some(),
        m.target == MoveTarget::AOE(AOETarget::Enemy),
    ensures
        ({
            let faction = fighter_of(state, source).unwrap().faction;
            let targets = targets_for(roster, state, source, faction, m.target, target_pick);
            let actions = queued(source, m, targets);
            &&& targets == roster.filter(|e: Entity| in_aoe(state, faction, AOETarget::Enemy, e))
            &&& actions.len() == targets.len()
            &&& forall|k: int|
                0 <= k < targets.len() ==> {
                    &&& #[trigger] actions[k] == Action::Move(source, m, targets[k])
                    &&& is_living(state, targets[k])
                    &&& opposes(state, faction, targets[k])
                }
            &&& forall|i: int|
                0 <= i < roster.len() && is_living(state, roster[i]) && opposes(state, faction, roster[i])
                    ==> #[trigger] targets.contains(roster[i])
        }),
{
    broadcast use vstd::seq_lib::group_filter_ensures;

    let faction = fighter_of(state, source).unwrap().faction;
    let pred = |e: Entity| in_aoe(state, faction, AOETarget::Enemy, e);
    let targets = roster.filter(pred);
    assert forall|k: int| 0 <= k < targets.len() implies is_living(state, targets[k]) && opposes(
        state,
        faction,
        targets[k],
    ) by {
        assert(pred(targets[k]));
    }
    assert forall|i: int|
        0 <= i < roster.len() && is_living(state, roster[i]) && opposes(state, faction, roster[i]) implies #[trigger] targets.contains(
        roster[i],
    ) by {
        assert(pred(roster[i]));
        roster.lemma_filter_contains(pred, i);
    }
}


impl BattleInstance {
    /// Takes the oldest queued action.
    pub fn next_action(&mut self) -> (r: Option<Action>)
        ensures
            old(self).actions@.len() == 0 ==> r.is_none() && final(self).actions@ == old(self).actions@,
            old(self).actions@.len() > 0 ==> r == Some(old(self).actions@[0]) && final(self).actions@
                == old(self).actions@.subrange(1, old(self).actions@.len() as int),
            final(self).entities@ == old(self).entities@,
            final(self).entity_index == old(self).entity_index,
            final(self).state == old(self).state,
            final(self).enemy_name == old(self).enemy_name,
    {
        if self.actions.len() == 0 {
            None
        } else {
            Some(self.actions.remove(0))
        }
    }
}

/// Plays out one queued action: works out the move's effect under the given
/// draws and applies it. A `Down` action, or a move whose source or target
/// has no fighter component, changes nothing and gives no result.
pub fn resolve_action<P>(state: &mut State<P>, action: &Action, rolls: &EffectRolls) -> (r: Option<MoveResult>)
    ensures
        final(state).entity_allocator == old(state).entity_allocator,
        final(state).null_components == old(state).null_components,
        final(state).position_components == old(state).position_components,
        old(state).wf() ==> final(state).wf(),
        match *action {
            Action::Move(s, m, t) => match (fighter_of(old(state), s), fighter_of(old(state), t)) {
                (Some(fs), Some(ft)) => {
                    &&& r == Some(effect_of(fs, *m, ft, *rolls))
                    &&& final(state).fighter_components@ == after_effect(old(state), s, t, r.unwrap())
                },
                _ => r.is_none() && final(state).fighter_components@ == old(state).fighter_components@,
            },
            Action::Down(_) => r.is_none() && final(state).fighter_components@ == old(state).fighter_components@,
        },
{
    match action {
        Action::Move(s, m, t) => {
            let result = match (state.fighter_components.get(*s), state.fighter_components.get(*t)) {
                (Some(fs), Some(ft)) => calculate_effect(fs, m, ft, rolls),
                _ => {
                    return None;
                },
            };
            execute_effect(state, *s, *t, result);
            Some(result)
        },
        Action::Down(_) => None,
    }
}

/// Every member of the roster on the faction's side is down (a faction
/// with no member in the roster counts as down).
pub open spec fn all_down<P>(roster: Seq<Entity>, state: &State<P>, faction: Faction) -> bool {
    forall|i: int| 0 <= i < roster.len() && sides_with(state, faction, #[trigger] roster[i]) ==> !is_living(state, roster[i])
}

/// Whether a whole faction has been downed: the test that ends an encounter
/// in a win or a loss.
pub fn faction_downed<P>(instance: &BattleInstance, state: &State<P>, faction: Faction) -> (r: bool)
    ensures
        r == all_down(instance.entities@, state, faction),
{
    let mut i: usize = 0;
    while i < instance.entities.len()
        invariant
            i <= instance.entities@.len(),
            forall|j: int|
                0 <= j < i && sides_with(state, faction, #[trigger] instance.entities@[j]) ==> !is_living(
                    state,
                    instance.entities@[j],
                ),
        decreases instance.entities@.len() - i,
    {
        let e = instance.entities[i];
        match state.fighter_components.get(e) {
            Some(f) => {
                if f.faction == faction && f.hp > 0 {
                    return false;
                }
            },
            None => {},
        }
        i = i + 1;
    }
    true
}


/// When the fighter that acts in a step (the head of the freshly ordered
/// roster on start, the one whose turn it is otherwise) picks an area move
/// against enemies, the step appends exactly one action per living enemy in
/// the roster, in roster order, each from that fighter and with that move.
pub proof fn lemma_turn_fans_out_over_enemies<P>(
    before: BattleInstance,
    after: BattleInstance,
    state: &State<P>,
    move_pick: int,
    target_pick: int,
)
    requires
        step_taken(before, after, state, move_pick, target_pick),
        before.state == BattleState::Started || before.state == BattleState::Available,
        after.entities@.len() > 0,
        turn_choice(after.entities@, acting_index(before), state, move_pick, target_pick) matches Some(c)
            && c.0.target == MoveTarget::AOE(AOETarget::Enemy),
    ensures
        ({
            let source = after.entities@[acting_index(before)];
            let c = turn_choice(after.entities@, acting_index(before), state, move_pick, target_pick).unwrap();
            let faction = fighter_of(state, source).unwrap().faction;
            let enemies = after.entities@.filter(|e: Entity| in_aoe(state, faction, AOETarget::Enemy, e));
            &&& after.state == BattleState::WaitingEvent
            &&& after.actions@.len() == before.actions@.len() + enemies.len()
            &&& forall|k: int|
                0 <= k < enemies.len() ==> #[trigger] after.actions@[before.actions@.len() + k]
                    == Action::Move(source, c.0, enemies[k])
        }),
{
    let i = acting_index(before);
    let roster = after.entities@;
    let source = roster[i];
    let c = turn_choice(roster, i, state, move_pick, target_pick).unwrap();
    assert(after.actions@ == before.actions@ + queued(source, c.0, c.1));
    lemma_aoe_enemy_fan_out(roster, state, source, c.0, target_pick);
    let faction = fighter_of(state, source).unwrap().faction;
    let enemies = roster.filter(|e: Entity| in_aoe(state, faction, AOETarget::Enemy, e));
    assert forall|k: int| 0 <= k < enemies.len() implies #[trigger] after.actions@[before.actions@.len() + k]
        == Action::Move(source, c.0, enemies[k]) by {
        assert(queued(source, c.0, c.1)[k] == Action::Move(source, c.0, c.1[k]));
    }
}

/// Health stays within bounds when an effect lands on a target other than
/// its source: damage takes at most the HP the target has, healing a living
/// target stops at its maximum, a downed target is not healed, and a target
/// whose HP reaches zero is down.
pub proof fn lemma_effect_keeps_health_in_bounds<P>(
    state: &State<P>,
    source: Entity,
    target: Entity,
    result: MoveResult,
)
    requires
        fighter_of(state, source).is_some(),
        fighter_of(state, target) matches Some(t) && t.wf(),
        source.spec_index() != target.spec_index(),
    ensures
        ({
            let t = fighter_of(state, target).unwrap();
            let slot = after_effect(state, source, target, result)[target.spec_index() as int];
            let t2 = slot.unwrap().0;
            &&& slot.is_some()
            &&& t2.wf()
            &&& t2.max_hp == t.max_hp
            &&& t2.hp == 0 ==> !t2.alive
            &&& result.damaging ==> t2.hp == t.hp - (if t.hp <= result.hp { t.hp as int } else { result.hp as int })
            &&& !result.damaging && t.alive ==> t2.hp == (if t.hp + result.hp <= t.max_hp {
                t.hp + result.hp
            } else {
                t.max_hp as int
            })
            &&& !result.damaging && !t.alive ==> t2.hp == t.hp
        }),
{
}

} // verus!
