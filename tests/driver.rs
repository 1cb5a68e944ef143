use std::sync::Arc;
use walter::battle::{faction_downed, resolve_action, Action, BattleInstance, EffectRolls, MoveResult};
use walter::component::{Faction, FighterComponent, Move, MoveTarget, SingleTarget, AI};
use walter::ecs::{Entity, State};

fn setup() -> (State<()>, Entity, Entity) {
    let mut state: State<()> = State::new();
    let a = state
        .new_entity()
        .add_fighter(&mut state, FighterComponent::new("A", 1, Faction::Ally, AI::Random, 100, 10, Vec::new(), 100, 1, 1, 0));
    let b = state
        .new_entity()
        .add_fighter(&mut state, FighterComponent::new("B", 1, Faction::Enemy, AI::Random, 150, 10, Vec::new(), 1, 100, 1, 0));
    (state, a, b)
}

#[test]
fn next_action_is_first_in_first_out() {
    let (_state, a, b) = setup();
    let mut inst = BattleInstance::new("B");
    assert!(inst.next_action().is_none());
    inst.add_action(Action::Down(a));
    inst.add_action(Action::Down(b));
    assert!(matches!(inst.next_action(), Some(Action::Down(e)) if e == a));
    assert!(matches!(inst.next_action(), Some(Action::Down(e)) if e == b));
    assert!(inst.next_action().is_none());
}

#[test]
fn resolve_action_calculates_and_applies() {
    let (mut state, a, b) = setup();
    let m = Arc::new(
        Move::new("Hit", "", "hits", 2, 3, 120, true, 1000, MoveTarget::Single(SingleTarget::Enemy)),
    );
    let action = Action::Move(a, m, b);
    let r = resolve_action(&mut state, &action, &EffectRolls { hit: 0, crit: 999, variation: 500 });
    assert_eq!(r, Some(MoveResult { hit: true, crit: false, hp_cost: 2, sp_cost: 3, hp: 120, damaging: true }));
    let fa = state.fighter_components.get(a).unwrap();
    assert_eq!((fa.hp, fa.sp), (98, 7));
    assert_eq!(state.fighter_components.get(b).unwrap().hp, 30);
    assert!(resolve_action(&mut state, &Action::Down(b), &EffectRolls { hit: 0, crit: 0, variation: 0 }).is_none());
    assert_eq!(state.fighter_components.get(b).unwrap().hp, 30);
}

#[test]
fn faction_downed_checks_every_member() {
    let (mut state, a, b) = setup();
    let mut inst = BattleInstance::new("B");
    inst.add_entities(&mut vec![a, b]);
    assert!(!faction_downed(&inst, &state, Faction::Enemy));
    assert!(!faction_downed(&inst, &state, Faction::Ally));
    state.fighter_components.get_mut(b).unwrap().dec_hp(1000);
    assert!(faction_downed(&inst, &state, Faction::Enemy));
    assert!(!faction_downed(&inst, &state, Faction::Ally));
    let empty = BattleInstance::new("nobody");
    assert!(faction_downed(&empty, &state, Faction::Ally));
}
