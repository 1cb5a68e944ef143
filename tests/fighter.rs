use std::sync::Arc;
use walter::component::{AOETarget, Faction, FighterComponent, Move, MoveTarget, SingleTarget, AI};

fn sample() -> FighterComponent {
    FighterComponent::new("Walter", 3, Faction::Ally, AI::Random, 100, 40, Vec::new(), 10, 5, 7, 2)
}

#[test]
fn move_new_turns_zero_power_into_none() {
    let m = Move::new("Guard", "Brace.", "braces", 0, 0, 0, false, 1000, MoveTarget::Single(SingleTarget::User));
    assert_eq!(m.power, None);
    assert_eq!(m.name, "Guard");
    assert!(!m.crit);
    let m = Move::new("Bash", "Hit.", "bashes", 1, 2, 30, true, 900, MoveTarget::AOE(AOETarget::Enemy));
    assert_eq!(m.power, Some(30));
    assert_eq!((m.hp_cost, m.sp_cost, m.accuracy), (1, 2, 900));
    assert_eq!(m.target, MoveTarget::AOE(AOETarget::Enemy));
}

#[test]
fn move_builders_set_fields() {
    let m = Move::new("Zap", "", "", 0, 0, 0, true, 1000, MoveTarget::Single(SingleTarget::Enemy))
        .set_hp_cost(3)
        .set_sp_cost(4)
        .set_power(50)
        .set_crit(200);
    assert_eq!((m.hp_cost, m.sp_cost, m.power), (3, 4, Some(50)));
    assert!(m.crit);
    assert_eq!(m.crit_chance, 200);
}

#[test]
fn fighter_new_starts_full() {
    let f = sample();
    assert_eq!((f.hp, f.max_hp, f.sp, f.max_sp), (100, 100, 40, 40));
    assert!(f.alive);
    assert_eq!(f.support, 100);
    assert!(f.selected_move.is_none());
    let down = FighterComponent::new("x", 1, Faction::Enemy, AI::Random, 0, 0, Vec::new(), 0, 0, 0, 0);
    assert!(!down.alive);
}

#[test]
fn fighter_builders_set_stats() {
    let m = Arc::new(Move::new("Bash", "", "", 0, 0, 10, true, 1000, MoveTarget::Single(SingleTarget::Enemy)));
    let f = sample()
        .add_move(&m)
        .set_level(9)
        .set_max_hp(50)
        .set_max_sp(20)
        .set_attack(11)
        .set_defence(12)
        .set_agility(13)
        .set_luck(14)
        .set_support(150)
        .set_crit(30)
        .set_infinite_sp(true);
    assert_eq!(f.moves.len(), 1);
    assert_eq!(f.moves[0].name, "Bash");
    assert_eq!(f.level, 9);
    assert_eq!((f.hp, f.max_hp, f.sp, f.max_sp), (50, 50, 20, 20));
    assert_eq!((f.attack, f.defence, f.agility, f.luck), (11, 12, 13, 14));
    assert_eq!((f.support, f.crit), (150, 30));
    assert!(f.infinite_sp);
}

#[test]
fn health_stays_within_bounds() {
    let mut f = sample();
    f.dec_hp(30);
    assert_eq!(f.hp, 70);
    f.inc_hp(500);
    assert_eq!(f.hp, 100);
    f.dec_hp(250);
    assert_eq!(f.hp, 0);
    assert!(!f.alive);
    f.inc_hp(20);
    assert_eq!(f.hp, 0);
    assert!(!f.alive);
    f.dec_hp(5);
    assert_eq!(f.hp, 0);
}

#[test]
fn revive_sets_fraction_of_max_hp() {
    let mut f = sample().set_max_hp(99);
    f.dec_hp(99);
    assert!(!f.alive);
    f.revive(500);
    assert!(f.alive);
    assert_eq!(f.hp, 49);
    f.dec_hp(49);
    assert!(!f.alive);
    f.revive(1000);
    assert_eq!(f.hp, 99);
    assert!(f.alive);
}

#[test]
fn sp_spending_stops_at_zero() {
    let mut f = sample();
    f.dec_sp(15);
    assert_eq!(f.sp, 25);
    f.dec_sp(100);
    assert_eq!(f.sp, 0);
    let mut g = sample().set_infinite_sp(true);
    g.dec_sp(15);
    assert_eq!(g.sp, 40);
}
