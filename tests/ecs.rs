use walter::component::{Faction, FighterComponent, AI};
use walter::ecs::{
    Component, ComponentType, GenerationalIndexAllocator, GenerationalIndexArray, State, MAX_ENTITIES,
};

fn fighter(name: &str) -> FighterComponent {
    FighterComponent::new(name, 1, Faction::Ally, AI::Random, 10, 5, Vec::new(), 1, 1, 1, 1)
}

#[test]
fn allocator_hands_out_lowest_free_slot() {
    let mut a = GenerationalIndexAllocator::new(4);
    let h0 = a.allocate();
    let h1 = a.allocate();
    let h2 = a.allocate();
    assert_eq!((h0.index(), h1.index(), h2.index()), (0, 1, 2));
    assert_eq!(h0.generation(), 0);
    assert!(a.deallocate(h1));
    assert!(a.deallocate(h0));
    let h3 = a.allocate();
    assert_eq!(h3.index(), 0);
    assert_eq!(h3.generation(), 1);
    let h4 = a.allocate();
    assert_eq!(h4.index(), 1);
    assert_eq!(h4.generation(), 1);
}

#[test]
fn deallocate_twice_reports_false() {
    let mut a = GenerationalIndexAllocator::new(2);
    let h = a.allocate();
    assert!(a.deallocate(h));
    assert!(!a.deallocate(h));
}

#[test]
fn pool_of_two_reuses_slot_with_new_generation() {
    let mut state: State<()> = State::new();
    let mut a = GenerationalIndexAllocator::new(2);
    let mut store: GenerationalIndexArray<u32> = GenerationalIndexArray::new(2);
    let h0 = a.allocate();
    let h1 = a.allocate();
    store.set(h0, 10);
    store.set(h1, 11);
    assert!(a.deallocate(h0));
    store.unset(h0);
    let h2 = a.allocate();
    assert_eq!(h2.index(), h0.index());
    assert_ne!(h2.generation(), h0.generation());
    assert_ne!(h2, h0);
    store.set(h2, 12);
    assert_eq!(store.get(h0), None);
    assert_eq!(store.get(h2), Some(&12));
    assert_eq!(store.get(h1), Some(&11));
    // the same through the world's stores
    let e0 = state.new_entity().add_fighter(&mut state, fighter("a"));
    assert!(state.delete_entity(e0));
    let e1 = state.new_entity().add_fighter(&mut state, fighter("b"));
    assert_eq!(e1.index(), e0.index());
    assert!(state.fighter_components.get(e0).is_none());
    assert!(state.null_components.get(e0).is_none());
    assert!(state.position_components.get(e0).is_none());
    assert_eq!(state.fighter_components.get(e1).unwrap().display_name, "b");
}

#[test]
fn pool_exhaustion_is_reported() {
    let mut a = GenerationalIndexAllocator::new(2);
    assert!(a.can_allocate());
    let h0 = a.allocate();
    assert!(a.can_allocate());
    let _h1 = a.allocate();
    assert!(!a.can_allocate());
    assert!(a.deallocate(h0));
    assert!(a.can_allocate());
    let empty = GenerationalIndexAllocator::new(0);
    assert!(!empty.can_allocate());
}

#[test]
fn world_holds_max_entities() {
    let mut state: State<()> = State::new();
    for i in 0..MAX_ENTITIES {
        assert!(state.entity_allocator.can_allocate());
        let e = state.new_entity();
        assert_eq!(e.index(), i);
    }
    assert!(!state.entity_allocator.can_allocate());
}

#[test]
fn store_lookup_checks_generation() {
    let mut a = GenerationalIndexAllocator::new(3);
    let mut store: GenerationalIndexArray<&str> = GenerationalIndexArray::new(3);
    assert_eq!(store.len(), 3);
    let h = a.allocate();
    assert_eq!(store.get(h), None);
    store.set(h, "x");
    assert_eq!(store.get(h), Some(&"x"));
    if let Some(v) = store.get_mut(h) {
        *v = "y";
    }
    assert_eq!(store.get(h), Some(&"y"));
    a.deallocate(h);
    let h2 = a.allocate();
    assert_eq!(store.get(h2), None);
    assert!(store.get_mut(h2).is_none());
    store.unset(h);
    assert_eq!(store.get(h), None);
}

#[test]
fn delete_entity_clears_every_store() {
    let mut state: State<(i32, i32)> = State::new();
    let e = state.new_entity().add_null(&mut state).add_position(&mut state, (3, 4)).add_fighter(&mut state, fighter("f"));
    assert!(e.has_component(&mut state, ComponentType::Null));
    assert!(e.has_component(&mut state, ComponentType::Position));
    assert!(e.has_component(&mut state, ComponentType::Fighter));
    assert!(!e.has_component(&mut state, ComponentType::Inventory));
    assert_eq!(state.null_components.get(e).unwrap().owner, e);
    assert!(state.delete_entity(e));
    assert!(!e.has_component(&mut state, ComponentType::Null));
    assert!(!e.has_component(&mut state, ComponentType::Position));
    assert!(!e.has_component(&mut state, ComponentType::Fighter));
    assert!(!state.delete_entity(e));
}

#[test]
fn remove_component_by_tag() {
    let mut state: State<(i32, i32)> = State::new();
    let e = state.new_entity().add_position(&mut state, (1, 2)).add_null(&mut state);
    assert!(e.remove_component(&mut state, ComponentType::Position));
    assert!(!e.has_component(&mut state, ComponentType::Position));
    assert!(e.has_component(&mut state, ComponentType::Null));
    assert!(!e.remove_component(&mut state, ComponentType::Playable));
    assert!(e.has_component(&mut state, ComponentType::Null));
}

#[test]
fn build_entity_routes_components() {
    let mut state: State<(i32, i32)> = State::new();
    let e = state.build_entity(vec![
        Component::Position((1, 1)),
        Component::Fighter(fighter("first")),
        Component::Position((2, 2)),
    ]);
    assert_eq!(state.position_components.get(e), Some(&(2, 2)));
    assert_eq!(state.fighter_components.get(e).unwrap().display_name, "first");
    assert!(state.null_components.get(e).is_none());
    let e2 = state.build_entity(vec![Component::Null]);
    assert_ne!(e2, e);
    assert_eq!(state.null_components.get(e2).unwrap().owner, e2);
    assert!(state.position_components.get(e2).is_none());
}

#[test]
fn stale_handles_miss_across_many_reuses() {
    let mut state: State<u8> = State::new();
    let mut old_handles = Vec::new();
    for round in 0..50u8 {
        let e = state.new_entity().add_position(&mut state, round).add_null(&mut state);
        assert_eq!(e.index(), 0);
        assert_eq!(e.generation(), round as u32);
        for h in &old_handles {
            assert!(state.position_components.get(*h).is_none());
            assert!(state.null_components.get(*h).is_none());
            assert!(state.fighter_components.get(*h).is_none());
        }
        assert_eq!(state.position_components.get(e), Some(&round));
        assert!(state.delete_entity(e));
        old_handles.push(e);
    }
}
