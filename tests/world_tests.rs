use game_of_life::game::{Cell, World};

#[test]
fn test_spawn_new_word() {
    let cells = vec![
        Cell::new(0, 0),
        Cell::new(0, 1),
        Cell::new(1, 0),
        Cell::new(1, 1),
        Cell::new(3, 3),
    ];
    let w = World { cells };

    let word = w.spawn();
    let expected = vec![Cell::new(0, 0), Cell::new(0, 1), Cell::new(1, 0), Cell::new(1, 1)];

    assert_eq!(expected, word.living_cells());
}

#[test]
fn spawn_keeps_the_parent_generation() {
    let w = World::new(vec![Cell::new(0, 0), Cell::new(5, 5)]);
    let next = w.spawn();
    assert_eq!(next.living_cells(), Vec::<Cell>::new());
    assert_eq!(w.living_cells(), vec![Cell::new(0, 0), Cell::new(5, 5)]);
}

#[test]
fn spawn_does_not_give_birth() {
    // (1, 1) is dead with three living neighbours, yet only living cells are candidates.
    let w = World::new(vec![Cell::new(0, 0), Cell::new(0, 1), Cell::new(1, 0)]);
    let next = w.spawn();
    assert_eq!(next.living_cells(), vec![Cell::new(0, 0), Cell::new(0, 1), Cell::new(1, 0)]);
}

#[test]
fn blinker_loses_its_ends() {
    let w = World::new(vec![Cell::new(0, 1), Cell::new(1, 1), Cell::new(2, 1)]);
    assert_eq!(w.spawn().living_cells(), vec![Cell::new(1, 1)]);
}

#[test]
fn empty_world_stays_empty() {
    let w = World::new(Vec::new());
    assert!(w.spawn().living_cells().is_empty());
}

#[test]
fn stable_block_is_a_fixed_point() {
    let block = vec![Cell::new(0, 0), Cell::new(0, 1), Cell::new(1, 0), Cell::new(1, 1)];
    let w = World::new(block.clone());
    let once = w.spawn();
    let twice = once.spawn();
    assert_eq!(once.living_cells(), block);
    assert_eq!(twice.living_cells(), block);
}

#[test]
fn living_cells_returns_the_seed_in_order() {
    let seed = vec![Cell::new(2, 2), Cell::new(-1, 0), Cell::new(2, 2)];
    let w = World::new(seed.clone());
    assert_eq!(w.living_cells(), seed);
}
