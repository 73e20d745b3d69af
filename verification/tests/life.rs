use bbs_tui::life::{Lcg, Life};

fn alive_cells(life: &Life) -> Vec<(usize, usize)> {
    let mut out = Vec::new();
    for y in 0..life.height {
        for x in 0..life.width {
            if life.get(x, y) {
                out.push((x, y));
            }
        }
    }
    out
}

#[test]
fn the_generator_is_a_linear_congruential_one() {
    let mut g = Lcg::new(0);
    assert_eq!(g.next_u32(), 15470);
    assert_eq!(g.state, 1013904223);
    let mut g = Lcg::new(u64::MAX);
    let expected = u64::MAX.wrapping_mul(1664525).wrapping_add(1013904223);
    assert_eq!(g.next_u32(), (expected >> 16) as u32);
    assert_eq!(g.state, expected);
}

#[test]
fn gen_range_stays_in_range_and_skips_the_draw_for_an_empty_one() {
    let mut g = Lcg::new(42);
    assert_eq!(g.gen_range(5, 5), 5);
    assert_eq!(g.gen_range(9, 3), 9);
    assert_eq!(g.state, 42);
    for _ in 0..200 {
        let n = g.gen_range(3, 7);
        assert!((3..7).contains(&n));
    }
    let mut a = Lcg::new(7);
    let mut b = Lcg::new(7);
    let drawn = a.next_u32();
    assert_eq!(b.gen_range(10, 20), 10 + drawn % 10);
    let mut c = Lcg::new(7);
    assert_eq!(c.chance(1, 2), drawn % 2 < 1);
}

#[test]
fn a_small_grid_starts_empty() {
    let life = Life::new(5, 5);
    assert_eq!(life.width, 5);
    assert_eq!(life.height, 5);
    assert!(alive_cells(&life).is_empty());
    let life = Life::new(0, 0);
    assert!(alive_cells(&life).is_empty());
}

#[test]
fn a_blinker_oscillates() {
    let mut life = Life::new(5, 5);
    life.seed_blinker(1, 2, 0);
    assert_eq!(alive_cells(&life), vec![(1, 2), (2, 2), (3, 2)]);
    life.step();
    assert_eq!(alive_cells(&life), vec![(2, 1), (2, 2), (2, 3)]);
    life.step();
    assert_eq!(alive_cells(&life), vec![(1, 2), (2, 2), (3, 2)]);
}

#[test]
fn a_block_is_still_and_a_lone_cell_dies() {
    let mut life = Life::new(6, 6);
    life.set(1, 1, true);
    life.set(2, 1, true);
    life.set(1, 2, true);
    life.set(2, 2, true);
    life.set(5, 5, true);
    life.step();
    assert_eq!(alive_cells(&life), vec![(1, 1), (2, 1), (1, 2), (2, 2)]);
}

#[test]
fn cells_off_the_grid_count_as_dead() {
    let mut life = Life::new(3, 3);
    life.set(0, 0, true);
    life.set(1, 0, true);
    life.set(0, 1, true);
    life.step();
    assert_eq!(alive_cells(&life), vec![(0, 0), (1, 0), (0, 1), (1, 1)]);
}

#[test]
fn set_ignores_places_off_the_grid_and_clear_empties_it() {
    let mut life = Life::new(4, 3);
    life.set(4, 0, true);
    life.set(0, 3, true);
    life.set(usize::MAX, usize::MAX, true);
    assert!(alive_cells(&life).is_empty());
    life.set(3, 2, true);
    assert!(life.get(3, 2));
    life.set(3, 2, false);
    assert!(!life.get(3, 2));
    life.seed_beacon(0, 0);
    life.clear();
    assert!(alive_cells(&life).is_empty());
}

#[test]
fn a_glider_is_turned_by_its_direction() {
    let mut life = Life::new(5, 5);
    life.seed_glider(1, 1, 2);
    assert_eq!(alive_cells(&life), vec![(2, 1), (3, 2), (1, 3), (2, 3), (3, 3)]);
    life.clear();
    life.seed_glider(1, 1, 0);
    assert_eq!(alive_cells(&life), vec![(1, 1), (1, 2), (3, 2), (1, 3), (2, 3)]);
    life.clear();
    life.seed_glider(1, 1, 3);
    assert_eq!(alive_cells(&life), vec![(1, 1), (2, 1), (3, 1), (1, 2), (2, 3)]);
    life.clear();
    life.seed_glider(1, 1, 1);
    assert_eq!(alive_cells(&life), vec![(2, 1), (3, 1), (1, 2), (3, 2), (3, 3)]);
    life.clear();
    life.seed_glider(1, 1, 6);
    assert_eq!(alive_cells(&life), vec![(2, 1), (3, 2), (1, 3), (2, 3), (3, 3)]);
}

#[test]
fn a_glider_moves_one_cell_diagonally_in_four_steps() {
    let mut life = Life::new(8, 8);
    life.seed_glider(1, 1, 2);
    for _ in 0..4 {
        life.step();
    }
    assert_eq!(alive_cells(&life), vec![(3, 2), (4, 3), (2, 4), (3, 4), (4, 4)]);
}

#[test]
fn toad_beacon_and_spaceship_patterns() {
    let mut life = Life::new(8, 8);
    life.seed_toad(1, 1, 0);
    assert_eq!(alive_cells(&life), vec![(2, 1), (3, 1), (4, 1), (1, 2), (2, 2), (3, 2)]);
    life.clear();
    life.seed_toad(1, 1, 1);
    assert_eq!(alive_cells(&life), vec![(2, 1), (1, 2), (2, 2), (1, 3), (2, 3), (1, 4)]);
    life.clear();
    life.seed_beacon(1, 1);
    assert_eq!(
        alive_cells(&life),
        vec![(1, 1), (2, 1), (1, 2), (2, 2), (4, 4), (5, 4), (4, 5), (5, 5)]
    );
    life.clear();
    life.seed_lwss(1, 1, 0);
    assert_eq!(
        alive_cells(&life),
        vec![(2, 1), (5, 1), (1, 2), (1, 3), (5, 3), (1, 4), (2, 4), (3, 4), (4, 4)]
    );
    // half a turn about (2, 1) takes the lower rows above the box: they are left out
    life.clear();
    life.seed_lwss(1, 1, 2);
    assert_eq!(alive_cells(&life), vec![(1, 1), (5, 1), (5, 2), (1, 3), (4, 3)]);
}

#[test]
fn patterns_at_the_edge_are_cut_off() {
    let mut life = Life::new(4, 4);
    life.seed_blinker(2, 3, 0);
    assert_eq!(alive_cells(&life), vec![(2, 3), (3, 3)]);
    life.clear();
    life.seed_blinker(usize::MAX, 0, 0);
    assert!(alive_cells(&life).is_empty());
}

#[test]
fn the_starting_pattern_depends_on_the_size_only() {
    let a = Life::new(40, 20);
    let b = Life::new(40, 20);
    assert!(!alive_cells(&a).is_empty());
    assert_eq!(alive_cells(&a), alive_cells(&b));
    // the glider of the top left corner, heading up-right
    for p in [(2, 2), (2, 3), (4, 3), (2, 4), (3, 4)] {
        assert!(a.get(p.0, p.1));
    }
    let mut c = Life::new(10, 10);
    c.resize(40, 20);
    assert_eq!(alive_cells(&a), alive_cells(&c));
    let before = alive_cells(&c);
    c.step();
    c.resize(40, 20);
    assert_ne!(alive_cells(&c), before);
}

#[test]
fn spawning_waits_for_every_thirtieth_step() {
    let mut life = Life::new(30, 20);
    life.clear();
    life.step();
    // the step count is 1: nothing is spawned
    life.maybe_spawn();
    assert!(alive_cells(&life).is_empty());
    let mut first = Life::new(30, 20);
    let mut second = Life::new(30, 20);
    for _ in 0..90 {
        first.step();
        first.maybe_spawn();
        second.step();
        second.maybe_spawn();
    }
    assert_eq!(alive_cells(&first), alive_cells(&second));
}
