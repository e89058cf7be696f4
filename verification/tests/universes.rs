use game_of_life::digest::fingerprint;
use game_of_life::Universe;

#[test]
fn first_tick_of_the_four_by_four_universe() {
    let mut universe = Universe::new(4, 4, 2, 5, 5);
    assert_eq!(universe.render(), "◼◻◼◻\n◼◼◼◻\n◼◻◼◻\n◼◻◼◼\n");
    assert_eq!(universe.generation(), 0);
    assert_eq!(universe.live_count(), 0);
    let verdict = universe.tick();
    assert_eq!(verdict, "continue");
    assert_eq!(universe.generation(), 1);
    // Ten indices below 16 are multiples of 2 or of 5.
    assert_eq!(universe.live_count(), 10);
    assert_eq!(universe.render(), "◻◻◻◻\n◼◻◼◻\n◻◻◻◻\n◼◻◼◻\n");
    assert_eq!(universe.get_md5_sum(), "9b5185189443896864c5d116a1af061e");
    assert_eq!(universe.detector().window_len(), 1);
    assert_eq!(universe.detector().occurrence_count("9b5185189443896864c5d116a1af061e"), 1);
}

#[test]
fn later_ticks_of_the_four_by_four_universe() {
    let mut universe = Universe::new(4, 4, 2, 5, 5);
    universe.tick();
    assert_eq!(universe.tick(), "continue");
    assert_eq!(universe.live_count(), 4);
    assert_eq!(universe.render(), "◻◻◻◻\n◻◻◻◻\n◻◻◻◻\n◻◻◻◻\n");
    for _ in 0..5 {
        assert_eq!(universe.tick(), "continue");
        assert_eq!(universe.live_count(), 0);
    }
    assert_eq!(universe.generation(), 7);
    assert_eq!(universe.detector().window_len(), 5);
    assert_eq!(universe.detector().occurrence_count("2f0fc7eb07363ac6bad92fde31ac2adf"), 5);
    assert_eq!(universe.detector().occurrence_count("9b5185189443896864c5d116a1af061e"), 0);
}

#[test]
fn live_count_stays_within_the_number_of_cells() {
    let mut universe = Universe::new(7, 6, 3, 4, 10);
    for _ in 0..60 {
        universe.tick();
        assert!(universe.live_count() <= 7 * 6);
        assert!(universe.detector().window_len() <= 10);
    }
    assert_eq!(universe.grid().width(), 7);
    assert_eq!(universe.grid().height(), 6);
}

#[test]
fn fingerprint_is_that_of_the_grid_after_the_step() {
    let mut universe = Universe::new(5, 5, 15, 20, 50);
    let before = universe.get_md5_sum();
    universe.tick();
    let after = universe.get_md5_sum();
    assert_eq!(after, fingerprint(&universe.render()));
    assert_eq!(after, "5a892e82dd96ad84c2d8db0c42a3afdc");
    assert_eq!(universe.detector().occurrence_count(&after), 1);
    assert_eq!(universe.detector().occurrence_count(&before), 0);
}

#[test]
fn blinker_stops_when_both_phases_recur_twenty_times() {
    // Three cells in a column of a 5 by 5 torus: a blinker.
    let mut universe = Universe::new(5, 5, 15, 20, 50);
    let upright = "◼◻◻◻◻\n◻◻◻◻◻\n◻◻◻◻◻\n◼◻◻◻◻\n◼◻◻◻◻\n";
    let flat = "◻◻◻◻◻\n◻◻◻◻◻\n◻◻◻◻◻\n◻◻◻◻◻\n◼◼◻◻◼\n";
    assert_eq!(universe.render(), upright);
    for generation in 1u32..=90 {
        let verdict = universe.tick();
        assert_eq!(universe.generation(), generation);
        assert_eq!(universe.live_count(), 3);
        assert_eq!(universe.render(), if generation % 2 == 1 { flat } else { upright });
        let upright_count: usize = universe.detector().occurrence_count("feeee8bac79dd27ecfb7c18a69738f4a");
        let flat_count: usize = universe.detector().occurrence_count("5a892e82dd96ad84c2d8db0c42a3afdc");
        assert_eq!(upright_count + flat_count, universe.detector().window_len());
        let expected: &str = if upright_count >= 20 && flat_count >= 20 { "stop" } else { "continue" };
        assert_eq!(verdict, expected, "generation {}", generation);
        assert_eq!(verdict == "stop", generation >= 40, "generation {}", generation);
        assert!(upright_count <= 25 && flat_count <= 25);
    }
}

#[test]
fn dead_grid_stops_at_forty_repeats_and_stays_stopped() {
    let mut universe = Universe::new(4, 4, 100, 100, 50);
    assert_eq!(universe.render(), "◼◻◻◻\n◻◻◻◻\n◻◻◻◻\n◻◻◻◻\n");
    let dead = "◻◻◻◻\n◻◻◻◻\n◻◻◻◻\n◻◻◻◻\n";
    for generation in 1u32..=100 {
        let verdict = universe.tick();
        assert_eq!(universe.render(), dead);
        assert_eq!(universe.live_count(), if generation == 1 { 1 } else { 0 });
        if generation < 40 {
            assert_eq!(verdict, "continue", "generation {}", generation);
        } else {
            assert_eq!(verdict, "stop", "generation {}", generation);
        }
    }
    assert_eq!(universe.detector().occurrence_count("2f0fc7eb07363ac6bad92fde31ac2adf"), 50);
    assert_eq!(universe.detector().window_len(), 50);
}

#[test]
fn equal_parameters_give_equal_runs() {
    let mut first = Universe::new(6, 5, 3, 7, 30);
    let mut second = Universe::new(6, 5, 3, 7, 30);
    for _ in 0..80 {
        assert_eq!(first.tick(), second.tick());
        assert_eq!(first.get_md5_sum(), second.get_md5_sum());
        assert_eq!(first.render(), second.render());
        assert_eq!(first.live_count(), second.live_count());
        assert_eq!(first.generation(), second.generation());
    }
}

#[test]
fn single_cell_universe_dies_out() {
    let mut universe = Universe::new(1, 1, 1, 1, 2);
    assert_eq!(universe.render(), "◼\n");
    assert_eq!(universe.tick(), "continue");
    assert_eq!(universe.render(), "◻\n");
    assert_eq!(universe.live_count(), 1);
}
