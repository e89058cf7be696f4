use game_of_life::cell::Cell;

#[test]
fn dead_cell_is_born_with_exactly_three_neighbours() {
    for n in 0u8..=8 {
        let expected: Cell = if n == 3 { Cell::Alive } else { Cell::Dead };
        assert_eq!(Cell::Dead.next_state(n), expected, "dead cell with {} neighbours", n);
    }
}

#[test]
fn live_cell_survives_with_two_or_three_neighbours() {
    assert_eq!(Cell::Alive.next_state(0), Cell::Dead);
    assert_eq!(Cell::Alive.next_state(1), Cell::Dead);
    assert_eq!(Cell::Alive.next_state(2), Cell::Alive);
    assert_eq!(Cell::Alive.next_state(3), Cell::Alive);
    assert_eq!(Cell::Alive.next_state(4), Cell::Dead);
    assert_eq!(Cell::Alive.next_state(5), Cell::Dead);
    assert_eq!(Cell::Alive.next_state(6), Cell::Dead);
    assert_eq!(Cell::Alive.next_state(7), Cell::Dead);
    assert_eq!(Cell::Alive.next_state(8), Cell::Dead);
}

#[test]
fn is_alive_tells_the_states_apart() {
    assert!(Cell::Alive.is_alive());
    assert!(!Cell::Dead.is_alive());
    assert_ne!(Cell::Alive, Cell::Dead);
}
