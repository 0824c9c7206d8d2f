use gol::data::{Cell, Status};

#[test]
fn test_next_status() {
    let cell = Cell(Status::Alive);
    assert_eq!(cell.next_status(0), Status::Dead);
    assert_eq!(cell.next_status(5), Status::Dead);
    assert_eq!(cell.next_status(3), Status::Alive);
    assert_eq!(cell.next_status(2), Status::Alive);
}

#[test]
fn next_status_table_for_every_count() {
    for status in [Status::Dead, Status::Alive] {
        let cell = Cell(status.clone());
        for n in 0..=8usize {
            let expected = if n == 3 || (n == 2 && status == Status::Alive) {
                Status::Alive
            } else {
                Status::Dead
            };
            assert_eq!(cell.next_status(n), expected);
        }
    }
}

#[test]
fn dead_cell_with_two_neighbours_stays_dead() {
    assert_eq!(Cell(Status::Dead).next_status(2), Status::Dead);
    assert_eq!(Cell(Status::Dead).next_status(3), Status::Alive);
}

#[test]
fn alive_reports_status() {
    assert!(Cell(Status::Alive).alive());
    assert!(!Cell(Status::Dead).alive());
}

#[test]
fn update_sets_status() {
    let mut cell = Cell(Status::Dead);
    cell.update(Status::Alive);
    assert!(cell.alive());
    cell.update(Status::Dead);
    assert!(!cell.alive());
}
