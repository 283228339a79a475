use sorcery_engine::board::{translated_square, Cell};

#[test]
fn square_areas_are_the_twelve_canonical_file_major_footprints() {
    let values: Vec<[String; 4]> = Cell::square_areas()
        .into_iter()
        .map(|area| area.map(|cell| cell.name()))
        .collect();
    let expected = [
        ["A1", "A2", "B1", "B2"],
        ["A2", "A3", "B2", "B3"],
        ["A3", "A4", "B3", "B4"],
        ["B1", "B2", "C1", "C2"],
        ["B2", "B3", "C2", "C3"],
        ["B3", "B4", "C3", "C4"],
        ["C1", "C2", "D1", "D2"],
        ["C2", "C3", "D2", "D3"],
        ["C3", "C4", "D3", "D4"],
        ["D1", "D2", "E1", "E2"],
        ["D2", "D3", "E2", "E3"],
        ["D3", "D4", "E3", "E4"],
    ];
    assert_eq!(
        values,
        expected
            .iter()
            .map(|area| area.map(|name| name.to_owned()))
            .collect::<Vec<_>>()
    );
}

#[test]
fn square_translation_preserves_order_and_rejects_off_board_destinations() {
    let areas = Cell::square_areas();
    let area = areas[5];
    assert_eq!(
        translated_square(area, area[0], Cell::parse("B2").expect("cell")),
        Some(areas[4])
    );
    assert_eq!(
        translated_square(area, area[0], Cell::parse("A4").expect("cell")),
        None
    );
}

#[test]
fn cell_names_round_trip_through_parse() {
    for cell in Cell::all() {
        assert_eq!(Cell::parse(&cell.name()), Ok(cell));
    }
    assert!(Cell::parse("F1").is_err());
    assert!(Cell::parse("A5").is_err());
    assert!(Cell::parse("a1").is_err());
    assert!(Cell::parse("").is_err());
    assert!(Cell::parse("A0").is_err());
    assert!(Cell::parse("A10").is_err());
    assert!(Cell::parse(" A1").is_err());
    assert_eq!(Cell::parse("B2").expect("cell").index(), 5);
}

fn cells(names: &[&str]) -> Vec<Cell> {
    names.iter().map(|name| Cell::parse(name).expect("cell")).collect()
}

#[test]
fn diagonals_follow_northwest_southwest_northeast_southeast_order() {
    let b2 = Cell::parse("B2").expect("cell");
    assert_eq!(b2.diagonals(false), cells(&["A3", "A1", "C3", "C1"]));
    let a1 = Cell::parse("A1").expect("cell");
    assert_eq!(a1.diagonals(false), cells(&["B2"]));
    assert_eq!(a1.diagonals(true), cells(&["B2", "B4"]));
    let c4 = Cell::parse("C4").expect("cell");
    assert_eq!(c4.diagonals(true), cells(&["B3", "D3", "B1", "D1"]));
}

#[test]
fn manhattan_distance_counts_file_and_rank_steps() {
    let a1 = Cell::parse("A1").expect("cell");
    let c4 = Cell::parse("C4").expect("cell");
    assert_eq!(a1.manhattan_distance(c4), 5);
    assert_eq!(c4.manhattan_distance(a1), 5);
    assert_eq!(a1.manhattan_distance(a1), 0);
}
