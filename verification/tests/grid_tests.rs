use hamlog::grid::{Grid, GridError, LAT_UNITS_PER_DEGREE, LON_UNITS_PER_DEGREE};

#[test]
fn test_invalid_gridsquare() {
    let grid = Grid::new("EM73t".to_string());
    assert_eq!(grid, Err(GridError::InvalidLength(5)));

    let grid = Grid::new("EMtk73".to_string());
    assert_eq!(grid, Err(GridError::InvalidFormat));
}

#[test]
fn test_short_formatting() {
    let grid = Grid::new("em73tk".to_string()).unwrap();
    assert_eq!(grid.short(), "EM73tk");

    println!("{:?}", grid.coord());
}

#[test]
fn accepted_lengths() {
    assert!(Grid::new("EM73".to_string()).is_ok());
    assert!(Grid::new("EM73tk".to_string()).is_ok());
    assert!(Grid::new("EM73tk00".to_string()).is_ok());
    assert!(Grid::new("EM73tk00aa".to_string()).is_ok());
}

#[test]
fn rejected_lengths() {
    assert_eq!(Grid::new(String::new()), Err(GridError::InvalidLength(0)));
    assert_eq!(Grid::new("EM".to_string()), Err(GridError::InvalidLength(2)));
    assert_eq!(Grid::new("EM73t".to_string()), Err(GridError::InvalidLength(5)));
    assert_eq!(Grid::new("EM73tk0".to_string()), Err(GridError::InvalidLength(7)));
    assert_eq!(Grid::new("EM73tk00a".to_string()), Err(GridError::InvalidLength(9)));
    assert_eq!(
        Grid::new("EM73tk00aa2".to_string()),
        Err(GridError::InvalidLength(11))
    );
    assert_eq!(
        Grid::new("EM73tk00aabb".to_string()),
        Err(GridError::InvalidLength(12))
    );
}

#[test]
fn rejected_character_classes() {
    assert_eq!(Grid::new("12EM".to_string()), Err(GridError::InvalidFormat));
    assert_eq!(Grid::new("EMEM".to_string()), Err(GridError::InvalidFormat));
    assert_eq!(Grid::new("EM73t k0".to_string()), Err(GridError::InvalidFormat));
    assert_eq!(Grid::new("EM7/".to_string()), Err(GridError::InvalidFormat));
}

#[test]
fn full_round_trip_preserves_case() {
    let grid = Grid::new("Em73Tk".to_string()).unwrap();
    assert_eq!(grid.full(), "Em73Tk");
    let grid = Grid::new("em73".to_string()).unwrap();
    assert_eq!(grid.full(), "em73");
}

#[test]
fn short_of_four_character_grid() {
    let grid = Grid::new("em73".to_string()).unwrap();
    assert_eq!(grid.short(), "EM73");
}

#[test]
fn decode_em73_square_center() {
    // E=4, M=12, square 7/3: longitude 4*20 + (7+0.5)*2 - 180 = -85,
    // latitude 12*10 + (3+0.5) - 90 = 33.5.
    let grid = Grid::new("EM73".to_string()).unwrap();
    let (lat, lon) = grid.coord();
    assert_eq!(lat, 385920); // 33.5 * 11520
    assert_eq!(lon, -489600); // -85 * 5760
    assert_eq!(lat as f64 / LAT_UNITS_PER_DEGREE as f64, 33.5);
    assert_eq!(lon as f64 / LON_UNITS_PER_DEGREE as f64, -85.0);
}

#[test]
fn decode_six_character_subsquare_center() {
    // EM73tk: adds t=19 (lon) and k=10 (lat) subsquares with 1/24-degree
    // centering: lon = 80 + 14 + 19/12 + 1/24 - 180, lat = 120 + 3 + 10/24 + 1/48 - 90.
    let grid = Grid::new("EM73tk".to_string()).unwrap();
    let (lat, lon) = grid.coord();
    assert_eq!(lon as f64 / LON_UNITS_PER_DEGREE as f64, -180.0 + 80.0 + 14.0 + 19.0 / 12.0 + 1.0 / 24.0);
    assert_eq!(lat as f64 / LAT_UNITS_PER_DEGREE as f64, -90.0 + 120.0 + 3.0 + 10.0 / 24.0 + 1.0 / 48.0);
}

#[test]
fn decode_is_case_insensitive() {
    let upper = Grid::new("EM73TK".to_string()).unwrap();
    let lower = Grid::new("em73tk".to_string()).unwrap();
    assert_eq!(upper.coord(), lower.coord());
}

#[test]
fn clone_keeps_locator() {
    let grid = Grid::new("EM73".to_string()).unwrap();
    let copy = grid.clone();
    assert_eq!(copy.full(), "EM73");
}
