use raycaster::config::{FieldOfView, SCALE, TURN, HALF_TURN, QUARTER_TURN};
use raycaster::grid::{single_index_map, world_map, GameMap};
use raycaster::trig::{normalize_angle, TrigTable};

#[test]
fn flat_map_agrees_with_grid() {
    let grid = world_map();
    let flat = single_index_map();
    for r in 0..8 {
        for c in 0..8 {
            assert_eq!(flat[r * 8 + c], grid[r][c]);
        }
    }
    assert_eq!(flat[0], 1);
    assert_eq!(flat[9], 0);
    assert_eq!(flat[10], 1);
    assert_eq!(flat[8 * 6 + 2], 0);
}

#[test]
fn world_map_cells() {
    let m = GameMap::world();
    assert_eq!((m.width, m.height), (8, 8));
    assert!(m.is_wall(0, 0));
    assert!(!m.is_wall(1, 1));
    assert!(m.is_wall(2, 1));
    assert!(m.is_wall(4, 5));
    assert!(!m.is_wall(5, 5));
}

#[test]
fn map_rejects_bad_dimensions() {
    assert!(GameMap::new(2, 2, vec![0; 3]).is_none());
    assert!(GameMap::new(0, 0, vec![]).is_none());
    assert!(GameMap::new(5000, 1, vec![0; 5000]).is_none());
    assert!(GameMap::new(2, 3, vec![0; 6]).is_some());
}

#[test]
fn angles_normalize_into_one_turn() {
    assert_eq!(normalize_angle(0), 0);
    assert_eq!(normalize_angle(TURN as i64), 0);
    assert_eq!(normalize_angle(-1), TURN - 1);
    assert_eq!(normalize_angle(3 * TURN as i64 + 7), 7);
    assert_eq!(normalize_angle(-(TURN as i64) - 5), TURN - 5);
}

#[test]
fn field_of_view_angles() {
    assert_eq!(FieldOfView::Narrow.to_angle(), 2700);
    assert_eq!(FieldOfView::Normal.to_angle(), 3600);
    assert_eq!(FieldOfView::Wide.to_angle(), 5400);
    assert_eq!(FieldOfView::UltraWide.to_angle(), 7200);
    assert_eq!(FieldOfView::Custom(1234).to_angle(), 1234);
}

#[test]
fn trig_table_checks_entries() {
    let n = TURN as usize;
    let mut tan = vec![0i64; n];
    let mut cot = vec![0i64; n];
    let mut cos = vec![0i64; n];
    cos[0] = SCALE;
    assert!(TrigTable::from_tables(tan.clone(), cot.clone(), cos.clone()).is_some());
    // Wrong length.
    assert!(TrigTable::from_tables(vec![0; 3], cot.clone(), cos.clone()).is_none());
    // Cosine of zero must be exactly one.
    cos[0] = SCALE - 1;
    assert!(TrigTable::from_tables(tan.clone(), cot.clone(), cos.clone()).is_none());
    cos[0] = SCALE;
    // Tangent and cotangent both steeper than one.
    tan[100] = 2 * SCALE;
    cot[100] = 2 * SCALE;
    assert!(TrigTable::from_tables(tan.clone(), cot.clone(), cos.clone()).is_none());
    cot[100] = SCALE / 2;
    assert!(TrigTable::from_tables(tan.clone(), cot.clone(), cos.clone()).is_some());
    // Entries take the sign of their quadrant.
    tan[QUARTER_TURN as usize + 10] = 5;
    assert!(TrigTable::from_tables(tan.clone(), cot.clone(), cos.clone()).is_none());
    tan[QUARTER_TURN as usize + 10] = -5;
    assert!(TrigTable::from_tables(tan.clone(), cot.clone(), cos.clone()).is_some());
    cos[HALF_TURN as usize + 10] = 3;
    assert!(TrigTable::from_tables(tan.clone(), cot.clone(), cos.clone()).is_none());
    cos[HALF_TURN as usize + 10] = 0;
    // Axis angles carry exact values.
    tan[HALF_TURN as usize] = 1;
    assert!(TrigTable::from_tables(tan.clone(), cot.clone(), cos.clone()).is_none());
    tan[HALF_TURN as usize] = 0;
    cot[QUARTER_TURN as usize] = 1;
    assert!(TrigTable::from_tables(tan, cot, cos).is_none());
}
