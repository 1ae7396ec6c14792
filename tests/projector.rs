use raycaster::config::{Config, SCALE, TURN, HALF_TURN, QUARTER_TURN, THREE_QUARTER_TURN};
use raycaster::projector::{
    corrected_distance, draw_walls_to_pixels, ray_index_for_column, wall_band, wall_height,
    PixelBuffer, Rgb,
};
use raycaster::trig::TrigTable;

fn projection_trig() -> TrigTable {
    let mut tan = Vec::new();
    let mut cot = Vec::new();
    let mut cos = Vec::new();
    for a in 0..TURN {
        let rad = (a as f64) * std::f64::consts::PI * 2.0 / (TURN as f64);
        let t = if a == QUARTER_TURN || a == THREE_QUARTER_TURN { 0 } else { (rad.tan() * SCALE as f64).round() as i64 };
        let c = if a == 0 || a == HALF_TURN { 0 } else { (SCALE as f64 / rad.tan()).round() as i64 };
        tan.push(t);
        cot.push(c);
        cos.push((rad.cos() * SCALE as f64).round() as i64);
    }
    TrigTable::from_tables(tan, cot, cos).unwrap()
}

fn small_config() -> Config {
    Config { cell_size: 64, rays_count: 60, render_x: 60, render_y: 60, fov: 3600, wall_scale: 20, collision_radius: 4 }
}

#[test]
fn wall_height_falls_with_distance() {
    let cfg = Config::standard();
    let trig = projection_trig();
    let mut last = u64::MAX;
    for d in [1u64, 10, 1000, 10_000, 100_000, 500_000, 1_000_000, 5_000_000, 50_000_000] {
        let h = wall_height(&cfg, &trig, d);
        assert!(h <= last, "height rose at distance {}", d);
        assert!(h <= 360 * SCALE as u64);
        last = h;
    }
}

#[test]
fn wall_height_exact_value_and_clamp() {
    let cfg = small_config();
    let trig = projection_trig();
    // 20 * 60 * 10^12 / (2 * 5774 * 10^6) = 103914 fixed pixel units.
    assert_eq!(wall_height(&cfg, &trig, 100 * SCALE as u64), 103914);
    // Very near walls fill the whole column.
    assert_eq!(wall_height(&cfg, &trig, 1), 60 * SCALE as u64);
}

#[test]
fn wall_band_rounds_to_nearest_rows() {
    let cfg = small_config();
    assert_eq!(wall_band(&cfg, 103914), (25, 35));
    assert_eq!(wall_band(&cfg, 0), (30, 30));
    assert_eq!(wall_band(&cfg, 60 * SCALE as u64), (0, 60));
}

#[test]
fn center_column_has_no_fisheye_correction() {
    let cfg = Config::standard();
    let trig = projection_trig();
    for raw in [1u64, 77, 12345, 3_200_000] {
        assert_eq!(corrected_distance(&cfg, &trig, raw, 180), raw);
    }
    // The leftmost column sits half the field of view off centre: cos 30deg.
    assert_eq!(corrected_distance(&cfg, &trig, 1_000_000, 0), 866_000);
    // Distances below the floor are raised to it.
    assert_eq!(corrected_distance(&cfg, &trig, 0, 180), 1);
}

#[test]
fn fisheye_correction_is_symmetric_on_odd_widths() {
    let cfg = Config { render_x: 61, ..Config::standard() };
    let trig = projection_trig();
    for x in 1..61 {
        assert_eq!(
            corrected_distance(&cfg, &trig, 1_000_000, x),
            corrected_distance(&cfg, &trig, 1_000_000, 61 - x),
            "columns {} and {}", x, 61 - x
        );
    }
}

#[test]
fn columns_map_onto_rays() {
    let cfg = Config { rays_count: 60, ..Config::standard() };
    assert_eq!(ray_index_for_column(&cfg, 0), 0);
    assert_eq!(ray_index_for_column(&cfg, 5), 0);
    assert_eq!(ray_index_for_column(&cfg, 6), 1);
    assert_eq!(ray_index_for_column(&cfg, 359), 59);
}

#[test]
fn redraw_gives_identical_buffers() {
    let cfg = small_config();
    let trig = projection_trig();
    let hrays: Vec<u64> = (0..60).map(|i| 200_000 + 37_000 * i as u64).collect();
    let vrays: Vec<u64> = (0..60).map(|i| 2_500_000 - 29_000 * i as u64).collect();
    let horiz = Rgb { r: 120, g: 120, b: 120 };
    let vert = Rgb { r: 80, g: 80, b: 80 };
    let bg = Rgb { r: 30, g: 30, b: 60 };
    let mut a = PixelBuffer::new(60, 60, Rgb { r: 1, g: 2, b: 3 });
    let mut b = PixelBuffer::new(60, 60, Rgb { r: 200, g: 100, b: 0 });
    draw_walls_to_pixels(&mut a, &hrays, &vrays, horiz, vert, bg, &cfg, &trig);
    draw_walls_to_pixels(&mut b, &hrays, &vrays, horiz, vert, bg, &cfg, &trig);
    assert_eq!(a.data, b.data);
    assert_eq!(a.to_rgb_bytes(), b.to_rgb_bytes());
    // Drawing again over a used buffer changes nothing.
    draw_walls_to_pixels(&mut a, &hrays, &vrays, horiz, vert, bg, &cfg, &trig);
    assert_eq!(a.data, b.data);
    // Both wall colours appear: near horizontal hits on the left, vertical on the right.
    assert_eq!(a.pixel(0, 30), horiz);
    assert_eq!(a.pixel(59, 30), vert);
    assert_eq!(a.pixel(30, 0), bg);
}

#[test]
fn equal_distances_use_vertical_colour() {
    let cfg = small_config();
    let trig = projection_trig();
    let rays = vec![300_000u64; 60];
    let horiz = Rgb { r: 9, g: 9, b: 9 };
    let vert = Rgb { r: 7, g: 7, b: 7 };
    let bg = Rgb { r: 0, g: 0, b: 1 };
    let mut p = PixelBuffer::new(60, 60, bg);
    draw_walls_to_pixels(&mut p, &rays, &rays, horiz, vert, bg, &cfg, &trig);
    assert_eq!(p.pixel(30, 30), vert);
}

#[test]
fn rgb_bytes_follow_rows() {
    let mut p = PixelBuffer::new(2, 2, Rgb { r: 0, g: 0, b: 0 });
    p.data[1] = Rgb { r: 1, g: 2, b: 3 };
    p.data[2] = Rgb { r: 4, g: 5, b: 6 };
    assert_eq!(p.to_rgb_bytes(), vec![0, 0, 0, 1, 2, 3, 4, 5, 6, 0, 0, 0]);
    assert_eq!(p.pixel(1, 0), Rgb { r: 1, g: 2, b: 3 });
    assert_eq!(p.pixel(0, 1), Rgb { r: 4, g: 5, b: 6 });
}
