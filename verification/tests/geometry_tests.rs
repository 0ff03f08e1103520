use piecanvas::geometry::{
    active_sector, clamp_sector_count, isqrt, pointer_angle, round_div, sector_at,
    sector_start_angle, Directions, Point, Rect, COORD_LIMIT, EIGHTH_TURN, FULL_TURN, HALF_TURN,
    QUARTER_TURN, UNIT,
};

/// The table of directions as a host computes it: cosine and sine of every
/// minute of arc in floating point, times the unit, rounded.
fn directions() -> Directions {
    let table: Vec<Point> = (0..21600)
        .map(|a| {
            let turn = a as f64 * std::f64::consts::TAU / 21600.0;
            Point {
                x: (turn.cos() * UNIT as f64).round() as i32,
                y: (turn.sin() * UNIT as f64).round() as i32,
            }
        })
        .collect();
    Directions::from_table(table).unwrap()
}

/// The angle of an offset as a host computes it: the arc tangent in floating
/// point, brought into the first turn, in whole minutes of arc.
fn estimate(dx: i64, dy: i64) -> u32 {
    let mut angle = (dy as f64).atan2(dx as f64);
    if angle < 0.0 {
        angle += std::f64::consts::TAU;
    }
    (angle * 10800.0 / std::f64::consts::PI).floor() as u32
}

fn sector(pointer: Point, center: Point, n: usize) -> usize {
    let dx = pointer.x as i64 - center.x as i64;
    let dy = pointer.y as i64 - center.y as i64;
    active_sector(pointer, center, estimate(dx, dy), n)
}






#[test]
fn sector_boundary_belongs_to_the_sector_that_begins_there() {
    for n in 1..13usize {
        for k in 0..n {
            let start = sector_start_angle(k, n);
            assert_eq!(sector_at(start, n), k);
            if k > 0 {
                assert_eq!(sector_at(start - 1, n), k - 1);
            }
        }
        assert_eq!(sector_start_angle(n, n), FULL_TURN);
    }
    assert_eq!(sector_start_angle(1, 6), 3600);
    assert_eq!(sector_start_angle(3, 7), 9258);
    assert_eq!(sector_start_angle(4, 7), 12343);
}





#[test]
fn integer_square_root_is_the_floor() {
    assert_eq!(isqrt(0), 0);
    assert_eq!(isqrt(1), 1);
    assert_eq!(isqrt(3), 1);
    assert_eq!(isqrt(4), 2);
    assert_eq!(isqrt(24), 4);
    assert_eq!(isqrt(25), 5);
    assert_eq!(isqrt(1 << 52), 1 << 26);
    assert_eq!(isqrt((1 << 52) - 1), (1 << 26) - 1);
    assert_eq!(isqrt(u64::MAX), 0xffff_ffff);
}

#[test]
fn division_rounds_to_the_nearest_with_halves_upwards() {
    assert_eq!(round_div(7, 2), 4);
    assert_eq!(round_div(6, 4), 2);
    assert_eq!(round_div(5, 4), 1);
    assert_eq!(round_div(0, 9), 0);
    assert_eq!(round_div(-5, 4), -1);
    assert_eq!(round_div(-6, 4), -1);
    assert_eq!(round_div(-7, 4), -2);
    assert_eq!(round_div(-7, 2), -3);
    assert_eq!(round_div(-1, 3), 0);
    assert_eq!(round_div(-2, 3), -1);
}

#[test]
fn rectangle_holds_its_edges() {
    let r = Rect { x: -40, y: -40, w: 280, h: 280 };
    assert!(r.contains(Point { x: 240, y: 100 }));
    assert!(r.contains(Point { x: -40, y: -40 }));
    assert!(r.contains(Point { x: 240, y: 240 }));
    assert!(!r.contains(Point { x: 241, y: 100 }));
    assert!(!r.contains(Point { x: 100, y: -41 }));
    let wide = Rect { x: i32::MAX, y: 0, w: i32::MAX, h: 1 };
    assert!(wide.contains(Point { x: i32::MAX, y: 1 }));
    assert!(!wide.contains(Point { x: 0, y: 0 }));
}

#[test]
fn rectangle_validity_and_center() {
    let r = Rect { x: -40, y: -40, w: 280, h: 280 };
    assert!(r.is_valid());
    assert_eq!(r.center(), Point { x: 100, y: 100 });
    assert_eq!(Rect { x: 1, y: 2, w: 5, h: 7 }.center(), Point { x: 3, y: 5 });
    assert!(!Rect { x: 0, y: 0, w: -1, h: 4 }.is_valid());
    assert!(!Rect { x: COORD_LIMIT, y: 0, w: 1, h: 0 }.is_valid());
    assert!(Rect { x: -COORD_LIMIT, y: -COORD_LIMIT, w: COORD_LIMIT, h: 2 * COORD_LIMIT }.is_valid());
    assert!(!Rect { x: 0, y: i32::MAX, w: 0, h: i32::MAX }.is_valid());
    assert!(Point { x: COORD_LIMIT, y: -COORD_LIMIT }.is_valid());
    assert!(!Point { x: COORD_LIMIT + 1, y: 0 }.is_valid());
}


#[test]
fn active_sector_is_always_below_the_sector_count() {
    let center = Point { x: 100, y: 100 };
    for n in 0..9usize {
        let count = if n == 0 { 1 } else { n };
        for x in -7..8 {
            for y in -7..8 {
                let p = Point { x: 100 + 13 * x, y: 100 + 11 * y };
                assert!(sector(p, center, n) < count);
                for wild in [0, 2699, 2700, 10799, 21599, 21600, u32::MAX] {
                    assert!(active_sector(p, center, wild, n) < count);
                }
            }
        }
    }
    let far = Point { x: i32::MAX, y: i32::MIN };
    assert!(sector(far, Point { x: i32::MIN, y: i32::MAX }, 5) < 5);
}

#[test]
fn zero_icons_are_treated_as_one_sector() {
    assert_eq!(clamp_sector_count(0), 1);
    assert_eq!(clamp_sector_count(1), 1);
    assert_eq!(clamp_sector_count(6), 6);
    assert_eq!(sector(Point { x: -5, y: 9 }, Point { x: 0, y: 0 }, 0), 0);
    assert_eq!(sector_at(21599, 0), 0);
}

#[test]
fn angle_along_axes_and_diagonals_needs_no_estimate() {
    for wild in [0, 1, 5399, 5400, 12345, 21599, 21600, u32::MAX] {
        assert_eq!(pointer_angle(0, 0, wild), 0);
        assert_eq!(pointer_angle(140, 0, wild), 0);
        assert_eq!(pointer_angle(5, 5, wild), EIGHTH_TURN);
        assert_eq!(pointer_angle(0, 9, wild), QUARTER_TURN);
        assert_eq!(pointer_angle(-4, 4, wild), 3 * EIGHTH_TURN);
        assert_eq!(pointer_angle(-1, 0, wild), HALF_TURN);
        assert_eq!(pointer_angle(-6, -6, wild), 5 * EIGHTH_TURN);
        assert_eq!(pointer_angle(0, -140, wild), 3 * QUARTER_TURN);
        assert_eq!(pointer_angle(2, -2, wild), 7 * EIGHTH_TURN);
    }
}

#[test]
fn estimate_within_the_eighth_of_the_offset_is_taken_as_it_is() {
    assert_eq!(pointer_angle(3, 1, 1106), 1106);
    assert_eq!(pointer_angle(3, 1, 0), 0);
    assert_eq!(pointer_angle(3, 1, 2699), 2699);
    assert_eq!(pointer_angle(1, 3, 4293), 4293);
    assert_eq!(pointer_angle(-1, 3, 6506), 6506);
    assert_eq!(pointer_angle(-3, 1, 9693), 9693);
    assert_eq!(pointer_angle(-3, -1, 11906), 11906);
    assert_eq!(pointer_angle(-1, -3, 15093), 15093);
    assert_eq!(pointer_angle(1, -3, 17306), 17306);
    assert_eq!(pointer_angle(3, -1, 20493), 20493);
    assert_eq!(pointer_angle(3, -1, 21599), 21599);
    for x in -40..41i64 {
        for y in -40..41i64 {
            let e = estimate(x, y);
            let held = pointer_angle(x, y, e);
            assert!(held == e || held == e + 1, "({}, {}): {} held to {}", x, y, e, held);
            if x != 0 && y != 0 && x.abs() != y.abs() {
                assert_eq!(held, e);
            }
        }
    }
}

#[test]
fn estimate_outside_the_eighth_of_the_offset_is_held_to_it() {
    assert_eq!(pointer_angle(3, 1, 2700), 2699);
    assert_eq!(pointer_angle(3, 1, 21599), 2699);
    assert_eq!(pointer_angle(1, 3, 100), 2700);
    assert_eq!(pointer_angle(1, 3, 5400), 5399);
    assert_eq!(pointer_angle(-1, 3, 0), 5400);
    assert_eq!(pointer_angle(-3, 1, u32::MAX), 10799);
    assert_eq!(pointer_angle(-3, -1, 10799), 10800);
    assert_eq!(pointer_angle(-1, -3, 16200), 16199);
    assert_eq!(pointer_angle(1, -3, 0), 16200);
    assert_eq!(pointer_angle(3, -1, 0), 18900);
    assert_eq!(pointer_angle(3, -1, 21600), 21599);
}

#[test]
fn sector_is_the_one_that_holds_the_direction() {
    let center = Point { x: 100, y: 100 };
    assert_eq!(sector(Point { x: 19, y: 240 }, center, 6), 2);
    assert_eq!(sector(Point { x: 20, y: 240 }, center, 6), 1);
    for x in -140..141i32 {
        for y in -140..141i32 {
            if x == 0 || y == 0 {
                continue;
            }
            let mut angle = (y as f64).atan2(x as f64);
            if angle < 0.0 {
                angle += std::f64::consts::TAU;
            }
            let expected = ((angle / (std::f64::consts::TAU / 6.0)).floor() as usize).min(5);
            assert_eq!(sector(Point { x: 100 + x, y: 100 + y }, center, 6), expected);
        }
    }
}

#[test]
fn pointer_on_a_boundary_selects_the_sector_after_it() {
    let center = Point { x: 0, y: 0 };
    for wild in [0, 5399, 5400, 10800, 21599] {
        assert_eq!(active_sector(Point { x: 0, y: 50 }, center, wild, 4), 1);
        assert_eq!(active_sector(Point { x: -50, y: 0 }, center, wild, 4), 2);
        assert_eq!(active_sector(Point { x: 30, y: 30 }, center, wild, 8), 1);
        assert_eq!(active_sector(Point { x: 0, y: -9 }, center, wild, 8), 6);
        assert_eq!(active_sector(Point { x: 9, y: 0 }, center, wild, 8), 0);
    }
    assert_eq!(sector(Point { x: 1, y: 50 }, center, 4), 0);
    assert_eq!(sector(Point { x: -50, y: 1 }, center, 4), 1);
    assert_eq!(sector(Point { x: 30, y: 29 }, center, 8), 0);
}

#[test]
fn angle_depends_on_the_direction_alone() {
    for (x, y) in [(3i64, 1i64), (1, 3), (-3, 1), (-1, -3), (3, -1), (7, 24), (-140, 0), (5, -5)] {
        for k in [2i64, 3, 10, 1000, 65536] {
            for e in [0u32, 4000, 9000, 20000] {
                assert_eq!(pointer_angle(k * x, k * y, e), pointer_angle(x, y, e));
            }
        }
    }
}

fn host_table() -> Vec<Point> {
    (0..21600)
        .map(|a| {
            let turn = a as f64 * std::f64::consts::TAU / 21600.0;
            Point {
                x: (turn.cos() * UNIT as f64).round() as i32,
                y: (turn.sin() * UNIT as f64).round() as i32,
            }
        })
        .collect()
}

#[test]
fn table_of_the_host_serves() {
    assert_eq!(UNIT, 1 << 28);
    assert!(Directions::from_table(host_table()).is_some());
    let table = directions();
    assert_eq!(table.entry(0), Point { x: UNIT, y: 0 });
    assert_eq!(table.entry(5400), Point { x: 0, y: UNIT });
    assert_eq!(table.entry(10800), Point { x: -UNIT, y: 0 });
    assert_eq!(table.entry(16200), Point { x: 0, y: -UNIT });
    assert_eq!(table.entry(2700), Point { x: 189812531, y: 189812531 });
    assert_eq!(table.entry(21600 + 2700), table.entry(2700));
    assert_eq!(table.entry(u32::MAX), table.entry(u32::MAX % 21600));
}

#[test]
fn table_that_cannot_serve_is_not_taken() {
    assert!(Directions::from_table(Vec::new()).is_none());
    let mut short = host_table();
    short.pop();
    assert!(Directions::from_table(short).is_none());
    let mut long = host_table();
    long.push(Point { x: UNIT, y: 0 });
    assert!(Directions::from_table(long).is_none());
    for (at, entry) in [
        (0usize, Point { x: UNIT + 1, y: 0 }),
        (1, Point { x: 0, y: 0 }),
        (5400, Point { x: 0, y: -UNIT - 1 }),
        (7, Point { x: UNIT, y: UNIT }),
        (21599, Point { x: UNIT - 2, y: 0 }),
        (300, Point { x: i32::MIN, y: i32::MAX }),
        (2700, Point { x: 189812531, y: 189812529 }),
        (2700, Point { x: 189812531, y: 189812530 }),
    ] {
        let mut table = host_table();
        table[at] = entry;
        assert!(Directions::from_table(table).is_none());
    }
    for (at, entry) in [
        (0usize, Point { x: UNIT - 1, y: 0 }),
        (5400, Point { x: 1, y: UNIT }),
        (10800, Point { x: -UNIT, y: 1 }),
        (16200, Point { x: 0, y: -UNIT + 1 }),
        (9, Point { x: 0, y: -UNIT }),
    ] {
        let mut table = host_table();
        table[at] = entry;
        assert!(Directions::from_table(table).is_none());
    }
    let mut swapped = host_table();
    swapped.swap(2700, 2701);
    assert!(Directions::from_table(swapped).is_none());
    let mut stalled = host_table();
    stalled[2701] = stalled[2700];
    assert!(Directions::from_table(stalled).is_none());
    let mut backwards = host_table();
    backwards[1..].reverse();
    assert!(Directions::from_table(backwards).is_none());
    let still = vec![Point { x: UNIT, y: 0 }; 21600];
    assert!(Directions::from_table(still).is_none());
    let mut nudged = host_table();
    nudged[2700] = Point { x: 189812532, y: 189812531 };
    nudged[13000].x += 1;
    assert!(Directions::from_table(nudged).is_some());
}

#[test]
fn placed_points_move_one_way_within_a_quarter_and_stay_near_the_circle() {
    let table = directions();
    for radius in [0u32, 1, 2, 3, 56, 140, 99999, 1 << 27] {
        let mut last = (radius as i64, 0i64);
        for a in 0..=5400u32 {
            let now = (table.cos_times(a, radius), table.sin_times(a, radius));
            assert!(0 <= now.0 && now.0 <= last.0);
            assert!(last.1 <= now.1 && now.1 <= radius as i64);
            last = now;
        }
        assert_eq!(last, (0, radius as i64));
        for a in (0..21600u32).step_by(7) {
            let x = table.cos_times(a, radius) as i128;
            let y = table.sin_times(a, radius) as i128;
            let r = radius as i128;
            assert!((r - 2) * (r - 2) - 4 <= x * x + y * y);
            assert!(x * x + y * y <= (r + 2) * (r + 2));
        }
    }
}

#[test]
fn cosine_and_sine_are_the_entry_times_the_radius_rounded() {
    let table = directions();
    let angles: [u32; 11] = [0, 900, 1800, 2700, 3600, 5400, 7200, 10800, 12600, 16200, 21599];
    let cosines: [i64; 11] = [1000, 966, 866, 707, 500, 0, -500, -1000, -866, 0, 1000];
    let sines: [i64; 11] = [0, 259, 500, 707, 866, 1000, 866, 0, -500, -1000, 0];
    for i in 0..11 {
        assert_eq!(table.cos_times(angles[i], 1000), cosines[i]);
        assert_eq!(table.sin_times(angles[i], 1000), sines[i]);
    }
    assert_eq!(table.sin_times(FULL_TURN + 1800, 1000), 500);
    assert_eq!(table.cos_times(3 * FULL_TURN, 77), 77);
    assert_eq!(table.sin_times(5400, u32::MAX), u32::MAX as i64);
    assert_eq!(table.sin_times(16200, u32::MAX), -(u32::MAX as i64));
    assert_eq!(table.cos_times(10800, u32::MAX), -(u32::MAX as i64));
    for a in 0..21600u32 {
        let turn = a as f64 * std::f64::consts::TAU / 21600.0;
        for radius in [1u32, 140, 99999] {
            let cos = table.cos_times(a, radius) as f64;
            let sin = table.sin_times(a, radius) as f64;
            assert!((cos - radius as f64 * turn.cos()).abs() <= 0.501);
            assert!((sin - radius as f64 * turn.sin()).abs() <= 0.501);
        }
    }
}

#[test]
fn polar_point_lies_on_the_circle() {
    let table = directions();
    let c = Point { x: 100, y: 100 };
    assert_eq!(table.polar(c, 0, 140), Point { x: 240, y: 100 });
    assert_eq!(table.polar(c, 5400, 140), Point { x: 100, y: 240 });
    assert_eq!(table.polar(c, 10800, 140), Point { x: -40, y: 100 });
    assert_eq!(table.polar(c, 16200, 140), Point { x: 100, y: -40 });
    assert_eq!(table.polar(c, 1800, 56), Point { x: 148, y: 128 });
    assert_eq!(table.polar(c, 2700, 100), Point { x: 171, y: 171 });
}
