use raycast::fixed::{Dir, Point, ONE};
use raycast::frame::{cast_column, column_direction, distance_in_view, render, BYTES_PER_PIXEL};
use raycast::grid::Grid;
use raycast::player::{facing_valid, movement, Keys, Player, MAX_PLANE_SCALE, SPEED, WALL_PADDING};
use raycast::ray::{cast, Side};
use raycast::shade::{projected_height, quantize, shade_column, shade_pixel, Rgb};

const HALF: u64 = ONE / 2;

/// A `width` by `height` room: solid border, open inside, plus the given
/// solid cells.
fn room(width: usize, height: usize, walls: &[(usize, usize)]) -> Grid {
    let mut tiles = vec![0u32; width * height];
    for y in 0..height {
        for x in 0..width {
            if x == 0 || y == 0 || x == width - 1 || y == height - 1 {
                tiles[y * width + x] = 1;
            }
        }
    }
    for &(x, y) in walls {
        tiles[y * width + x] = 2;
    }
    Grid::new(width, height, tiles).expect("a bordered room is a valid grid")
}

fn at(x_cells: u64, y_cells: u64) -> Point {
    Point { x: x_cells * ONE + HALF, y: y_cells * ONE + HALF }
}

fn no_keys() -> Keys {
    Keys { forward: false, back: false, left: false, right: false }
}

#[test]
fn grid_accepts_a_bordered_room() {
    let g = room(5, 4, &[]);
    assert_eq!(g.width, 5);
    assert_eq!(g.height, 4);
    assert_eq!(g.tile_at(0, 0), 1);
    assert_eq!(g.tile_at(2, 2), 0);
}

#[test]
fn grid_rejects_an_open_border() {
    let mut tiles = vec![1u32; 16];
    tiles[5] = 0;
    tiles[6] = 0;
    assert!(Grid::new(4, 4, tiles.clone()).is_some());
    tiles[7] = 0;
    assert!(Grid::new(4, 4, tiles).is_none());
}

#[test]
fn grid_rejects_wrong_length_and_size() {
    assert!(Grid::new(4, 4, vec![1u32; 15]).is_none());
    assert!(Grid::new(2, 4, vec![1u32; 8]).is_none());
    assert!(Grid::new(4, 2, vec![1u32; 8]).is_none());
    assert!(Grid::new(4097, 3, vec![1u32; 4097 * 3]).is_none());
}

#[test]
fn cast_always_reaches_a_solid_tile() {
    let g = room(9, 7, &[(4, 3)]);
    let dirs = [
        (ONE as i64, 0),
        (-(ONE as i64), 0),
        (0, ONE as i64),
        (0, -(ONE as i64)),
        (ONE as i64, ONE as i64),
        (-3, 7),
        (40000, -12345),
        (1, 0),
        (0, -1),
    ];
    for (y0, x0) in [(1u64, 1u64), (2, 2), (5, 7), (3, 3)] {
        for &(dx, dy) in dirs.iter() {
            let o = at(x0, y0);
            let r = cast(&g, o, Dir { x: dx, y: dy });
            assert!(r.tile > 0);
            assert_eq!(r.tile, g.tile_at(r.cell_x, r.cell_y));
            assert!(r.steps >= 1);
            assert!(r.dist_den > 0);
        }
    }
}

#[test]
fn corridor_distance_is_exact() {
    let g = room(12, 5, &[(8, 2)]);
    let o = Point { x: 2 * ONE + HALF, y: 2 * ONE + HALF };
    let r = cast(&g, o, Dir { x: ONE as i64, y: 0 });
    assert_eq!(r.cell_x, 8);
    assert_eq!(r.cell_y, 2);
    assert_eq!(r.side, Side::X);
    assert_eq!(r.dist_den, ONE);
    assert_eq!(r.dist_num, 8 * ONE - o.x);
    assert_eq!(r.dist_num, 5 * ONE + HALF);

    let back = cast(&g, o, Dir { x: -(ONE as i64), y: 0 });
    assert_eq!(back.cell_x, 0);
    assert_eq!(back.dist_num, HALF + ONE);
}

#[test]
fn axis_aligned_rays_report_their_face() {
    let g = room(10, 10, &[(6, 4), (4, 7)]);
    let o = at(4, 4);
    for dx in [ONE as i64, -(ONE as i64), 5, -5] {
        assert_eq!(cast(&g, o, Dir { x: dx, y: 0 }).side, Side::X);
    }
    for dy in [ONE as i64, -(ONE as i64), 5, -5] {
        assert_eq!(cast(&g, o, Dir { x: 0, y: dy }).side, Side::Y);
    }
    let down = cast(&g, o, Dir { x: 0, y: ONE as i64 });
    assert_eq!((down.cell_x, down.cell_y), (4, 7));
    assert_eq!(down.dist_num, 2 * ONE + HALF);
}

#[test]
fn a_tie_between_crossings_steps_along_y() {
    let g = room(6, 6, &[(2, 3)]);
    let r = cast(&g, at(2, 2), Dir { x: ONE as i64, y: ONE as i64 });
    assert_eq!((r.cell_x, r.cell_y), (2, 3));
    assert_eq!(r.side, Side::Y);
    assert_eq!(r.steps, 1);
    assert_eq!(r.dist_num, HALF);
}

#[test]
fn wall_height_shrinks_with_distance_and_clamps() {
    assert_eq!(projected_height(0, 480), 480);
    assert_eq!(projected_height(HALF, 480), 480);
    assert_eq!(projected_height(ONE, 480), 480);
    assert_eq!(projected_height(2 * ONE, 480), 240);
    assert_eq!(projected_height(3 * ONE, 480), 160);
    assert_eq!(projected_height(1000 * ONE, 480), 0);
    let mut last = usize::MAX;
    for d in (0..40).map(|k| k * ONE / 4) {
        let h = projected_height(d, 480);
        assert!(h <= last);
        last = h;
    }
}

#[test]
fn wall_pixels_follow_fog_and_tint() {
    // At one cell the fog factor is 1/2: tints 0.9, 0.3, 0.8 become 0.45, 0.15, 0.4.
    let px = shade_pixel(ONE, Side::X, ONE, 480, 10);
    assert_eq!(px, Rgb { r: 114, g: 38, b: 102 });
    let other = shade_pixel(ONE, Side::Y, ONE, 480, 10);
    assert_eq!(other, Rgb { r: 38, g: 102, b: 114 });
    // Brightness falls as the wall recedes, and never rises.
    let mut last = 255u8;
    for k in 1..12 {
        let r = shade_pixel(k * ONE, Side::X, ONE, 480, 240).r;
        assert!(r <= last);
        last = r;
    }
    assert!(shade_pixel(11 * ONE, Side::X, ONE, 480, 240).r < shade_pixel(ONE, Side::X, ONE, 480, 240).r);
}

#[test]
fn near_and_far_walls_are_not_drawn() {
    // Too near and too far both fall through to the floor colour.
    let floor_top = Rgb { r: 178, g: 51, b: 25 };
    assert_eq!(shade_pixel(ONE / 40, Side::X, ONE, 480, 0), floor_top);
    assert_eq!(shade_pixel(12 * ONE, Side::X, ONE, 480, 0), floor_top);
    assert_eq!(shade_pixel(20 * ONE, Side::Y, ONE, 480, 240), Rgb { r: 0, g: 0, b: 0 });
    assert_eq!(shade_pixel(20 * ONE, Side::Y, ONE, 480, 479), Rgb { r: 177, g: 50, b: 25 });
}

#[test]
fn vignette_weight_scales_brightness() {
    assert_eq!(shade_pixel(ONE, Side::X, 0, 480, 10), Rgb { r: 0, g: 0, b: 0 });
    assert_eq!(shade_pixel(ONE, Side::X, HALF, 480, 10), Rgb { r: 57, g: 19, b: 51 });
}

#[test]
fn quantize_cuts_to_levels() {
    assert_eq!(quantize(1, 2, 16), 127);
    assert_eq!(quantize(1, 1, 16), 255);
    assert_eq!(quantize(0, 7, 16), 0);
    assert_eq!(quantize(1, 3, 255), 85);
    assert_eq!(quantize(2, 3, 4), 127);
}

#[test]
fn shading_a_column_twice_gives_the_same_bytes() {
    let a = shade_column(3 * ONE + 17, Side::Y, 50000, 120);
    let b = shade_column(3 * ONE + 17, Side::Y, 50000, 120);
    assert_eq!(a.len(), 120);
    assert_eq!(a, b);
    // The wall band is centred: rows 50..70 for a height of 20 pixels.
    let a = shade_column(6 * ONE, Side::Y, 50000, 120);
    let wall = shade_pixel(6 * ONE, Side::Y, 50000, 120, 60);
    assert_eq!(wall, Rgb { r: 1, g: 4, b: 4 });
    assert_eq!(a[50], wall);
    assert_eq!(a[69], wall);
    assert_ne!(a[49], wall);
    assert_ne!(a[70], wall);
}

#[test]
fn movement_is_scaled_to_speed() {
    let east = Dir { x: ONE as i64, y: 0 };
    let fwd = Keys { forward: true, ..no_keys() };
    assert_eq!(movement(east, fwd), Dir { x: SPEED as i64, y: 0 });
    let back = Keys { back: true, ..no_keys() };
    assert_eq!(movement(east, back), Dir { x: -(SPEED as i64), y: 0 });
    let right = Keys { right: true, ..no_keys() };
    assert_eq!(movement(east, right), Dir { x: 0, y: SPEED as i64 });
    let both = Keys { forward: true, back: true, ..no_keys() };
    assert_eq!(movement(east, both), Dir { x: 0, y: 0 });
    let diagonal = Keys { forward: true, right: true, ..no_keys() };
    assert_eq!(movement(east, diagonal), Dir { x: 2317, y: 2317 });
    assert_eq!(movement(east, no_keys()), Dir { x: 0, y: 0 });
}

#[test]
fn blocked_east_still_slides_along_y() {
    let g = room(8, 8, &[(5, 2), (5, 3), (5, 4)]);
    let start = Point { x: 4 * ONE + 52429, y: 3 * ONE + HALF };
    let east = Dir { x: ONE as i64, y: 0 };
    let mut p = Player::new(&g, start, east, 38011).expect("open cell");
    let keys = Keys { forward: true, right: true, ..no_keys() };
    p.update(&g, keys, east);
    assert_eq!(p.position.x, start.x);
    assert_eq!(p.position.y, start.y + 2317);
    assert_eq!(p.facing, east);

    // Pushing straight into the wall leaves the player where it was.
    let mut q = Player::new(&g, start, east, 38011).expect("open cell");
    q.update(&g, Keys { forward: true, ..no_keys() }, east);
    assert_eq!(q.position, start);
}

#[test]
fn blocked_east_at_a_corner_keeps_its_column() {
    // (1,1), (1,2) and (2,2) are open, (2,1) is solid.
    let g = room(5, 5, &[(2, 1), (3, 1), (3, 2), (1, 3), (2, 3), (3, 3)]);
    let start = Point { x: ONE + 58982, y: ONE + 64880 };
    let east = Dir { x: ONE as i64, y: 0 };
    let mut p = Player::new(&g, start, east, 38011).expect("open cell");
    p.update(&g, Keys { forward: true, right: true, ..no_keys() }, east);
    // The row changes to 2, where the east cell is open, but the column is
    // tested in the row the player started in, where the wall is.
    assert_eq!(p.position.x, start.x);
    assert_eq!(p.position.y, start.y + 2317);
    assert_eq!(p.position.y / ONE, 2);
}

#[test]
fn facing_must_have_unit_length() {
    assert!(facing_valid(Dir { x: ONE as i64, y: 0 }));
    assert!(facing_valid(Dir { x: 0, y: -(ONE as i64) }));
    assert!(facing_valid(Dir { x: 46341, y: 46341 }));
    assert!(facing_valid(Dir { x: 39322, y: 52429 }));
    assert!(!facing_valid(Dir { x: 0, y: 0 }));
    assert!(!facing_valid(Dir { x: -3, y: 5 }));
    assert!(!facing_valid(Dir { x: HALF as i64, y: 0 }));
    assert!(!facing_valid(Dir { x: ONE as i64 + 1, y: 0 }));
    assert!(!facing_valid(Dir { x: ONE as i64, y: ONE as i64 }));
}

#[test]
fn free_movement_is_taken_in_full() {
    let g = room(8, 8, &[]);
    let start = at(3, 3);
    let mut p = Player::new(&g, start, Dir { x: 0, y: ONE as i64 }, ONE).expect("open cell");
    p.update(&g, Keys { forward: true, ..no_keys() }, Dir { x: 0, y: ONE as i64 });
    assert_eq!(p.position, Point { x: start.x, y: start.y + SPEED });
    p.advance(&g, Dir { x: -(WALL_PADDING as i64) + 1, y: 0 });
    assert_eq!(p.position.x, start.x - WALL_PADDING + 1);
}

#[test]
fn player_rejects_bad_starts() {
    let g = room(6, 6, &[(3, 3)]);
    let east = Dir { x: ONE as i64, y: 0 };
    assert!(Player::new(&g, at(3, 3), east, ONE).is_none());
    assert!(Player::new(&g, at(0, 2), east, ONE).is_none());
    assert!(Player::new(&g, at(9, 2), east, ONE).is_none());
    assert!(Player::new(&g, at(2, 2), Dir { x: 0, y: 0 }, ONE).is_none());
    assert!(Player::new(&g, at(2, 2), Dir { x: ONE as i64 + 1, y: 0 }, ONE).is_none());
    assert!(Player::new(&g, at(2, 2), Dir { x: -3, y: 5 }, ONE).is_none());
    assert!(Player::new(&g, at(2, 2), east, MAX_PLANE_SCALE + 1).is_none());
    assert!(Player::new(&g, at(2, 2), east, MAX_PLANE_SCALE).is_some());
    assert!(Player::new(&g, at(2, 2), east, ONE).is_some());
}

#[test]
fn camera_plane_is_a_quarter_turn_of_facing() {
    let g = room(6, 6, &[]);
    let p = Player::new(&g, at(2, 2), Dir { x: ONE as i64, y: 0 }, 38011).unwrap();
    assert_eq!(p.camera_plane(), Dir { x: 0, y: 38011 });
    let q = Player::new(&g, at(2, 2), Dir { x: 0, y: ONE as i64 }, 38011).unwrap();
    assert_eq!(q.camera_plane(), Dir { x: -38011, y: 0 });
    let r = Player::new(&g, at(2, 2), Dir { x: 39322, y: 52429 }, HALF).unwrap();
    assert_eq!(r.camera_plane(), Dir { x: -26214, y: 19661 });
}

#[test]
fn column_directions_span_the_camera_plane() {
    let g = room(6, 6, &[]);
    let p = Player::new(&g, at(2, 2), Dir { x: ONE as i64, y: 0 }, HALF).unwrap();
    let s = 8 * ONE as i64;
    assert_eq!(column_direction(&p, 4, 8), Dir { x: ONE as i64 * s, y: 0 });
    let one = ONE as i64;
    assert_eq!(column_direction(&p, 0, 8), Dir { x: one * s, y: -one * (HALF as i64) * 8 });
    assert_eq!(column_direction(&p, 6, 8), Dir { x: one * s, y: one * (HALF as i64) * 4 });
}

#[test]
fn centre_ray_in_a_room_meets_the_interior_wall() {
    let wall: Vec<(usize, usize)> = (2..10).map(|y| (10, y)).collect();
    let g = room(16, 12, &wall);
    let p = Player::new(&g, Point { x: 2 * ONE + HALF, y: 2 * ONE + HALF }, Dir { x: ONE as i64, y: 0 }, 38011)
        .unwrap();
    let width = 640;
    let r = cast_column(&g, &p, width / 2, width);
    assert_eq!(r.side, Side::X);
    assert_eq!((r.cell_x, r.cell_y), (10, 2));
    assert_eq!(distance_in_view(&r, width), 7 * ONE + HALF);
}

#[test]
fn render_overwrites_every_byte() {
    let g = room(8, 8, &[(5, 3)]);
    let p = Player::new(&g, at(2, 3), Dir { x: ONE as i64, y: 0 }, 38011).unwrap();
    let (width, height) = (16usize, 12usize);
    let vignette: Vec<u64> = (0..width as u64).map(|i| ONE - i * 1000).collect();
    let mut frame = vec![7u8; BYTES_PER_PIXEL * width * height];
    render(&g, &p, &vignette, width, height, &mut frame);
    for i in 0..width {
        let hit = cast_column(&g, &p, i, width);
        let column = shade_column(distance_in_view(&hit, width), hit.side, vignette[i], height);
        for j in 0..height {
            let k = BYTES_PER_PIXEL * (j * width + i);
            assert_eq!(frame[k], column[j].r);
            assert_eq!(frame[k + 1], column[j].g);
            assert_eq!(frame[k + 2], column[j].b);
            assert_eq!(frame[k + 3], 255);
        }
    }
}
