use falling_sand::{new_grid, place, tick, tick_with, Grid, Material, Rgb, Side};

fn grid_with(width: usize, height: usize, cells: &[(usize, usize, Material)]) -> Grid {
    let mut g = new_grid(width, height);
    for &(x, y, m) in cells {
        place(&mut g, x, y, m);
    }
    g
}

fn read(g: &Grid, x: usize, y: usize) -> Material {
    g.get(x, y).unwrap()
}

fn count(g: &Grid, m: Material) -> usize {
    let mut n = 0;
    for y in 0..g.height() {
        for x in 0..g.width() {
            if read(g, x, y) == m {
                n += 1;
            }
        }
    }
    n
}

fn cells_of(g: &Grid) -> Vec<Material> {
    let mut v = Vec::new();
    for y in 0..g.height() {
        for x in 0..g.width() {
            v.push(read(g, x, y));
        }
    }
    v
}

fn same_sides(g: &Grid, side: Side) -> Vec<Side> {
    vec![side; g.width() * g.height()]
}

#[test]
fn new_grid_is_all_air() {
    let g = new_grid(4, 3);
    assert_eq!(g.width(), 4);
    assert_eq!(g.height(), 3);
    assert_eq!(count(&g, Material::Air), 12);
}

#[test]
fn get_outside_the_grid_is_none() {
    let g = new_grid(2, 2);
    assert_eq!(g.get(2, 0), None);
    assert_eq!(g.get(0, 2), None);
    assert_eq!(g.get(1, 1), Some(Material::Air));
}

#[test]
fn displacement_follows_density() {
    assert!(Material::Air.is_displaceable_by(Material::Sand));
    assert!(Material::Air.is_displaceable_by(Material::Water));
    assert!(Material::Water.is_displaceable_by(Material::Sand));
    assert!(!Material::Sand.is_displaceable_by(Material::Sand));
    assert!(!Material::Sand.is_displaceable_by(Material::Water));
    assert!(!Material::Sand.is_displaceable_by(Material::Air));
    assert!(!Material::Water.is_displaceable_by(Material::Water));
    assert!(!Material::Water.is_displaceable_by(Material::Air));
    assert!(!Material::Air.is_displaceable_by(Material::Air));
}

#[test]
fn colors_by_material() {
    assert_eq!(Material::Sand.color(), Rgb { r: 252, g: 249, b: 0 });
    assert_eq!(Material::Water.color(), Rgb { r: 0, g: 119, b: 242 });
    assert_eq!(Material::Air.color(), Rgb { r: 0, g: 0, b: 0 });
}

#[test]
fn place_overwrites_whatever_was_there() {
    let mut g = grid_with(3, 3, &[(1, 1, Material::Water)]);
    place(&mut g, 1, 1, Material::Sand);
    assert_eq!(read(&g, 1, 1), Material::Sand);
    place(&mut g, 0, 2, Material::Sand);
    assert_eq!(read(&g, 0, 2), Material::Sand);
    place(&mut g, 0, 2, Material::Air);
    assert_eq!(read(&g, 0, 2), Material::Air);
}

#[test]
fn place_outside_the_grid_changes_nothing() {
    let mut g = grid_with(2, 2, &[(0, 0, Material::Sand)]);
    let before = cells_of(&g);
    place(&mut g, 2, 0, Material::Water);
    place(&mut g, 0, 5, Material::Water);
    assert_eq!(cells_of(&g), before);
}

#[test]
fn single_grain_free_fall() {
    let mut g = grid_with(3, 3, &[(1, 0, Material::Sand)]);
    let mut buffer = new_grid(3, 3);
    tick(&mut g, &mut buffer);
    assert_eq!(read(&g, 1, 0), Material::Air);
    assert_eq!(read(&g, 1, 1), Material::Sand);
    tick(&mut g, &mut buffer);
    assert_eq!(read(&g, 1, 1), Material::Air);
    assert_eq!(read(&g, 1, 2), Material::Sand);
    let settled = cells_of(&g);
    tick(&mut g, &mut buffer);
    assert_eq!(cells_of(&g), settled);
    assert_eq!(count(&g, Material::Sand), 1);
}

#[test]
fn sand_pile_top_grain_rests() {
    let mut g = grid_with(
        3,
        2,
        &[
            (1, 0, Material::Sand),
            (0, 1, Material::Sand),
            (1, 1, Material::Sand),
            (2, 1, Material::Sand),
        ],
    );
    let before = cells_of(&g);
    let mut buffer = new_grid(3, 2);
    tick(&mut g, &mut buffer);
    assert_eq!(read(&g, 1, 0), Material::Sand);
    assert_eq!(cells_of(&g), before);
}

#[test]
fn water_in_a_single_row_stays_one_cell() {
    let mut g = grid_with(5, 1, &[(2, 0, Material::Water)]);
    let mut buffer = new_grid(5, 1);
    tick(&mut g, &mut buffer);
    assert_eq!(count(&g, Material::Water), 1);
    let at = (1..4).filter(|&x| read(&g, x, 0) == Material::Water).count();
    assert_eq!(at, 1);
    assert_eq!(read(&g, 2, 0), Material::Water);
}

#[test]
fn sand_slides_to_the_side_tried_first() {
    let start = [(1, 0, Material::Sand), (1, 1, Material::Sand)];
    let mut g = grid_with(3, 3, &start);
    let mut buffer = new_grid(3, 3);
    let sides = same_sides(&g, Side::Left);
    tick_with(&mut g, &mut buffer, &sides);
    assert_eq!(read(&g, 0, 1), Material::Sand);
    assert_eq!(read(&g, 1, 2), Material::Sand);
    assert_eq!(count(&g, Material::Sand), 2);

    let mut g = grid_with(3, 3, &start);
    let sides = same_sides(&g, Side::Right);
    tick_with(&mut g, &mut buffer, &sides);
    assert_eq!(read(&g, 2, 1), Material::Sand);
    assert_eq!(read(&g, 1, 2), Material::Sand);
    assert_eq!(count(&g, Material::Sand), 2);
}

#[test]
fn sand_slides_to_the_other_side_when_the_first_is_blocked() {
    // A grain under the left diagonal leaves only the right one open.
    let start = [(1, 0, Material::Sand), (1, 1, Material::Sand), (1, 2, Material::Sand), (0, 2, Material::Sand)];
    let mut g = grid_with(3, 3, &start);
    let mut buffer = new_grid(3, 3);
    let sides = same_sides(&g, Side::Left);
    tick_with(&mut g, &mut buffer, &sides);
    assert_eq!(read(&g, 1, 0), Material::Air);
    assert_eq!(read(&g, 2, 1), Material::Sand);
    assert_eq!(count(&g, Material::Sand), 4);
}

#[test]
fn random_tick_slides_sand_to_one_side() {
    let mut g = grid_with(3, 3, &[(1, 0, Material::Sand), (1, 1, Material::Sand)]);
    let mut buffer = new_grid(3, 3);
    tick(&mut g, &mut buffer);
    assert_eq!(read(&g, 1, 0), Material::Air);
    let left = read(&g, 0, 1) == Material::Sand;
    let right = read(&g, 2, 1) == Material::Sand;
    assert!(left != right);
}

#[test]
fn sand_sinks_through_water() {
    let mut g = grid_with(1, 2, &[(0, 0, Material::Sand), (0, 1, Material::Water)]);
    let mut buffer = new_grid(1, 2);
    tick(&mut g, &mut buffer);
    assert_eq!(read(&g, 0, 0), Material::Water);
    assert_eq!(read(&g, 0, 1), Material::Sand);
}

#[test]
fn displaced_water_waits_for_the_next_tick() {
    let mut g = grid_with(1, 3, &[(0, 0, Material::Sand), (0, 1, Material::Water)]);
    let mut buffer = new_grid(1, 3);
    tick(&mut g, &mut buffer);
    assert_eq!(cells_of(&g), vec![Material::Water, Material::Sand, Material::Air]);
    tick(&mut g, &mut buffer);
    assert_eq!(cells_of(&g), vec![Material::Water, Material::Air, Material::Sand]);
}

#[test]
fn water_flows_diagonally_below() {
    let start = [(1, 0, Material::Water), (1, 1, Material::Sand)];
    let mut g = grid_with(3, 2, &start);
    let mut buffer = new_grid(3, 2);
    let sides = same_sides(&g, Side::Left);
    tick_with(&mut g, &mut buffer, &sides);
    assert_eq!(read(&g, 0, 1), Material::Water);
    assert_eq!(read(&g, 1, 0), Material::Air);

    let mut g = grid_with(3, 2, &start);
    let sides = same_sides(&g, Side::Right);
    tick_with(&mut g, &mut buffer, &sides);
    assert_eq!(read(&g, 2, 1), Material::Water);
    assert_eq!(read(&g, 1, 0), Material::Air);
}

#[test]
fn water_spreads_sideways_on_a_floor() {
    let start = [
        (1, 0, Material::Water),
        (0, 1, Material::Sand),
        (1, 1, Material::Sand),
        (2, 1, Material::Sand),
    ];
    let mut g = grid_with(3, 2, &start);
    let mut buffer = new_grid(3, 2);
    let sides = same_sides(&g, Side::Left);
    tick_with(&mut g, &mut buffer, &sides);
    assert_eq!(cells_of(&g)[0..3].to_vec(), vec![Material::Water, Material::Air, Material::Air]);

    let mut g = grid_with(3, 2, &start);
    let sides = same_sides(&g, Side::Right);
    tick_with(&mut g, &mut buffer, &sides);
    assert_eq!(cells_of(&g)[0..3].to_vec(), vec![Material::Air, Material::Air, Material::Water]);
}

#[test]
fn water_does_not_sink_through_water() {
    let mut g = grid_with(1, 2, &[(0, 0, Material::Water), (0, 1, Material::Water)]);
    let mut buffer = new_grid(1, 2);
    tick(&mut g, &mut buffer);
    assert_eq!(cells_of(&g), vec![Material::Water, Material::Water]);
}

#[test]
fn ticks_keep_every_material_count() {
    let mut g = new_grid(7, 6);
    for y in 0..3 {
        for x in 0..7 {
            let m = if (x + y) % 3 == 0 { Material::Water } else if (x + y) % 3 == 1 { Material::Sand } else { Material::Air };
            place(&mut g, x, y, m);
        }
    }
    let sand = count(&g, Material::Sand);
    let water = count(&g, Material::Water);
    let mut buffer = new_grid(7, 6);
    for _ in 0..20 {
        tick(&mut g, &mut buffer);
        assert_eq!(count(&g, Material::Sand), sand);
        assert_eq!(count(&g, Material::Water), water);
        assert_eq!(count(&g, Material::Air), 42 - sand - water);
        assert_eq!(cells_of(&buffer), cells_of(&g));
    }
}

#[test]
fn sand_ends_below_water() {
    let mut g = new_grid(1, 4);
    place(&mut g, 0, 0, Material::Sand);
    place(&mut g, 0, 1, Material::Sand);
    place(&mut g, 0, 2, Material::Water);
    place(&mut g, 0, 3, Material::Water);
    let mut buffer = new_grid(1, 4);
    for _ in 0..10 {
        tick(&mut g, &mut buffer);
    }
    assert_eq!(
        cells_of(&g),
        vec![Material::Water, Material::Water, Material::Sand, Material::Sand]
    );
}
