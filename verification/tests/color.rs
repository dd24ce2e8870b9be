use all_is_cubes::color::{Rgb, Rgba, COLOR_UNIT};
use all_is_cubes::grid::{Grid, GridArray, GridPoint};
use all_is_cubes::light::{PackedLight, LIGHT_UNIT};

/// A colour component from its value in floating point.
fn c(value: f32) -> i32 {
    (value * 65536.0).round() as i32
}

fn rgba(r: f32, g: f32, b: f32, a: f32) -> Rgba {
    Rgba::new(c(r), c(g), c(b), c(a))
}

#[test]
fn rgba_to_saturating_32bit() {
    assert_eq!(
        rgba(0.125, 0.25, 0.5, 0.75).to_saturating_32bit(),
        (31, 63, 127, 191)
    );

    // Test saturation
    assert_eq!(
        rgba(0.5, -1.0, 10.0, 1.0).to_saturating_32bit(),
        (127, 0, 255, 255)
    );
}

#[test]
fn rgba_from_32bit() {
    assert_eq!(
        Rgba::from_32bit((0, 255, 51, 1)),
        Rgba::new(0, 65536, 13107, 257)
    );
    assert_eq!(
        Rgba::from_32bit((0, 255, 51, 128)).to_saturating_32bit(),
        (0, 255, 50, 127)
    );
}

#[test]
fn color_constants_and_parts() {
    assert_eq!(COLOR_UNIT, 65536);
    assert_eq!(Rgb::zero(), Rgb::new(0, 0, 0));
    assert_eq!(Rgb::one(), Rgb::new(65536, 65536, 65536));
    assert_eq!(Rgba::transparent(), Rgba::new(0, 0, 0, 0));
    assert_eq!(Rgba::black(), Rgba::new(0, 0, 0, 65536));
    assert_eq!(Rgba::white(), Rgba::new(65536, 65536, 65536, 65536));
    let color = Rgb::new(1, 2, 3);
    assert_eq!((color.red(), color.green(), color.blue()), (1, 2, 3));
    assert_eq!(color.with_alpha(4), Rgba::new(1, 2, 3, 4));
    assert_eq!(color.with_alpha_one(), Rgba::new(1, 2, 3, 65536));
    let color = Rgba::new(1, 2, 3, 4);
    assert_eq!(
        (color.red(), color.green(), color.blue(), color.alpha()),
        (1, 2, 3, 4)
    );
    assert_eq!(color.to_rgb(), Rgb::new(1, 2, 3));
}

#[test]
fn alpha_tests() {
    assert!(Rgba::new(9, 9, 9, 0).fully_transparent());
    assert!(Rgba::new(9, 9, 9, -5).fully_transparent());
    assert!(!Rgba::new(9, 9, 9, 1).fully_transparent());
    assert!(Rgba::new(9, 9, 9, 65536).fully_opaque());
    assert!(Rgba::new(9, 9, 9, 70000).fully_opaque());
    assert!(!Rgba::new(9, 9, 9, 65535).fully_opaque());
}

#[test]
fn packed_light_conversions() {
    assert_eq!(LIGHT_UNIT, 64);
    assert_eq!(PackedLight::initial(), PackedLight { r: 64, g: 64, b: 64 });
    assert_eq!(PackedLight::sky(), PackedLight::initial());
    assert_eq!(PackedLight::from(Rgb::one()), PackedLight::sky());
    assert_eq!(
        PackedLight::from(Rgb::new(1023, 1024, 32768)),
        PackedLight { r: 0, g: 1, b: 32 }
    );
    // Light is kept within the range that can be stored.
    assert_eq!(
        PackedLight::from(Rgb::new(-1, 255 * 1024 - 1, 20 * 65536)),
        PackedLight { r: 0, g: 254, b: 255 }
    );
    assert_eq!(
        PackedLight::from_components(i64::MAX, i64::MIN, 261120),
        PackedLight { r: 255, g: 0, b: 255 }
    );
    assert_eq!(
        Rgb::from(PackedLight { r: 0, g: 1, b: 64 }),
        Rgb::new(0, 1024, 65536)
    );
    assert_eq!(PackedLight { r: 3, g: 2, b: 1 }.to_rgb(), Rgb::new(3072, 2048, 1024));
}

#[test]
fn packed_light_difference_magnitude() {
    let a = PackedLight { r: 10, g: 200, b: 0 };
    let b = PackedLight { r: 12, g: 150, b: 255 };
    assert_eq!(a.difference_magnitude(a), 0);
    assert_eq!(a.difference_magnitude(b), 255);
    assert_eq!(b.difference_magnitude(a), 255);
    assert_eq!(
        a.difference_magnitude(PackedLight { r: 12, g: 150, b: 7 }),
        50
    );
    assert_eq!(
        a.difference_magnitude(PackedLight { r: 13, g: 200, b: 1 }),
        3
    );
}

#[test]
fn grid_bounds_and_indices() {
    assert!(Grid::new(GridPoint::origin(), GridPoint::new(0, 1, 1)).is_none());
    assert!(Grid::new(GridPoint::origin(), GridPoint::new(1, -1, 1)).is_none());
    assert!(Grid::new(GridPoint::new(1 << 30, 0, 0), GridPoint::new(1, 1, 1)).is_none());
    assert!(Grid::new(GridPoint::new(0, -(1 << 30) - 1, 0), GridPoint::new(1, 1, 1)).is_none());
    assert!(Grid::new(GridPoint::origin(), GridPoint::new(1 << 16, 1 << 15, 1)).is_none());
    assert!(Grid::new(GridPoint::origin(), GridPoint::new(1 << 16, 1 << 14, 2)).is_none());
    assert!(Grid::new(GridPoint::origin(), GridPoint::new(1 << 16, 1 << 14, 1)).is_some());
    assert!(Grid::new(GridPoint::new((1 << 30) - 1, 0, 0), GridPoint::new(1, 1, 1)).is_some());

    let grid = Grid::new(GridPoint::new(-1, 10, 100), GridPoint::new(2, 3, 4)).unwrap();
    assert_eq!(grid.lower_bounds(), GridPoint::new(-1, 10, 100));
    assert_eq!(grid.size(), GridPoint::new(2, 3, 4));
    assert_eq!(grid.upper_bounds(), GridPoint::new(1, 13, 104));
    assert_eq!(grid.volume(), 24);
    assert!(grid.contains_cube(GridPoint::new(0, 12, 103)));
    assert!(!grid.contains_cube(GridPoint::new(1, 12, 103)));
    assert!(!grid.contains_cube(GridPoint::new(0, 9, 103)));
    assert_eq!(grid.index(GridPoint::new(-1, 10, 100)), Some(0));
    assert_eq!(grid.index(GridPoint::new(-1, 10, 101)), Some(1));
    assert_eq!(grid.index(GridPoint::new(-1, 11, 100)), Some(4));
    assert_eq!(grid.index(GridPoint::new(0, 10, 100)), Some(12));
    assert_eq!(grid.index(GridPoint::new(0, 12, 103)), Some(23));
    assert_eq!(grid.index(GridPoint::new(0, 12, 104)), None);
    for i in 0..grid.volume() {
        assert_eq!(grid.index(grid.cube_at(i)), Some(i));
    }
    assert_eq!(grid.cube_at(17), GridPoint::new(0, 11, 101));

    let block = Grid::for_block(0);
    assert_eq!(block.size(), GridPoint::new(1, 1, 1));
    let block = Grid::for_block(255);
    assert_eq!(block.volume(), 255 * 255 * 255);
}

#[test]
fn grid_divide_rounds_outwards() {
    let grid = Grid::new(GridPoint::new(-5, 0, 7), GridPoint::new(10, 1, 2)).unwrap();
    let divided = grid.divide(4);
    assert_eq!(divided.lower_bounds(), GridPoint::new(-2, 0, 1));
    assert_eq!(divided.upper_bounds(), GridPoint::new(2, 1, 3));
    assert_eq!(grid.divide(1), grid);
    let wide = Grid::new(
        GridPoint::new(-(1 << 30), 0, 0),
        GridPoint::new(1 << 30, 1, 1),
    )
    .unwrap();
    let divided = wide.divide(255);
    assert_eq!(divided.lower_bounds().x, -4210753);
    assert_eq!(divided.upper_bounds().x, 0);
}

#[test]
fn grid_array_holds_one_value_per_cube() {
    let grid = Grid::new(GridPoint::new(1, 1, 1), GridPoint::new(1, 2, 2)).unwrap();
    assert!(GridArray::from_elements(grid, vec![1u8, 2, 3]).is_none());
    let array = GridArray::from_elements(grid, vec![1u8, 2, 3, 4]).unwrap();
    assert_eq!(array.grid(), grid);
    assert_eq!(array.elements(), &vec![1u8, 2, 3, 4]);
    assert_eq!(array.get(GridPoint::new(1, 2, 1)), Some(&3));
    assert_eq!(array.get(GridPoint::new(1, 2, 2)), Some(&4));
    assert_eq!(array.get(GridPoint::new(2, 2, 2)), None);
    assert_eq!(array.clone(), array);
}

#[test]
fn color_arithmetic() {
    let a = Rgb::new(65536, 32768, -65536);
    let b = Rgb::new(32768, 32768, 32768);
    assert_eq!(a + b, Rgb::new(98304, 65536, -32768));
    assert_eq!(a - b, Rgb::new(32768, 0, -98304));
    // Products are in fixed point and rounded towards zero.
    assert_eq!(a * b, Rgb::new(32768, 16384, -32768));
    assert_eq!(Rgb::new(3, -3, 65537) * 32768, Rgb::new(1, -1, 32768));
    assert_eq!(a * COLOR_UNIT, a);
    // Sums, differences and products are held to the range of components.
    let big = Rgb::new(i32::MAX, i32::MIN, i32::MAX);
    assert_eq!(big + big, big);
    assert_eq!(big - Rgb::new(-1, 1, 0), big);
    assert_eq!(big * big, Rgb::new(i32::MAX, i32::MAX, i32::MAX));
    assert_eq!(
        big * Rgb::new(-65537, 65537, 0),
        Rgb::new(i32::MIN, i32::MIN, 0)
    );
    let c = Rgba::new(1, 2, 3, 4);
    assert_eq!(c + c, Rgba::new(2, 4, 6, 8));
    assert_eq!(c - Rgba::new(4, 3, 2, 1), Rgba::new(-3, -1, 1, 3));
    assert_eq!(
        Rgba::new(i32::MAX, 0, 0, i32::MIN) + Rgba::new(1, 0, 0, -1),
        Rgba::new(i32::MAX, 0, 0, i32::MIN)
    );
}
