use all_is_cubes::block::{Block, BlockAttributes};
use all_is_cubes::color::{Rgb, Rgba};
use all_is_cubes::grid::GridPoint;
use all_is_cubes::light::PackedLight;
use all_is_cubes::lighting::{LightUpdateRequest, Ray, LIGHT_UPDATES_PER_STEP, RAYS_PER_CUBE};
use all_is_cubes::space::{SetCubeError, Space, SpaceChange};
use all_is_cubes::universe::{RefError, SpaceRef, Universe};

fn opaque_black() -> Block {
    Block::from(Rgba::black())
}

fn lamp(r: i32, g: i32, b: i32) -> Block {
    Block::Atom(
        BlockAttributes {
            light_emission: Rgb::new(r, g, b),
            ..BlockAttributes::default()
        },
        Rgba::white(),
    )
}

fn all_light(space: &Space) -> Vec<PackedLight> {
    let grid = space.grid();
    (0..grid.volume())
        .map(|i| space.get_lighting(grid.cube_at(i)))
        .collect()
}

/// A space of one cube whose block is opaque is fully absorbed by one
/// update.
#[test]
fn single_opaque_cube_is_dark_after_one_step() {
    let universe = Universe::new();
    let mut space = Space::empty_positive(1, 1, 1).unwrap();
    assert_eq!(space.get_lighting(GridPoint::origin()), PackedLight::sky());
    assert_eq!(
        space.set(GridPoint::origin(), &opaque_black(), &universe),
        Ok(true)
    );
    let info = space.update_lighting_from_queue();
    assert_eq!(info.light_update_count, 1);
    assert_eq!(info.light_queue_count, 0);
    assert_eq!(info.max_light_update_difference, 64);
    assert_eq!(
        space.get_lighting(GridPoint::origin()),
        PackedLight { r: 0, g: 0, b: 0 }
    );
    assert_eq!(
        space.take_changes(),
        vec![
            SpaceChange::Block(GridPoint::origin()),
            SpaceChange::Lighting(GridPoint::origin())
        ]
    );
}

/// An empty space without occluders stays lit as by the sky.
#[test]
fn empty_space_stays_sky() {
    let mut space = Space::empty_positive(9, 9, 9).unwrap();
    let info = space.update_lighting_from_queue();
    assert_eq!(info.light_update_count, 0);
    assert_eq!(info.light_queue_count, 0);
    assert_eq!(info.max_light_update_difference, 0);
    assert!(all_light(&space).iter().all(|l| *l == PackedLight::sky()));

    // The same where every cube is recomputed: all rays reach the sky.
    let grid = space.grid();
    for i in 0..grid.volume() {
        space.light_needs_update(grid.cube_at(i), 1);
    }
    let mut steps = 0;
    loop {
        let info = space.update_lighting_from_queue();
        assert_eq!(info.max_light_update_difference, 0);
        steps += 1;
        if info.light_queue_count == 0 {
            break;
        }
    }
    assert_eq!(steps, 7);
    assert!(all_light(&space).iter().all(|l| *l == PackedLight::sky()));
    assert!(space.take_changes().is_empty());
}

#[test]
fn queue_holds_a_cube_once() {
    let mut space = Space::empty_positive(3, 3, 3).unwrap();
    let cube = GridPoint::new(1, 2, 0);
    space.light_needs_update(cube, 5);
    space.light_needs_update(cube, 200);
    space.light_needs_update(cube, 5);
    let info = space.update_lighting_from_queue();
    assert_eq!(info.light_update_count, 1);
    assert_eq!(info.light_queue_count, 0);
    // Once served, the cube can be queued again.
    space.light_needs_update(cube, 1);
    assert_eq!(space.update_lighting_from_queue().light_update_count, 1);
}

#[test]
fn requests_outside_of_the_space_are_dropped() {
    let mut space = Space::empty_positive(2, 2, 2).unwrap();
    space.light_needs_update(GridPoint::new(2, 0, 0), 255);
    space.light_needs_update(GridPoint::new(0, -1, 0), 255);
    space.light_needs_update(GridPoint::new(i32::MAX, i32::MIN, 0), 255);
    let info = space.update_lighting_from_queue();
    assert_eq!(info.light_update_count, 0);
    assert_eq!(info.light_queue_count, 0);
}

#[test]
fn one_step_serves_at_most_120_requests() {
    assert_eq!(LIGHT_UPDATES_PER_STEP, 120);
    let mut space = Space::empty_positive(9, 9, 9).unwrap();
    let grid = space.grid();
    for i in 0..grid.volume() {
        space.light_needs_update(grid.cube_at(i), (i % 7) as u8);
    }
    let info = space.update_lighting_from_queue();
    assert_eq!(info.light_update_count, 120);
    assert_eq!(info.light_queue_count, 729 - 120);
    let info = space.update_lighting_from_queue();
    assert_eq!(info.light_update_count, 120);
    assert_eq!(info.light_queue_count, 729 - 240);
    for _ in 0..4 {
        space.update_lighting_from_queue();
    }
    let info = space.update_lighting_from_queue();
    assert_eq!(info.light_update_count, 9);
    assert_eq!(info.light_queue_count, 0);
}

/// An opaque lamp beside an empty cube: five of the 54 rays of the empty
/// cube strike the lamp, and the others reach the sky.
#[test]
fn light_of_a_cube_beside_a_lamp() {
    let universe = Universe::new();
    let mut space = Space::empty_positive(2, 1, 1).unwrap();
    space
        .set(GridPoint::new(1, 0, 0), &lamp(131072, 0, 0), &universe)
        .unwrap();
    let difference = space.update_lighting_now_on(GridPoint::new(0, 0, 0));
    // red: (5 * (131072 + 65536) + 49 * 65536) / 54 = 77672, and 77672 / 1024 = 75.
    assert_eq!(
        space.get_lighting(GridPoint::new(0, 0, 0)),
        PackedLight { r: 75, g: 64, b: 64 }
    );
    assert_eq!(difference, 11);
    // The same again changes nothing.
    assert_eq!(space.update_lighting_now_on(GridPoint::new(0, 0, 0)), 1);
    assert_eq!(
        space.get_lighting(GridPoint::new(0, 0, 0)),
        PackedLight { r: 76, g: 64, b: 64 }
    );
}

#[test]
fn requests_are_served_by_priority_and_then_by_cube() {
    let universe = Universe::new();
    let mut space = Space::empty_positive(3, 1, 1).unwrap();
    space
        .set(GridPoint::new(1, 0, 0), &lamp(131072, 0, 0), &universe)
        .unwrap();
    // The cube and its neighbours wait at the highest priority.
    let info = space.update_lighting_from_queue();
    assert_eq!(info.light_queue_count, 0);
    assert_eq!(info.max_light_update_difference, 64);
    let changes = space.take_changes();
    assert_eq!(
        changes[..4],
        [
            SpaceChange::Block(GridPoint::new(1, 0, 0)),
            SpaceChange::Lighting(GridPoint::new(2, 0, 0)),
            SpaceChange::Lighting(GridPoint::new(1, 0, 0)),
            SpaceChange::Lighting(GridPoint::new(0, 0, 0)),
        ]
    );

    assert_eq!(changes.len(), 4);
    assert_eq!(info.light_update_count, 4);

    // Lower priorities wait behind higher ones whatever the cube is.
    let a = LightUpdateRequest {
        priority: 1,
        cube: GridPoint::new(2, 0, 0),
    };
    let b = LightUpdateRequest {
        priority: 2,
        cube: GridPoint::new(0, 0, 0),
    };
    assert!(a.precedes(&b));
    assert!(!b.precedes(&a));
    assert!(!a.precedes(&a));
    let c = LightUpdateRequest {
        priority: 2,
        cube: GridPoint::new(0, 0, 1),
    };
    let d = LightUpdateRequest {
        priority: 2,
        cube: GridPoint::new(0, 1, -5),
    };
    let e = LightUpdateRequest {
        priority: 2,
        cube: GridPoint::new(1, -9, -5),
    };
    assert!(b.precedes(&c) && c.precedes(&d) && d.precedes(&e));
    assert!(!c.precedes(&b) && !d.precedes(&c) && !e.precedes(&d));
}

#[test]
fn rays_of_a_cube() {
    assert_eq!(RAYS_PER_CUBE, 54);
    let mut directions = Vec::new();
    for k in 0..RAYS_PER_CUBE {
        let ray = Ray::new(k);
        let d = ray.direction;
        assert!(d.x.abs() <= 1 && d.y.abs() <= 1 && d.z.abs() <= 1);
        directions.push((d.x, d.y, d.z));
    }
    // Nine rays through each face, outwards.
    assert_eq!(directions.iter().filter(|d| d.0 == -1).count(), 9 + 4 * 3);
    assert_eq!(Ray::new(0).direction, GridPoint::new(-1, -1, -1));
    assert_eq!(Ray::new(0).first, GridPoint::new(3, 2, 2));
    assert_eq!(Ray::new(4).direction, GridPoint::new(-1, 0, 0));
    assert_eq!(Ray::new(13).direction, GridPoint::new(0, -1, 0));
    assert_eq!(Ray::new(22).direction, GridPoint::new(0, 0, -1));
    assert_eq!(Ray::new(31).direction, GridPoint::new(1, 0, 0));
    assert_eq!(Ray::new(40).direction, GridPoint::new(0, 1, 0));
    assert_eq!(Ray::new(49).direction, GridPoint::new(0, 0, 1));
    assert_eq!(Ray::new(53).direction, GridPoint::new(1, 1, 1));
    assert_eq!(Ray::new(53).first, GridPoint::new(2, 2, 3));

    // A straight ray goes on along its axis.
    let straight = Ray::new(31);
    let start = GridPoint::new(5, 5, 5);
    assert_eq!(straight.step(start, start), GridPoint::new(6, 5, 5));
    assert_eq!(
        straight.step(start, GridPoint::new(6, 5, 5)),
        GridPoint::new(7, 5, 5)
    );
    // A diagonal ray leaves sideways first, the later axis going first
    // where two crossings fall together, and then through its face.
    let diagonal = Ray::new(53);
    assert_eq!(diagonal.step(start, start), GridPoint::new(5, 6, 5));
    assert_eq!(
        diagonal.step(start, GridPoint::new(5, 6, 5)),
        GridPoint::new(6, 6, 5)
    );
    assert_eq!(
        diagonal.step(start, GridPoint::new(6, 6, 5)),
        GridPoint::new(6, 6, 6)
    );
    assert_eq!(
        diagonal.step(start, GridPoint::new(6, 6, 6)),
        GridPoint::new(6, 7, 6)
    );
}

/// The same changes and the same number of steps give the same light.
#[test]
fn light_propagation_is_deterministic() {
    fn run() -> (Vec<PackedLight>, Vec<SpaceChange>) {
        let universe = Universe::new();
        let mut space = Space::empty_positive(5, 4, 3).unwrap();
        space
            .set(GridPoint::new(2, 1, 1), &lamp(500000, 100000, 0), &universe)
            .unwrap();
        space
            .set(GridPoint::new(3, 1, 1), &opaque_black(), &universe)
            .unwrap();
        space
            .set(GridPoint::new(0, 3, 2), &lamp(0, 0, 2000000), &universe)
            .unwrap();
        for _ in 0..3 {
            space.update_lighting_from_queue();
        }
        space
            .set(GridPoint::new(2, 1, 1), &all_is_cubes::block::air(), &universe)
            .unwrap();
        for _ in 0..2 {
            space.update_lighting_from_queue();
        }
        (all_light(&space), space.take_changes())
    }
    let first = run();
    let second = run();
    assert_eq!(first, second);
    assert!(first.0.iter().any(|l| *l != PackedLight::sky()));
}

#[test]
fn set_reports_what_it_did() {
    let mut universe = Universe::new();
    let mut space = Space::empty_positive(2, 2, 2).unwrap();
    let cube = GridPoint::new(1, 1, 1);
    assert_eq!(
        space.set(GridPoint::new(2, 0, 0), &opaque_black(), &universe),
        Err(SetCubeError::OutOfBounds(GridPoint::new(2, 0, 0)))
    );
    assert_eq!(space.set(cube, &opaque_black(), &universe), Ok(true));
    assert_eq!(space.set(cube, &opaque_black(), &universe), Ok(false));
    assert_eq!(space.get_block(cube), &opaque_black());
    assert!(space.get_evaluated(cube).opaque);
    assert_eq!(
        space.get_block(GridPoint::new(-1, 0, 0)),
        &all_is_cubes::block::air()
    );
    assert_eq!(
        space.get_evaluated(GridPoint::new(-1, 0, 0)),
        &all_is_cubes::block::air_evaluated()
    );
    assert_eq!(space.get_lighting(GridPoint::new(-1, 0, 0)), PackedLight::sky());

    let gone = Block::builder()
        .voxels_ref(1, SpaceRef { index: 3 })
        .build();
    assert_eq!(
        space.set(cube, &gone, &universe),
        Err(SetCubeError::BlockDataAccess(RefError::Gone))
    );
    let other = universe.insert_space(Space::empty_positive(1, 1, 1).unwrap());
    let held = Block::builder().voxels_ref(1, other).build();
    let taken = universe.take_space(&other).unwrap();
    assert_eq!(
        space.set(cube, &held, &universe),
        Err(SetCubeError::BlockDataAccess(RefError::InUse))
    );
    assert_eq!(space.get_block(cube), &opaque_black());
    universe.restore_space(&other, taken).unwrap();
    assert_eq!(space.set(cube, &held, &universe), Ok(true));

    // The cube and its neighbours within the space are to be relit.
    assert_eq!(
        space.take_changes(),
        vec![SpaceChange::Block(cube), SpaceChange::Block(cube)]
    );
    let info = space.update_lighting_from_queue();
    assert!(info.light_update_count >= 4);
}

#[test]
fn fill_stops_at_the_first_cube_that_cannot_be_set() {
    let universe = Universe::new();
    let mut space = Space::empty_positive(2, 1, 2).unwrap();
    let region = all_is_cubes::grid::Grid::new(GridPoint::new(1, 0, 0), GridPoint::new(2, 1, 2))
        .unwrap();
    let result = space.fill(region, |_| Some(opaque_black()), &universe);
    assert_eq!(
        result,
        Err(SetCubeError::OutOfBounds(GridPoint::new(2, 0, 0)))
    );
    assert_eq!(space.get_block(GridPoint::new(1, 0, 0)), &opaque_black());
    assert_eq!(space.get_block(GridPoint::new(1, 0, 1)), &opaque_black());
    assert_eq!(
        space.get_block(GridPoint::new(0, 0, 0)),
        &all_is_cubes::block::air()
    );
    let grid = space.grid();
    let result = space.fill(
        grid,
        |p| if p.z == 0 { None } else { Some(lamp(1, 2, 3)) },
        &universe,
    );
    assert_eq!(result, Ok(()));
    assert_eq!(space.get_block(GridPoint::new(1, 0, 0)), &opaque_black());
    assert_eq!(space.get_block(GridPoint::new(0, 0, 1)), &lamp(1, 2, 3));
}

#[test]
fn light_outside_of_the_space_is_left_alone() {
    let universe = Universe::new();
    let mut space = Space::empty_positive(1, 1, 1).unwrap();
    space
        .set(GridPoint::origin(), &lamp(9 << 20, 0, 0), &universe)
        .unwrap();
    space.take_changes();
    assert_eq!(space.update_lighting_now_on(GridPoint::new(1, 0, 0)), 0);
    assert_eq!(space.update_lighting_now_on(GridPoint::new(0, 0, -1)), 0);
    assert_eq!(
        space.update_lighting_now_on(GridPoint::new(i32::MIN, i32::MAX, 0)),
        0
    );
    assert!(space.take_changes().is_empty());
    assert_eq!(space.update_lighting_from_queue().light_update_count, 1);
}

#[test]
fn light_is_absorbed_and_emitted() {
    let universe = Universe::new();
    // A cube between two opaque cubes, one of which is a lamp.
    let mut space = Space::empty_positive(3, 1, 1).unwrap();
    space
        .set(GridPoint::new(0, 0, 0), &opaque_black(), &universe)
        .unwrap();
    space
        .set(GridPoint::new(2, 0, 0), &lamp(0, 40 * 65536, -65536), &universe)
        .unwrap();
    let middle = GridPoint::new(1, 0, 0);
    let difference = space.update_lighting_now_on(middle);
    // Five rays strike each neighbour and bring what it emits and the light
    // of the middle cube itself; 44 reach the sky.
    // green: (5 * 65536 + 5 * (40 * 65536 + 65536) + 44 * 65536) / 54 / 1024 = 301
    // in steps of 1/64, which is more than can be stored.
    // blue: (5 * 65536 + 5 * (65536 - 65536) + 44 * 65536) / 54 / 1024 = 58.
    assert_eq!(
        space.get_lighting(middle),
        PackedLight { r: 64, g: 255, b: 58 }
    );
    assert_eq!(difference, 191);
}
