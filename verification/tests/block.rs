use all_is_cubes::block::{Block, BlockAttributes, BlockDef, EvaluatedBlock};
use all_is_cubes::color::{Rgb, Rgba};
use all_is_cubes::grid::{Grid, GridArray, GridPoint};
use all_is_cubes::space::Space;
use all_is_cubes::universe::{Commit, RefError, Universe};

/// A colour component from its value in floating point.
fn c(value: f32) -> i32 {
    (value * 65536.0).round() as i32
}

fn rgba(r: f32, g: f32, b: f32, a: f32) -> Rgba {
    Rgba::new(c(r), c(g), c(b), c(a))
}

fn rgb(r: f32, g: f32, b: f32) -> Rgb {
    Rgb::new(c(r), c(g), c(b))
}

/// The array over the grid of a block that holds what `f` gives for each
/// voxel.
fn generate(resolution: u8, f: impl Fn(GridPoint) -> Rgba) -> GridArray<Rgba> {
    let grid = Grid::for_block(resolution);
    let mut colors = Vec::new();
    for i in 0..grid.volume() {
        colors.push(f(grid.cube_at(i)));
    }
    GridArray::from_elements(grid, colors).unwrap()
}

/// Fills a space as `f` says, cube by cube.
fn fill(space: &mut Space, universe: &Universe, f: impl Fn(GridPoint) -> Option<Block>) {
    let grid = space.grid();
    space.fill(grid, f, universe).unwrap();
}

#[test]
fn evaluate_opaque_atom_and_attributes() {
    let universe = Universe::new();
    let color = rgba(1.0, 2.0, 3.0, 1.0);
    let attributes = BlockAttributes {
        display_name: "hello world".to_owned(),
        selectable: false,
        solid: false,
        light_emission: Rgb::one(),
        ..BlockAttributes::default()
    };
    let block = Block::Atom(attributes.clone(), color);
    let e = block.evaluate(&universe).unwrap();
    assert_eq!(e.attributes, attributes);
    assert_eq!(e.color, block.color());
    assert!(e.voxels.is_none());
    assert_eq!(e.opaque, true);
    assert_eq!(e.visible, true);
}

#[test]
fn evaluate_transparent_atom() {
    let universe = Universe::new();
    let color = rgba(1.0, 2.0, 3.0, 0.5);
    let block = Block::Atom(BlockAttributes::default(), color);
    let e = block.evaluate(&universe).unwrap();
    assert_eq!(e.color, block.color());
    assert!(e.voxels.is_none());
    assert_eq!(e.opaque, false);
    assert_eq!(e.visible, true);
}

#[test]
fn evaluate_invisible_atom() {
    let universe = Universe::new();
    let block = Block::Atom(BlockAttributes::default(), Rgba::transparent());
    let e = block.evaluate(&universe).unwrap();
    assert_eq!(e.color, Rgba::transparent());
    assert!(e.voxels.is_none());
    assert_eq!(e.opaque, false);
    assert_eq!(e.visible, false);
}

#[test]
fn evaluate_voxels_checked_individually() {
    let resolution = 4;
    let mut universe = Universe::new();

    let attributes = BlockAttributes {
        display_name: "hello world".to_owned(),
        ..BlockAttributes::default()
    };
    let block = Block::builder()
        .attributes(attributes.clone())
        .voxels_fn(&mut universe, resolution, |point| {
            Block::from(rgba(point.x as f32, point.y as f32, point.z as f32, 1.0))
        })
        .unwrap()
        .build();

    let e = block.evaluate(&universe).unwrap();
    assert_eq!(e.attributes, attributes);
    assert_eq!(
        e.voxels,
        Some(generate(resolution, |point| {
            rgba(point.x as f32, point.y as f32, point.z as f32, 1.0)
        }))
    );
    assert_eq!(e.opaque, true);
    assert_eq!(e.visible, true);
}

#[test]
fn evaluate_transparent_voxels() {
    let mut universe = Universe::new();
    let resolution = 4;
    let block = Block::builder()
        .voxels_fn(&mut universe, resolution, |point| {
            Block::from(rgba(
                0.0,
                0.0,
                0.0,
                if point == GridPoint::new(0, 0, 0) {
                    0.5
                } else {
                    1.0
                },
            ))
        })
        .unwrap()
        .build();

    let e = block.evaluate(&universe).unwrap();
    assert_eq!(e.opaque, false);
    assert_eq!(e.visible, true);
}

#[test]
fn evaluate_voxels_not_filling_block() {
    let mut universe = Universe::new();
    let block = Block::builder()
        .voxels_fn(&mut universe, 4, |point| {
            Block::from(rgba(
                0.0,
                0.0,
                0.0,
                if point == GridPoint::new(1, 1, 1) {
                    1.0
                } else {
                    0.0
                },
            ))
        })
        .unwrap()
        .build();

    let e = block.evaluate(&universe).unwrap();
    assert_eq!(e.opaque, false);
    assert_eq!(e.visible, true);
}

/// The `offset` of a block of voxels is respected.
#[test]
fn recur_with_offset() {
    let resolution: i32 = 4;
    let offset = GridPoint::new(resolution, 0, 0);
    let mut universe = Universe::new();
    let mut space = Space::empty_positive(resolution * 2, resolution, resolution).unwrap();
    fill(&mut space, &universe, |point| {
        Some(Block::Atom(
            BlockAttributes::default(),
            rgba(point.x as f32, point.y as f32, point.z as f32, 1.0),
        ))
    });
    let space_ref = universe.insert_space(space);
    let block_at_offset = Block::Recur {
        attributes: BlockAttributes::default(),
        offset,
        resolution: resolution as u8,
        space: space_ref,
    };

    let e = block_at_offset.evaluate(&universe).unwrap();
    assert_eq!(
        e.voxels,
        Some(generate(resolution as u8, |point| {
            rgba(
                (point.x + offset.x) as f32,
                (point.y + offset.y) as f32,
                (point.z + offset.z) as f32,
                1.0,
            )
        }))
    );
}

#[test]
fn indirect_equivalence() {
    let resolution: i32 = 4;
    let mut universe = Universe::new();
    let mut space = Space::empty_positive(resolution, resolution, resolution).unwrap();
    fill(&mut space, &universe, |point| {
        Some(Block::from(rgba(
            point.x as f32,
            point.y as f32,
            point.z as f32,
            1.0,
        )))
    });
    let space_ref = universe.insert_space(space);
    let block = Block::builder()
        .voxels_ref(resolution as u8, space_ref)
        .build();
    let eval_bare = block.evaluate(&universe);
    let definition = BlockDef::new(block, &universe);
    let block_def_ref = universe.insert_block_def(definition);
    let eval_def = universe
        .block_def(&block_def_ref)
        .unwrap()
        .block()
        .evaluate(&universe);
    assert_eq!(eval_bare, eval_def);
    // The indirect block itself evaluates to the same.
    assert_eq!(Block::Indirect(block_def_ref).evaluate(&universe), eval_bare);
    assert!(eval_bare.is_ok());
}

#[test]
fn listen_atom() {
    let mut universe = Universe::new();
    let block = Block::from(Rgba::white());
    let sink = universe.new_sink();
    block.listen(&mut universe, sink.listener()).unwrap();
    assert_eq!(None, universe.sink_next(&sink));
    // No notifications are possible, so nothing more to test.
}

#[test]
fn listen_indirect_atom() {
    let mut universe = Universe::new();
    let definition = BlockDef::new(Block::from(Rgba::white()), &universe);
    let block_def_ref = universe.insert_block_def(definition);
    let indirect = Block::Indirect(block_def_ref);
    let sink = universe.new_sink();
    indirect.listen(&mut universe, sink.listener()).unwrap();
    assert_eq!(None, universe.sink_next(&sink));

    // Now mutate it and we should see a notification.
    let mut handle = universe.modify(&block_def_ref).unwrap();
    handle.set(Block::from(Rgba::black()));
    universe.commit(handle);
    assert!(universe.sink_next(&sink).is_some());
}

/// Double indirection is no case that is expected in routine use; it
/// exercises the generality of the notification mechanism.
#[test]
fn listen_indirect_double() {
    let mut universe = Universe::new();
    let definition1 = BlockDef::new(Block::from(Rgba::white()), &universe);
    let block_def_ref1 = universe.insert_block_def(definition1);
    let definition2 = BlockDef::new(Block::Indirect(block_def_ref1), &universe);
    let block_def_ref2 = universe.insert_block_def(definition2);
    let indirect2 = Block::Indirect(block_def_ref2);
    let sink = universe.new_sink();
    indirect2.listen(&mut universe, sink.listener()).unwrap();
    assert_eq!(None, universe.sink_next(&sink));

    // Now mutate the innermost block and we should see a notification.
    let mut handle = universe.modify(&block_def_ref1).unwrap();
    handle.set(Block::from(Rgba::black()));
    universe.commit(handle);
    assert!(universe.sink_next(&sink).is_some());

    // Remove block_def_ref1 from the contents of block_def_ref2...
    let mut handle = universe.modify(&block_def_ref2).unwrap();
    handle.set(Block::from(Rgba::black()));
    universe.commit(handle);
    assert!(universe.sink_next(&sink).is_some());
    assert!(universe.sink_next(&sink).is_none());
    // ...and then block_def_ref1's changes should NOT be forwarded.
    let mut handle = universe.modify(&block_def_ref1).unwrap();
    handle.set(Block::from(Rgba::white()));
    universe.commit(handle);
    assert!(universe.sink_next(&sink).is_none());
}

/// Changes to a space reach those who listen to a block made of it.
#[test]
fn listen_recur() {
    let mut universe = Universe::new();
    let space_ref = universe.insert_space(Space::empty_positive(1, 1, 1).unwrap());
    let block = Block::builder().voxels_ref(1, space_ref).build();
    let sink = universe.new_sink();
    block.listen(&mut universe, sink.listener()).unwrap();
    assert_eq!(None, universe.sink_next(&sink));

    // Now mutate the space and we should see a notification.
    let mut space = universe.take_space(&space_ref).unwrap();
    space
        .set(
            GridPoint::new(0, 0, 0),
            &Block::from(rgba(0.1, 0.2, 0.3, 0.4)),
            &universe,
        )
        .unwrap();
    universe.restore_space(&space_ref, space).unwrap();
    assert!(universe.sink_next(&sink).is_some());
    assert!(universe.sink_next(&sink).is_none());

    // A step of light propagation changes light only, and is not passed on.
    let mut space = universe.take_space(&space_ref).unwrap();
    space
        .set(GridPoint::new(0, 0, 0), &Block::from(Rgba::black()), &universe)
        .unwrap();
    universe.restore_space(&space_ref, space).unwrap();
    assert!(universe.sink_next(&sink).is_some());
    let mut space = universe.take_space(&space_ref).unwrap();
    let info = space.update_lighting_from_queue();
    assert_eq!(info.light_update_count, 1);
    let changes = universe.restore_space(&space_ref, space).unwrap();
    assert_eq!(
        changes,
        vec![all_is_cubes::space::SpaceChange::Lighting(GridPoint::new(
            0, 0, 0
        ))]
    );
    assert!(universe.sink_next(&sink).is_none());
}

#[test]
fn builder_defaults() {
    let color = rgba(0.1, 0.2, 0.3, 0.4);
    assert_eq!(
        Block::builder().color(color).build(),
        Block::Atom(BlockAttributes::default(), color),
    );
}

#[test]
fn builder_every_field() {
    let color = rgba(0.1, 0.2, 0.3, 0.4);
    let light_emission = rgb(0.1, 3.0, 0.1);
    assert_eq!(
        Block::builder()
            .display_name("hello world")
            .solid(false)
            .color(color)
            .selectable(false)
            .light_emission(light_emission)
            .build(),
        Block::Atom(
            BlockAttributes {
                display_name: "hello world".into(),
                solid: false,
                selectable: false,
                light_emission
            },
            color
        ),
    );
}

#[test]
fn builder_voxels_from_space() {
    let mut universe = Universe::new();
    let space_ref = universe.insert_space(Space::empty_positive(1, 1, 1).unwrap());

    assert_eq!(
        Block::builder()
            .display_name("hello world")
            .voxels_ref(2, space_ref)
            .build(),
        Block::Recur {
            attributes: BlockAttributes {
                display_name: "hello world".into(),
                ..BlockAttributes::default()
            },
            offset: GridPoint::origin(),
            resolution: 2, // not same as space size
            space: space_ref
        },
    );
}

#[test]
fn builder_offset_and_named_definition() {
    let mut universe = Universe::new();
    let space_ref = universe.insert_space(Space::empty_positive(4, 4, 4).unwrap());
    let builder = Block::builder()
        .voxels_ref(2, space_ref)
        .offset(GridPoint::new(2, 0, 2));
    assert_eq!(
        builder.build(),
        Block::Recur {
            attributes: BlockAttributes::default(),
            offset: GridPoint::new(2, 0, 2),
            resolution: 2,
            space: space_ref
        }
    );

    let named = Block::builder()
        .color(Rgba::white())
        .into_named_definition(&mut universe, "white")
        .unwrap();
    let r = match named {
        Block::Indirect(r) => r,
        _ => panic!("not an indirect block"),
    };
    assert_eq!(
        universe.block_def(&r).unwrap().block(),
        &Block::from(Rgba::white())
    );
    assert_eq!(
        Block::builder()
            .color(Rgba::black())
            .into_named_definition(&mut universe, "white"),
        Err(all_is_cubes::universe::InsertError::AlreadyExists)
    );
    assert!(Block::builder()
        .color(Rgba::black())
        .into_named_definition(&mut universe, "black")
        .is_ok());
}

#[test]
fn air_evaluates_to_air_evaluated() {
    let universe = Universe::new();
    assert_eq!(
        Ok(all_is_cubes::block::air_evaluated()),
        all_is_cubes::block::air().evaluate(&universe)
    );
}

#[test]
fn evaluate_fully_opaque_and_fully_transparent_atoms() {
    let universe = Universe::new();
    for alpha in [65536, 65537, 1 << 20, i32::MAX] {
        let e = Block::from(Rgba::new(5, 6, 7, alpha))
            .evaluate(&universe)
            .unwrap();
        assert!(e.visible && e.opaque);
    }
    for alpha in [0, -1, -65536, i32::MIN] {
        let e = Block::from(Rgba::new(5, 6, 7, alpha))
            .evaluate(&universe)
            .unwrap();
        assert!(!e.visible && !e.opaque);
    }
    for alpha in [1, 32768, 65535] {
        let e = Block::from(Rgba::new(5, 6, 7, alpha))
            .evaluate(&universe)
            .unwrap();
        assert!(e.visible && !e.opaque);
    }
}

#[test]
fn evaluate_voxels_uses_placeholder_color() {
    let mut universe = Universe::new();
    let space_ref = universe.insert_space(Space::empty_positive(2, 2, 2).unwrap());
    let block = Block::builder().voxels_ref(2, space_ref).build();
    let e: EvaluatedBlock = block.evaluate(&universe).unwrap();
    assert_eq!(e.color, Rgba::new(32768, 32768, 32768, 65536));
    assert_eq!(e.color, all_is_cubes::block::voxels_color());
    // All voxels are air: nothing to see, and not opaque.
    assert!(!e.visible);
    assert!(!e.opaque);
}

#[test]
fn evaluate_resolution_zero_is_read_as_one() {
    let mut universe = Universe::new();
    let mut space = Space::empty_positive(1, 1, 1).unwrap();
    space
        .set(GridPoint::origin(), &Block::from(Rgba::white()), &universe)
        .unwrap();
    let space_ref = universe.insert_space(space);
    let e = Block::builder()
        .voxels_ref(0, space_ref)
        .build()
        .evaluate(&universe)
        .unwrap();
    assert_eq!(e.voxels, Some(generate(1, |_| Rgba::white())));
    assert!(e.opaque);
}

#[test]
fn evaluate_voxels_outside_of_the_space_are_transparent() {
    let mut universe = Universe::new();
    let mut space = Space::empty_positive(1, 1, 1).unwrap();
    space
        .set(GridPoint::origin(), &Block::from(Rgba::white()), &universe)
        .unwrap();
    let space_ref = universe.insert_space(space);
    let block = Block::Recur {
        attributes: BlockAttributes::default(),
        offset: GridPoint::new(i32::MAX, i32::MIN, 0),
        resolution: 255,
        space: space_ref,
    };
    let e = block.evaluate(&universe).unwrap();
    assert!(!e.visible);
    assert!(!e.opaque);
    let block = Block::builder().voxels_ref(2, space_ref).build();
    let e = block.evaluate(&universe).unwrap();
    assert_eq!(
        e.voxels,
        Some(generate(2, |p| if p == GridPoint::origin() {
            Rgba::white()
        } else {
            Rgba::transparent()
        }))
    );
    assert!(e.visible);
    assert!(!e.opaque);
}

#[test]
fn evaluate_fails_as_the_reference_does() {
    let mut universe = Universe::new();
    let space_ref = universe.insert_space(Space::empty_positive(1, 1, 1).unwrap());
    let on_space = Block::builder().voxels_ref(1, space_ref).build();
    let definition = BlockDef::new(on_space.clone(), &universe);
    let def_ref = universe.insert_block_def(definition);
    let indirect = Block::Indirect(def_ref);
    assert!(indirect.evaluate(&universe).is_ok());

    // Held exclusively elsewhere.
    let space = universe.take_space(&space_ref).unwrap();
    assert_eq!(on_space.evaluate(&universe), Err(RefError::InUse));
    assert_eq!(indirect.evaluate(&universe), Err(RefError::InUse));
    assert_eq!(universe.take_space(&space_ref).err(), Some(RefError::InUse));
    universe.restore_space(&space_ref, space).unwrap();
    assert!(indirect.evaluate(&universe).is_ok());

    let handle = universe.modify(&def_ref).unwrap();
    assert_eq!(indirect.evaluate(&universe), Err(RefError::InUse));
    assert_eq!(universe.modify(&def_ref).err(), Some(RefError::InUse));
    let sink = universe.new_sink();
    assert_eq!(
        indirect.listen(&mut universe, sink.listener()),
        Err(RefError::InUse)
    );
    assert_eq!(universe.commit(handle), Commit::Complete);
    assert!(indirect.evaluate(&universe).is_ok());

    // Gone.
    universe.remove_space(&space_ref).unwrap();
    assert_eq!(on_space.evaluate(&universe), Err(RefError::Gone));
    assert_eq!(indirect.evaluate(&universe), Err(RefError::Gone));
    assert_eq!(
        on_space.listen(&mut universe, sink.listener()),
        Err(RefError::Gone)
    );
    universe.remove_block_def(&def_ref).unwrap();
    assert_eq!(indirect.evaluate(&universe), Err(RefError::Gone));
    assert_eq!(universe.remove_block_def(&def_ref), Err(RefError::Gone));
    assert_eq!(
        Block::Indirect(all_is_cubes::universe::BlockDefRef { index: 77 }).evaluate(&universe),
        Err(RefError::Gone)
    );
}

#[test]
fn evaluate_of_a_circle_of_definitions_is_in_use() {
    let mut universe = Universe::new();
    let a = universe.insert_block_def(BlockDef::new(Block::from(Rgba::white()), &universe));
    let b = universe.insert_block_def(BlockDef::new(Block::Indirect(a), &universe));
    let mut handle = universe.modify(&a).unwrap();
    handle.set(Block::Indirect(b));
    assert_eq!(universe.commit(handle), Commit::Complete);
    assert_eq!(Block::Indirect(a).evaluate(&universe), Err(RefError::InUse));
    assert_eq!(Block::Indirect(b).evaluate(&universe), Err(RefError::InUse));

    // A definition that refers to itself cannot subscribe to itself while it
    // is held: the commit is degraded.
    let mut handle = universe.modify(&a).unwrap();
    handle.set(Block::Indirect(a));
    assert_eq!(universe.commit(handle), Commit::Degraded(RefError::InUse));
    assert_eq!(Block::Indirect(a).evaluate(&universe), Err(RefError::InUse));

    // A chain that is as long as the universe has definitions is followed.
    let mut handle = universe.modify(&a).unwrap();
    handle.set(Block::from(Rgba::black()));
    universe.commit(handle);
    assert_eq!(
        Block::Indirect(b).evaluate(&universe),
        Block::from(Rgba::black()).evaluate(&universe)
    );
}

#[test]
fn space_to_blocks_makes_a_miniature() {
    let mut universe = Universe::new();
    let grid = Grid::new(GridPoint::new(-3, 0, 1), GridPoint::new(7, 2, 4)).unwrap();
    let space_ref = universe.insert_space(Space::empty(grid));
    let attributes = BlockAttributes {
        display_name: "mini".to_owned(),
        ..BlockAttributes::default()
    };
    let miniature =
        all_is_cubes::block::space_to_blocks(2, attributes.clone(), space_ref, &universe).unwrap();
    // From floor(-3 / 2) = -2 to ceil(4 / 2) = 2, and so on.
    assert_eq!(miniature.grid().lower_bounds(), GridPoint::new(-2, 0, 0));
    assert_eq!(miniature.grid().upper_bounds(), GridPoint::new(2, 1, 3));
    assert_eq!(
        miniature.get_block(GridPoint::new(-2, 0, 2)),
        &Block::Recur {
            attributes,
            offset: GridPoint::new(-4, 0, 4),
            resolution: 2,
            space: space_ref
        }
    );
    // A resolution of zero is read as one.
    let same_size =
        all_is_cubes::block::space_to_blocks(0, BlockAttributes::default(), space_ref, &universe)
            .unwrap();
    assert_eq!(same_size.grid(), grid);
    assert_eq!(
        same_size.get_block(GridPoint::new(3, 1, 4)),
        &Block::Recur {
            attributes: BlockAttributes::default(),
            offset: GridPoint::new(3, 1, 4),
            resolution: 0,
            space: space_ref
        }
    );
    universe.remove_space(&space_ref).unwrap();
    assert_eq!(
        all_is_cubes::block::space_to_blocks(2, BlockAttributes::default(), space_ref, &universe)
            .err(),
        Some(RefError::Gone)
    );
}

#[test]
fn blocks_compare_by_what_they_hold() {
    let a = Block::from(rgba(0.5, 0.5, 0.5, 1.0));
    let b = Block::from(Rgba::new(32768, 32768, 32768, 65536));
    assert!(a.same_as(&b));
    assert!(!a.same_as(&Block::from(Rgba::white())));
    assert!(!a.same_as(&all_is_cubes::block::air()));
    let rgb_block = Block::from(Rgb::one());
    assert!(rgb_block.same_as(&Block::from(Rgba::white())));
    assert_eq!(a.clone(), b);
}

#[test]
fn reevaluate_follows_what_a_block_refers_to() {
    let mut universe = Universe::new();
    let definition = BlockDef::new(Block::from(Rgba::transparent()), &universe);
    let r = universe.insert_block_def(definition);
    let mut space = Space::empty_positive(1, 1, 1).unwrap();
    let cube = GridPoint::origin();
    assert_eq!(space.set(cube, &Block::Indirect(r), &universe), Ok(true));
    assert!(!space.get_evaluated(cube).opaque);
    space.update_lighting_from_queue();
    space.take_changes();

    // Nothing has changed yet.
    assert_eq!(space.reevaluate(cube, &universe), Ok(false));
    assert!(space.take_changes().is_empty());

    let mut handle = universe.modify(&r).unwrap();
    *handle.block_mut() = Block::from(Rgba::black());
    // While the definition is held, its blocks cannot be evaluated.
    assert_eq!(
        space.reevaluate(cube, &universe),
        Err(all_is_cubes::space::SetCubeError::BlockDataAccess(
            RefError::InUse
        ))
    );
    universe.commit(handle);
    assert!(!space.get_evaluated(cube).opaque);
    assert_eq!(space.reevaluate(cube, &universe), Ok(true));
    assert!(space.get_evaluated(cube).opaque);
    assert_eq!(space.get_block(cube), &Block::Indirect(r));
    assert_eq!(
        space.take_changes(),
        vec![all_is_cubes::space::SpaceChange::BlockValue(cube)]
    );
    // The cube is to be relit.
    let info = space.update_lighting_from_queue();
    assert_eq!(info.light_update_count, 1);
    assert_eq!(
        space.get_lighting(cube),
        all_is_cubes::light::PackedLight { r: 0, g: 0, b: 0 }
    );
    assert_eq!(
        space.reevaluate(GridPoint::new(0, 0, 1), &universe),
        Err(all_is_cubes::space::SetCubeError::OutOfBounds(
            GridPoint::new(0, 0, 1)
        ))
    );
}

#[test]
fn filling_sets_light_back() {
    let universe = Universe::new();
    let mut space = Space::empty_positive(1, 1, 1).unwrap();
    let cube = GridPoint::origin();
    space.set(cube, &Block::from(Rgba::black()), &universe).unwrap();
    space.update_lighting_from_queue();
    let dark = all_is_cubes::light::PackedLight { r: 0, g: 0, b: 0 };
    assert_eq!(space.get_lighting(cube), dark);
    // Setting a cube leaves its light as it is until it is recomputed.
    space.set(cube, &Block::from(Rgba::white()), &universe).unwrap();
    assert_eq!(space.get_lighting(cube), dark);
    // Filling puts it back to what it is before it is computed.
    assert_eq!(
        space.fill_cube(cube, &Block::from(Rgba::white()), &universe),
        Ok(false)
    );
    assert_eq!(space.get_lighting(cube), dark);
    assert_eq!(
        space.fill_cube(cube, &Block::from(Rgba::black()), &universe),
        Ok(true)
    );
    assert_eq!(
        space.get_lighting(cube),
        all_is_cubes::light::PackedLight::initial()
    );
}
