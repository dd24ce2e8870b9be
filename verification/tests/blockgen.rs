use all_is_cubes::block::{Block, BlockAttributes};
use all_is_cubes::blockgen::{decimal, make_some_blocks, BlockGen, DemoBlocks, LandscapeBlocks};
use all_is_cubes::color::Rgba;
use all_is_cubes::grid::GridPoint;
use all_is_cubes::universe::Universe;

/// A colour component from its value in floating point.
fn c(value: f32) -> i32 {
    (value * 65536.0).round() as i32
}

fn rgba(r: f32, g: f32, b: f32, a: f32) -> Rgba {
    Rgba::new(c(r), c(g), c(b), c(a))
}

#[test]
fn make_some_blocks_0() {
    assert_eq!(Vec::<Block>::new(), make_some_blocks(0));
}

#[test]
fn make_some_blocks_1() {
    // should succeed even though the color range collapses range
    let blocks = make_some_blocks(1);
    assert_eq!(blocks[0].color(), rgba(0.5, 0.5, 0.5, 1.0));
}

#[test]
fn make_some_blocks_2() {
    let blocks = make_some_blocks(2);
    assert_eq!(blocks[0].color(), rgba(0.0, 0.0, 0.0, 1.0));
    assert_eq!(blocks[1].color(), rgba(1.0, 1.0, 1.0, 1.0));
}

#[test]
fn make_some_blocks_names_and_shades() {
    let blocks = make_some_blocks(12);
    assert_eq!(blocks.len(), 12);
    for (i, block) in blocks.iter().enumerate() {
        let level = (i as i32) * 65536 / 11;
        assert_eq!(
            block,
            &Block::Atom(
                BlockAttributes {
                    display_name: i.to_string(),
                    ..BlockAttributes::default()
                },
                Rgba::new(level, level, level, 65536)
            )
        );
    }
    // 5/11 of the way from black to white, rounded down.
    assert_eq!(blocks[5].color().red(), 29789);
}

#[test]
fn decimal_numerals() {
    for n in [0usize, 1, 9, 10, 11, 99, 100, 101, 12345, 1_000_000, usize::MAX] {
        assert_eq!(decimal(n), n.to_string());
    }
}

#[test]
fn block_from_function_fills_a_space() {
    let mut universe = Universe::new();
    let block = {
        let mut ctx = BlockGen {
            universe: &mut universe,
            size: 3,
        };
        ctx.block_from_function(BlockAttributes::default(), |size, point| {
            assert_eq!(size, 3);
            Block::from(Rgba::new(point.x, point.y, point.z, 65536))
        })
    };
    let e = block.evaluate(&universe).unwrap();
    let voxels = e.voxels.unwrap();
    assert_eq!(voxels.grid().volume(), 27);
    assert_eq!(
        voxels.get(GridPoint::new(2, 1, 0)),
        Some(&Rgba::new(2, 1, 0, 65536))
    );
    assert_eq!(voxels.get(GridPoint::new(3, 1, 0)), None);
    assert!(e.opaque);
}

#[test]
fn landscape_blocks_grass_is_layered() {
    let mut universe = Universe::new();
    let blocks = {
        let mut ctx = BlockGen {
            universe: &mut universe,
            size: 4,
        };
        LandscapeBlocks::new(&mut ctx)
    };
    let bland = LandscapeBlocks::default();
    assert_eq!(blocks.air, all_is_cubes::block::air());
    assert_eq!(blocks.dirt, bland.dirt);
    assert_eq!(blocks.stone, bland.stone);
    assert_eq!(blocks.trunk, bland.trunk);
    assert_eq!(blocks.leaves, bland.leaves);
    assert_eq!(bland.grass.color(), Rgba::new(19661, 52429, 19661, 65536));
    assert_eq!(bland.dirt.color(), rgba(0.4, 0.2, 0.2, 1.0));
    assert_eq!(bland.stone.color(), rgba(0.5, 0.5, 0.5, 1.0));
    assert_eq!(bland.trunk.color(), rgba(0.6, 0.3, 0.6, 1.0));
    assert_eq!(bland.leaves.color(), rgba(0.0, 0.7, 0.2, 1.0));

    let e = blocks.grass.evaluate(&universe).unwrap();
    assert_eq!(e.attributes.display_name, "Grass");
    let voxels = e.voxels.unwrap();
    for x in 0..4 {
        for z in 0..4 {
            for y in 0..3 {
                assert_eq!(
                    voxels.get(GridPoint::new(x, y, z)),
                    Some(&bland.dirt.color())
                );
            }
            assert_eq!(
                voxels.get(GridPoint::new(x, 3, z)),
                Some(&bland.grass.color())
            );
        }
    }
}

#[test]
fn demo_block_names() {
    assert_eq!(DemoBlocks::namespace(), "all-is-cubes/demo-blocks");
    assert_eq!(DemoBlocks::Lamp.name(), "lamp");
    assert_eq!(DemoBlocks::Lamppost.name(), "lamppost");
    assert_eq!(DemoBlocks::Road.name(), "road");
    assert_eq!(DemoBlocks::Curb.name(), "curb");
    assert_eq!(DemoBlocks::CurbCorner.name(), "curb-corner");
}
