//! Procedural generation of blocks.

use crate::block::air;
use crate::block::Block;
use crate::block::BlockAttributes;
use crate::block::BlockAttributesView;
use crate::block::BlockView;
use crate::block::Resolution;
use crate::builder::block_choices;
use crate::color::Rgba;
use crate::grid::Grid;
use crate::grid::GridPoint;
use crate::space::Space;
use crate::space::SpaceView;
use crate::universe::Slot;
use crate::universe::SpaceRef;
use crate::universe::Universe;
use crate::universe::UniverseView;
use vstd::arithmetic::div_mod::lemma_div_is_ordered;
use vstd::arithmetic::div_mod::lemma_div_multiples_vanish;
use vstd::prelude::*;
use vstd::string::StringExecFns;

verus! {

/// The character of a decimal digit.
pub open spec fn digit_char(digit: nat) -> char {
    if digit == 0 {
        '0'
    } else if digit == 1 {
        '1'
    } else if digit == 2 {
        '2'
    } else if digit == 3 {
        '3'
    } else if digit == 4 {
        '4'
    } else if digit == 5 {
        '5'
    } else if digit == 6 {
        '6'
    } else if digit == 7 {
        '7'
    } else if digit == 8 {
        '8'
    } else {
        '9'
    }
}

/// The decimal numeral of a number, without leading zeros.
pub open spec fn decimal_digits(n: nat) -> Seq<char>
    decreases n,
{
    if n < 10 {
        seq![digit_char(n)]
    } else {
        decimal_digits(n / 10).push(digit_char(n % 10))
    }
}

fn digit(d: usize) -> (numeral: &'static str)
    requires
        d < 10,
    ensures
        numeral@ == seq![digit_char(d as nat)],
{
    proof {
        reveal_strlit("0");
        reveal_strlit("1");
        reveal_strlit("2");
        reveal_strlit("3");
        reveal_strlit("4");
        reveal_strlit("5");
        reveal_strlit("6");
        reveal_strlit("7");
        reveal_strlit("8");
        reveal_strlit("9");
    }
    let numeral = if d == 0 {
        "0"
    } else if d == 1 {
        "1"
    } else if d == 2 {
        "2"
    } else if d == 3 {
        "3"
    } else if d == 4 {
        "4"
    } else if d == 5 {
        "5"
    } else if d == 6 {
        "6"
    } else if d == 7 {
        "7"
    } else if d == 8 {
        "8"
    } else {
        "9"
    };
    assert(numeral@ =~= seq![digit_char(d as nat)]);
    numeral
}

/// The decimal numeral of a number.
pub fn decimal(n: usize) -> (numeral: String)
    ensures
        numeral@ == decimal_digits(n as nat),
    decreases n,
{
    if n < 10 {
        digit(n).to_owned()
    } else {
        let mut numeral = decimal(n / 10);
        numeral.append(digit(n % 10));
        assert(numeral@ =~= decimal_digits(n as nat));
        numeral
    }
}

/// The brightness of the block at place `i` of `count` blocks that run from
/// black to white, in colour units: half way where there is one block only.
pub open spec fn luminance(i: int, count: int) -> int {
    if count > 1 {
        i * 65536 / (count - 1)
    } else {
        32768
    }
}

/// Some atoms that can be told apart, for trying things out: `count` opaque
/// blocks in shades of grey from black to white, each named by its place in
/// decimal.
pub fn make_some_blocks(count: usize) -> (blocks: Vec<Block>)
    ensures
        blocks@.len() == count,
        forall|i: int|
            0 <= i < count ==> (#[trigger] blocks@[i])@ == BlockView::Atom(
                BlockAttributesView {
                    display_name: decimal_digits(i as nat),
                    ..BlockAttributesView::default_spec()
                },
                Rgba {
                    r: luminance(i, count as int) as i32,
                    g: luminance(i, count as int) as i32,
                    b: luminance(i, count as int) as i32,
                    a: 65536,
                },
            ),
{
    let mut blocks: Vec<Block> = Vec::new();
    let mut i: usize = 0;
    while i < count
        invariant
            i <= count,
            blocks@.len() == i,
            forall|j: int|
                0 <= j < i ==> (#[trigger] blocks@[j])@ == BlockView::Atom(
                    BlockAttributesView {
                        display_name: decimal_digits(j as nat),
                        ..BlockAttributesView::default_spec()
                    },
                    Rgba {
                        r: luminance(j, count as int) as i32,
                        g: luminance(j, count as int) as i32,
                        b: luminance(j, count as int) as i32,
                        a: 65536,
                    },
                ),
        decreases count - i,
    {
        let level: i32 = if count > 1 {
            proof {
                let last = (count - 1) as int;
                assert(0 <= i * 65536 <= last * 65536) by (nonlinear_arith)
                    requires
                        0 <= i <= last,
                ;
                lemma_div_is_ordered(i * 65536, last * 65536, last);
                lemma_div_multiples_vanish(65536, last);
                assert(last * 65536 == 65536 * last) by (nonlinear_arith);
                assert(0 <= (i * 65536) / last) by (nonlinear_arith)
                    requires
                        0 <= i * 65536,
                        last > 0,
                ;
                assert(i * 65536 <= 0xffff_ffff_ffff_ffff * 65536) by (nonlinear_arith)
                    requires
                        i <= 0xffff_ffff_ffff_ffff,
                ;
            }
            ((i as u128 * 65536) / ((count - 1) as u128)) as i32
        } else {
            32768
        };
        let mut attributes = BlockAttributes::default();
        attributes.display_name = decimal(i);
        blocks.push(Block::Atom(attributes, Rgba::new(level, level, level, 65536)));
        i += 1;
    }
    blocks
}

/// A generator of blocks of voxels, which stores their spaces in a universe.
pub struct BlockGen<'a> {
    pub universe: &'a mut Universe,
    /// The edge length of the blocks that are made, in voxels.
    pub size: Resolution,
}

/// Whether a block of voxels was generated from `before` to `after` with
/// the result `block`, where `function` gave `blocks` for the voxels in
/// the row-major order of the block's grid.
///
/// The universe has one more space, which holds what putting the blocks
/// into a newly made space leads to, a block that cannot be put being
/// passed over; and `block` shows that space from its origin on.
pub open spec fn generated<F: Fn(Resolution, GridPoint) -> Block>(
    before: UniverseView,
    after: UniverseView,
    size: Resolution,
    attributes: BlockAttributesView,
    block: BlockView,
    function: F,
    blocks: Seq<Block>,
) -> bool {
    let grid = Grid::block_grid(size);
    &&& blocks.len() == grid.cubes()
    &&& forall|i: int|
        0 <= i < blocks.len() ==> call_ensures(function, (size, grid.point_at(i)), #[trigger] blocks[i])
    &&& after == (UniverseView {
        spaces: before.spaces.push(
            Slot::Present(
                SpaceView::fresh(grid).filled_first(
                    grid,
                    block_choices(blocks),
                    before,
                    grid.cubes(),
                ),
            ),
        ),
        ..before
    })
    &&& block == (BlockView::Recur {
        attributes,
        offset: GridPoint { x: 0, y: 0, z: 0 },
        resolution: size,
        space: SpaceRef { index: before.spaces.len() as usize },
    })
}

impl<'a> BlockGen<'a> {
    /// Makes a block of voxels whose voxels are what `function` gives for
    /// the generator's size and each place within the block.
    pub fn block_from_function<F: Fn(Resolution, GridPoint) -> Block>(
        &mut self,
        attributes: BlockAttributes,
        function: F,
    ) -> (block: Block)
        requires
            old(self).universe.wf(),
            forall|p: GridPoint|
                Grid::block_grid(old(self).size).contains(p) ==> call_requires(
                    function,
                    (old(self).size, p),
                ),
        ensures
            final(self).universe.wf(),
            final(self).size == old(self).size,
            exists|blocks: Seq<Block>| #[trigger]
                generated(
                    old(self).universe@,
                    final(self).universe@,
                    old(self).size,
                    attributes@,
                    block@,
                    function,
                    blocks,
                ),
    {
        let size = self.size;
        let grid = Grid::for_block(size);
        let mut space = Space::empty(grid);
        let ghost mut blocks: Seq<Block> = Seq::empty();
        let ghost before = self.universe@;
        let volume = grid.volume();
        let mut i: usize = 0;
        while i < volume
            invariant
                space.wf(),
                grid.wf(),
                grid == Grid::block_grid(size),
                self.universe.wf(),
                self.universe@ == before,
                self.size == size,
                volume == grid.cubes(),
                i <= volume,
                space@.grid == grid,
                forall|p: GridPoint| grid.contains(p) ==> call_requires(function, (size, p)),
                blocks.len() == i,
                forall|j: int|
                    0 <= j < i ==> call_ensures(
                        function,
                        (size, grid.point_at(j)),
                        #[trigger] blocks[j],
                    ),
                space@ == SpaceView::fresh(grid).filled_first(
                    grid,
                    block_choices(blocks),
                    before,
                    i as int,
                ),
            decreases volume - i,
        {
            let cube = grid.cube_at(i);
            let block = function(size, cube);
            let ghost earlier = blocks;
            proof {
                blocks = blocks.push(block);
                crate::space::lemma_filled_first_prefix(
                    SpaceView::fresh(grid),
                    grid,
                    block_choices(earlier),
                    block_choices(blocks),
                    before,
                    i as int,
                );
            }
            let _ = space.fill_cube(cube, &block, &*self.universe);
            i += 1;
        }
        let r = self.universe.insert_space(space);
        let block = Block::Recur { attributes, offset: GridPoint::origin(), resolution: size, space: r };
        assert(generated(before, self.universe@, size, attributes@, block@, function, blocks));
        block
    }
}

/// The blocks that have a part in a landscape.
#[derive(Debug, PartialEq, Eq)]
pub struct LandscapeBlocks {
    pub air: Block,
    pub grass: Block,
    pub dirt: Block,
    pub stone: Block,
    pub trunk: Block,
    pub leaves: Block,
}

/// An opaque atom of the given colour and name that is ordinary otherwise.
pub open spec fn named_atom(r: i32, g: i32, b: i32, name: Seq<char>) -> BlockView {
    BlockView::Atom(
        BlockAttributesView { display_name: name, ..BlockAttributesView::default_spec() },
        Rgba { r, g, b, a: 65536 },
    )
}

/// The plain grass of a landscape.
pub open spec fn grass_atom() -> BlockView {
    named_atom(19661, 52429, 19661, "Grass"@)
}

/// The plain dirt of a landscape.
pub open spec fn dirt_atom() -> BlockView {
    named_atom(26214, 13107, 13107, "Dirt"@)
}

/// The voxels of a block of grass of the given size: grass in the topmost
/// layer along `y`, and dirt below it.
pub open spec fn grass_voxels(size: Resolution) -> Seq<Option<BlockView>> {
    Seq::new(
        Grid::block_grid(size).cubes() as nat,
        |i: int|
            Some(
                if Grid::block_grid(size).point_at(i).y >= size - 1 {
                    grass_atom()
                } else {
                    dirt_atom()
                },
            ),
    )
}

fn color_and_name(r: i32, g: i32, b: i32, name: &str) -> (block: Block)
    ensures
        block@ == named_atom(r, g, b, name@),
{
    let mut attributes = BlockAttributes::default();
    attributes.display_name = name.to_owned();
    Block::Atom(attributes, Rgba::new(r, g, b, 65536))
}

impl Default for LandscapeBlocks {
    /// A bland set of landscape blocks, each an atom of one colour.
    fn default() -> (blocks: LandscapeBlocks)
        ensures
            blocks.air@ == crate::space::air_block_view(),
            blocks.grass@ == grass_atom(),
            blocks.dirt@ == dirt_atom(),
            blocks.stone@ == named_atom(32768, 32768, 32768, "Stone"@),
            blocks.trunk@ == named_atom(39322, 19661, 39322, "Wood"@),
            blocks.leaves@ == named_atom(0, 45875, 13107, "Leaves"@),
    {
        LandscapeBlocks {
            air: air(),
            grass: color_and_name(19661, 52429, 19661, "Grass"),
            dirt: color_and_name(26214, 13107, 13107, "Dirt"),
            stone: color_and_name(32768, 32768, 32768, "Stone"),
            trunk: color_and_name(39322, 19661, 39322, "Wood"),
            leaves: color_and_name(0, 45875, 13107, "Leaves"),
        }
    }
}

impl LandscapeBlocks {
    /// The landscape blocks in which grass is a block of voxels, grass on
    /// top of dirt, whose space is stored in the generator's universe. The
    /// other blocks are the bland ones.
    pub fn new(ctx: &mut BlockGen) -> (blocks: LandscapeBlocks)
        requires
            old(ctx).universe.wf(),
        ensures
            final(ctx).universe.wf(),
            final(ctx).size == old(ctx).size,
            blocks.air@ == crate::space::air_block_view(),
            blocks.dirt@ == dirt_atom(),
            blocks.stone@ == named_atom(32768, 32768, 32768, "Stone"@),
            blocks.trunk@ == named_atom(39322, 19661, 39322, "Wood"@),
            blocks.leaves@ == named_atom(0, 45875, 13107, "Leaves"@),
            blocks.grass@ == (BlockView::Recur {
                attributes: BlockAttributesView {
                    display_name: "Grass"@,
                    ..BlockAttributesView::default_spec()
                },
                offset: GridPoint { x: 0, y: 0, z: 0 },
                resolution: old(ctx).size,
                space: SpaceRef { index: old(ctx).universe@.spaces.len() as usize },
            }),
            final(ctx).universe@ == (UniverseView {
                spaces: old(ctx).universe@.spaces.push(
                    Slot::Present(
                        SpaceView::fresh(Grid::block_grid(old(ctx).size)).filled_first(
                            Grid::block_grid(old(ctx).size),
                            grass_voxels(old(ctx).size),
                            old(ctx).universe@,
                            Grid::block_grid(old(ctx).size).cubes(),
                        ),
                    ),
                ),
                ..old(ctx).universe@
            }),
    {
        let mut result = LandscapeBlocks::default();
        let grass_color = result.grass.clone();
        let dirt_color = result.dirt.clone();
        let ghost size = ctx.size;
        let ghost before = ctx.universe@;
        let mut attributes = BlockAttributes::default();
        attributes.display_name = "Grass".to_owned();
        let layered = |size: Resolution, point: GridPoint| -> (block: Block)
            ensures
                block@ == (if point.y >= size - 1 {
                    grass_atom()
                } else {
                    dirt_atom()
                }),
            {
                if point.y >= size as i32 - 1 {
                    grass_color.clone()
                } else {
                    dirt_color.clone()
                }
            };
        let grass = ctx.block_from_function(attributes, layered);
        proof {
            let grid = Grid::block_grid(size);
            let blocks = choose|blocks: Seq<Block>| #[trigger]
                generated(before, ctx.universe@, size, attributes@, grass@, layered, blocks);
            assert(block_choices(blocks) =~= grass_voxels(size));
        }
        result.grass = grass;
        result
    }
}

/// The blocks of the demonstration content.
#[derive(Clone, Copy, Debug, PartialEq, Eq, Hash, Structural)]
pub enum DemoBlocks {
    Lamp,
    Lamppost,
    Road,
    Curb,
    CurbCorner,
}

impl DemoBlocks {
    /// The prefix of the names under which the blocks are stored.
    pub fn namespace() -> (namespace: &'static str)
        ensures
            namespace@ == "all-is-cubes/demo-blocks"@,
    {
        "all-is-cubes/demo-blocks"
    }

    /// The name of the block within the namespace, in lower case with
    /// hyphens between words.
    pub fn name(&self) -> (name: &'static str)
        ensures
            name@ == (match *self {
                DemoBlocks::Lamp => "lamp"@,
                DemoBlocks::Lamppost => "lamppost"@,
                DemoBlocks::Road => "road"@,
                DemoBlocks::Curb => "curb"@,
                DemoBlocks::CurbCorner => "curb-corner"@,
            }),
    {
        match self {
            DemoBlocks::Lamp => "lamp",
            DemoBlocks::Lamppost => "lamppost",
            DemoBlocks::Road => "road",
            DemoBlocks::Curb => "curb",
            DemoBlocks::CurbCorner => "curb-corner",
        }
    }
}

} // verus!
