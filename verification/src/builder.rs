//! Construction of blocks step by step.

use crate::block::Block;
use crate::block::BlockAttributes;
use crate::block::BlockAttributesView;
use crate::block::BlockDef;
use crate::block::BlockView;
use crate::block::Resolution;
use crate::color::Rgb;
use crate::color::Rgba;
use crate::grid::Grid;
use crate::grid::GridPoint;
use crate::space::SetCubeError;
use crate::space::Space;
use crate::space::SpaceView;
use crate::universe::BlockDefRef;
use crate::universe::InsertError;
use crate::universe::Slot;
use crate::universe::SpaceRef;
use crate::universe::Universe;
use crate::universe::UniverseView;
use vstd::prelude::*;

verus! {

/// The content of a builder that has neither a colour nor voxels yet. No
/// block can be built from it.
#[derive(Clone, Copy, Debug, Default, PartialEq, Eq, Hash, Structural)]
pub struct NeedsColorOrVoxels {}

/// The content of a builder of a block of voxels.
#[derive(Clone, Copy, Debug, PartialEq, Eq, Hash, Structural)]
pub struct BlockBuilderVoxels {
    pub space: SpaceRef,
    pub resolution: Resolution,
    pub offset: GridPoint,
}

/// Content of a [`BlockBuilder`] from which a block can be built without a
/// universe.
pub trait BuilderContentIndependent: Sized {
    /// The block that is built from this content and the given attributes.
    spec fn built(self, attributes: BlockAttributesView) -> BlockView;

    fn build_i(self, attributes: BlockAttributes) -> (block: Block)
        ensures
            block@ == self.built(attributes@),
    ;
}

/// Content of a [`BlockBuilder`] from which a block can be built with the
/// help of a universe, which may come to hold something new by it.
pub trait BuilderContentInUniverse: Sized {
    /// The block that is built from this content and the given attributes
    /// in the given universe.
    spec fn built_in(self, attributes: BlockAttributesView, universe: UniverseView) -> BlockView;

    /// The universe after a block was built.
    spec fn universe_after(
        self,
        attributes: BlockAttributesView,
        universe: UniverseView,
    ) -> UniverseView;

    fn build_u(self, attributes: BlockAttributes, universe: &mut Universe) -> (block: Block)
        requires
            old(universe).wf(),
        ensures
            final(universe).wf(),
            block@ == self.built_in(attributes@, old(universe)@),
            final(universe)@ == self.universe_after(attributes@, old(universe)@),
    ;
}

/// Whatever needs no universe can do with one, and leaves it as it is.
impl<T: BuilderContentIndependent> BuilderContentInUniverse for T {
    open spec fn built_in(self, attributes: BlockAttributesView, universe: UniverseView) -> BlockView {
        self.built(attributes)
    }

    open spec fn universe_after(
        self,
        attributes: BlockAttributesView,
        universe: UniverseView,
    ) -> UniverseView {
        universe
    }

    fn build_u(self, attributes: BlockAttributes, universe: &mut Universe) -> (block: Block) {
        self.build_i(attributes)
    }
}

/// A colour builds an atom.
impl BuilderContentIndependent for Rgba {
    open spec fn built(self, attributes: BlockAttributesView) -> BlockView {
        BlockView::Atom(attributes, self)
    }

    fn build_i(self, attributes: BlockAttributes) -> (block: Block) {
        Block::Atom(attributes, self)
    }
}

/// Voxels build a block of voxels.
impl BuilderContentIndependent for BlockBuilderVoxels {
    open spec fn built(self, attributes: BlockAttributesView) -> BlockView {
        BlockView::Recur {
            attributes,
            offset: self.offset,
            resolution: self.resolution,
            space: self.space,
        }
    }

    fn build_i(self, attributes: BlockAttributes) -> (block: Block) {
        Block::Recur {
            attributes,
            offset: self.offset,
            resolution: self.resolution,
            space: self.space,
        }
    }
}

/// A tool for making [`Block`] values conveniently. [`Block::builder`] makes
/// one.
#[derive(Debug, PartialEq, Eq)]
pub struct BlockBuilder<C> {
    attributes: BlockAttributes,
    content: C,
}

impl Default for BlockBuilder<NeedsColorOrVoxels> {
    /// A builder with default attributes and no content yet.
    fn default() -> (builder: Self)
        ensures
            builder.attributes_view() == BlockAttributesView::default_spec(),
            builder.content() == (NeedsColorOrVoxels {  }),
    {
        BlockBuilder { attributes: BlockAttributes::default(), content: NeedsColorOrVoxels {  } }
    }
}

impl Block {
    /// A builder with default attributes and no content yet.
    pub fn builder() -> (builder: BlockBuilder<NeedsColorOrVoxels>)
        ensures
            builder.attributes_view() == BlockAttributesView::default_spec(),
            builder.content() == (NeedsColorOrVoxels {  }),
    {
        BlockBuilder { attributes: BlockAttributes::default(), content: NeedsColorOrVoxels {  } }
    }
}

impl<C> BlockBuilder<C> {
    /// The attributes that a block built now would have.
    pub closed spec fn attributes_view(self) -> BlockAttributesView {
        self.attributes@
    }

    /// The content from which a block would be built now.
    pub closed spec fn content(self) -> C {
        self.content
    }

    /// Sets all attributes at once.
    pub fn attributes(self, value: BlockAttributes) -> (builder: Self)
        ensures
            builder.attributes_view() == value@,
            builder.content() == self.content(),
    {
        BlockBuilder { attributes: value, content: self.content }
    }

    /// Sets the name that is shown to players.
    pub fn display_name(self, value: &str) -> (builder: Self)
        ensures
            builder.attributes_view() == (BlockAttributesView {
                display_name: value@,
                ..self.attributes_view()
            }),
            builder.content() == self.content(),
    {
        let mut attributes = self.attributes;
        attributes.display_name = value.to_owned();
        BlockBuilder { attributes, content: self.content }
    }

    /// Sets whether a cursor can target the block.
    pub fn selectable(self, value: bool) -> (builder: Self)
        ensures
            builder.attributes_view() == (BlockAttributesView {
                selectable: value,
                ..self.attributes_view()
            }),
            builder.content() == self.content(),
    {
        let mut attributes = self.attributes;
        attributes.selectable = value;
        BlockBuilder { attributes, content: self.content }
    }

    /// Sets whether the block is an obstacle.
    pub fn solid(self, value: bool) -> (builder: Self)
        ensures
            builder.attributes_view() == (BlockAttributesView { solid: value, ..self.attributes_view() }),
            builder.content() == self.content(),
    {
        let mut attributes = self.attributes;
        attributes.solid = value;
        BlockBuilder { attributes, content: self.content }
    }

    /// Sets the light that the block emits.
    pub fn light_emission(self, value: Rgb) -> (builder: Self)
        ensures
            builder.attributes_view() == (BlockAttributesView {
                light_emission: value,
                ..self.attributes_view()
            }),
            builder.content() == self.content(),
    {
        let mut attributes = self.attributes;
        attributes.light_emission = value;
        BlockBuilder { attributes, content: self.content }
    }

    /// Sets the colour, for building an atom. This replaces any colour or
    /// voxels that were set before.
    pub fn color(self, color: Rgba) -> (builder: BlockBuilder<Rgba>)
        ensures
            builder.attributes_view() == self.attributes_view(),
            builder.content() == color,
    {
        BlockBuilder { attributes: self.attributes, content: color }
    }

    /// Sets the space of the voxels, for building a block of voxels from
    /// the origin of the space on. This replaces any colour or voxels that
    /// were set before.
    pub fn voxels_ref(self, resolution: Resolution, space: SpaceRef) -> (builder: BlockBuilder<
        BlockBuilderVoxels,
    >)
        ensures
            builder.attributes_view() == self.attributes_view(),
            builder.content() == (BlockBuilderVoxels {
                space,
                resolution,
                offset: GridPoint { x: 0, y: 0, z: 0 },
            }),
    {
        BlockBuilder {
            attributes: self.attributes,
            content: BlockBuilderVoxels { space, resolution, offset: GridPoint::origin() },
        }
    }

    /// Makes a space of the voxels of one block, fills it with what
    /// `function` gives for each voxel, stores it in the universe, and sets
    /// it as the space of the voxels.
    ///
    /// Where a block that `function` gave cannot be put, the universe stays
    /// as it was and the error is returned.
    pub fn voxels_fn<F: Fn(GridPoint) -> Block>(
        self,
        universe: &mut Universe,
        resolution: Resolution,
        function: F,
    ) -> (result: Result<BlockBuilder<BlockBuilderVoxels>, SetCubeError>)
        requires
            old(universe).wf(),
            forall|p: GridPoint|
                Grid::block_grid(resolution).contains(p) ==> call_requires(function, (p,)),
        ensures
            final(universe).wf(),
            exists|blocks: Seq<Block>| #[trigger]
                voxels_made(
                    old(universe)@,
                    final(universe)@,
                    self.attributes_view(),
                    result,
                    resolution,
                    function,
                    blocks,
                ),
    {
        let grid = Grid::for_block(resolution);
        let mut space = Space::empty(grid);
        let ghost mut blocks: Seq<Block> = Seq::empty();
        let volume = grid.volume();
        let mut i: usize = 0;
        while i < volume
            invariant
                space.wf(),
                grid.wf(),
                grid == Grid::block_grid(resolution),
                universe.wf(),
                *universe == *old(universe),
                volume == grid.cubes(),
                i <= volume,
                space@.grid == grid,
                forall|p: GridPoint| grid.contains(p) ==> call_requires(function, (p,)),
                blocks.len() == i,
                forall|j: int|
                    0 <= j < i ==> call_ensures(function, (grid.point_at(j),), #[trigger] blocks[j]),
                space@ == SpaceView::fresh(grid).filled_first(
                    grid,
                    block_choices(blocks),
                    universe@,
                    i as int,
                ),
                forall|j: int|
                    0 <= j < i ==> SpaceView::fresh(grid).filled_first(
                        grid,
                        block_choices(blocks),
                        universe@,
                        j,
                    ).put_error(grid.point_at(j), (#[trigger] blocks[j])@, universe@) is None,
            decreases volume - i,
        {
            let cube = grid.cube_at(i);
            let block = function(cube);
            let ghost earlier = blocks;
            proof {
                blocks = blocks.push(block);
                assert forall|j: int| 0 <= j <= i implies SpaceView::fresh(grid).filled_first(
                    grid,
                    block_choices(blocks),
                    universe@,
                    j,
                ) == SpaceView::fresh(grid).filled_first(
                    grid,
                    block_choices(earlier),
                    universe@,
                    j,
                ) by {
                    crate::space::lemma_filled_first_prefix(
                        SpaceView::fresh(grid),
                        grid,
                        block_choices(earlier),
                        block_choices(blocks),
                        universe@,
                        j,
                    );
                }
            }
            match space.fill_cube(cube, &block, universe) {
                Ok(_) => {},
                Err(error) => {
                    assert(voxels_made(
                        old(universe)@,
                        universe@,
                        self.attributes_view(),
                        Err::<BlockBuilder<BlockBuilderVoxels>, SetCubeError>(error),
                        resolution,
                        function,
                        blocks,
                    ));
                    return Err(error);
                },
            }
            i += 1;
        }
        let ghost made = space@;
        let r = universe.insert_space(space);
        let builder = self.voxels_ref(resolution, r);
        assert(voxels_made(
            old(universe)@,
            universe@,
            self.attributes_view(),
            Ok::<BlockBuilder<BlockBuilderVoxels>, SetCubeError>(builder),
            resolution,
            function,
            blocks,
        ));
        Ok(builder)
    }

    /// The block that the builder has come to.
    pub fn build(self) -> (block: Block) where C: BuilderContentIndependent
        ensures
            block@ == self.content().built(self.attributes_view()),
    {
        self.content.build_i(self.attributes)
    }

    /// Builds the block, stores it as a definition of the given name in the
    /// universe, and returns an indirect block that refers to it.
    ///
    /// Where the name is taken, the definition is not stored; what building
    /// the block added to the universe stays.
    pub fn into_named_definition(self, universe: &mut Universe, name: &str) -> (result: Result<
        Block,
        InsertError,
    >) where C: BuilderContentInUniverse
        requires
            old(universe).wf(),
        ensures
            final(universe).wf(),
            ({
                let built = self.content().universe_after(self.attributes_view(), old(universe)@);
                let block = self.content().built_in(self.attributes_view(), old(universe)@);
                let after = final(universe)@;
                if Universe::has_name(built, name@) {
                    result == Err::<Block, InsertError>(InsertError::AlreadyExists) && after
                        == built
                } else {
                    result is Ok && result->Ok_0@ == BlockView::Indirect(
                        BlockDefRef { index: built.definitions.len() as usize },
                    ) && after == (UniverseView {
                        definitions: built.definitions.push(
                            Slot::Present(
                                crate::block::BlockDefView {
                                    block,
                                    listeners: Seq::empty(),
                                    gate: built.gate_for(block),
                                },
                            ),
                        ),
                        names: built.names.push(Some(name@)),
                        ..built
                    })
                }
            }),
    {
        let block = self.content.build_u(self.attributes, universe);
        let definition = BlockDef::new(block, universe);
        match universe.insert(name, definition) {
            Ok(r) => Ok(Block::Indirect(r)),
            Err(error) => Err(error),
        }
    }
}

impl BlockBuilder<BlockBuilderVoxels> {
    /// Sets the most negative corner of the part of the space that is used.
    pub fn offset(self, offset: GridPoint) -> (builder: Self)
        ensures
            builder.attributes_view() == self.attributes_view(),
            builder.content() == (BlockBuilderVoxels { offset, ..self.content() }),
    {
        BlockBuilder {
            attributes: self.attributes,
            content: BlockBuilderVoxels {
                space: self.content.space,
                resolution: self.content.resolution,
                offset,
            },
        }
    }
}

/// The choices of a function that gives a block for every cube.
pub open spec fn block_choices(blocks: Seq<Block>) -> Seq<Option<BlockView>> {
    blocks.map_values(|b: Block| Some(b@))
}

/// Whether making the voxels of a block went from one universe to another
/// with `result`, where `function` gave the blocks `blocks` for the voxels
/// that were reached, in the row-major order of the block's grid.
///
/// On success there is a block for every voxel, each of which could be put;
/// the universe has one more space, which holds what putting them into a
/// newly made space leads to; and the builder refers to that space from its
/// origin on. On failure the universe is what it was, and the last block is
/// one that could not be put, for the reason that `result` holds.
pub open spec fn voxels_made<F: Fn(GridPoint) -> Block>(
    before: UniverseView,
    after: UniverseView,
    attributes: BlockAttributesView,
    result: Result<BlockBuilder<BlockBuilderVoxels>, SetCubeError>,
    resolution: Resolution,
    function: F,
    blocks: Seq<Block>,
) -> bool {
    let grid = Grid::block_grid(resolution);
    let choices = block_choices(blocks);
    let done = if result is Ok {
        grid.cubes()
    } else {
        blocks.len() - 1
    };
    &&& 0 <= done <= grid.cubes()
    &&& result is Ok ==> blocks.len() == grid.cubes()
    &&& forall|i: int|
        0 <= i < blocks.len() ==> call_ensures(function, (grid.point_at(i),), #[trigger] blocks[i])
    &&& forall|i: int|
        0 <= i < done ==> SpaceView::fresh(grid).filled_first(grid, choices, before, i).put_error(
            grid.point_at(i),
            (#[trigger] blocks[i])@,
            before,
        ) is None
    &&& match result {
        Ok(builder) => {
            &&& builder.attributes_view() == attributes
            &&& builder.content() == (BlockBuilderVoxels {
                space: SpaceRef { index: before.spaces.len() as usize },
                resolution,
                offset: GridPoint { x: 0, y: 0, z: 0 },
            })
            &&& after == (UniverseView {
                spaces: before.spaces.push(
                    Slot::Present(
                        SpaceView::fresh(grid).filled_first(grid, choices, before, grid.cubes()),
                    ),
                ),
                ..before
            })
        },
        Err(error) => {
            &&& after == before
            &&& SpaceView::fresh(grid).filled_first(grid, choices, before, done).put_error(
                grid.point_at(done),
                blocks[done]@,
                before,
            ) == Some(error)
        },
    }
}

} // verus!
