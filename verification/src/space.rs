//! Dense storage of blocks over a grid. Every cube carries its block, the
//! cached evaluation of that block, and a packed light value.

use crate::block::air;
use crate::block::air_evaluated;
use crate::block::Block;
use crate::block::BlockView;
use crate::block::EvaluatedBlock;
use crate::block::EvaluatedBlockView;
use crate::block::Resolution;
use crate::color::Rgba;
use crate::grid::Grid;
use crate::grid::GridArray;
use crate::grid::GridArrayView;
use crate::grid::GridCoordinate;
use crate::grid::GridPoint;
use crate::light::PackedLight;
use crate::light::PackedLightScalar;
use crate::lighting::LightUpdateRequest;
use crate::lighting::MAX_PRIORITY;
use crate::listen::Listener;
use crate::listen::Notifier;
use crate::universe::RefError;
use crate::universe::Universe;
use crate::universe::UniverseView;
use vstd::prelude::*;

verus! {

/// What changed in a space.
#[derive(Clone, Copy, Debug, PartialEq, Eq, Hash, Structural)]
pub enum SpaceChange {
    /// The block at a cube was replaced.
    Block(GridPoint),
    /// The block at a cube stayed, and its evaluation changed.
    BlockValue(GridPoint),
    /// The light of a cube changed.
    Lighting(GridPoint),
}

impl SpaceChange {
    /// Whether the change can alter the evaluation of a block made of the
    /// space's cubes. A change of light alone cannot.
    pub open spec fn affects_blocks(self) -> bool {
        self is Block || self is BlockValue
    }

    /// Whether the change can alter the evaluation of a block made of the
    /// space's cubes.
    pub fn touches_blocks(&self) -> (b: bool)
        ensures
            b == self.affects_blocks(),
    {
        match self {
            SpaceChange::Block(_) => true,
            SpaceChange::BlockValue(_) => true,
            SpaceChange::Lighting(_) => false,
        }
    }
}

/// Why a cube could not be set.
#[derive(Clone, Copy, Debug, PartialEq, Eq, Hash, Structural)]
pub enum SetCubeError {
    /// The cube lies outside of the space.
    OutOfBounds(GridPoint),
    /// The block could not be evaluated.
    BlockDataAccess(RefError),
}

/// What one step of light propagation did.
#[derive(Clone, Copy, Debug, PartialEq, Eq, Hash, Structural)]
pub struct SpaceStepInfo {
    /// The number of cubes whose light was recomputed.
    pub light_update_count: usize,
    /// The number of requests that still wait.
    pub light_queue_count: usize,
    /// The largest change of a light value, in stored steps.
    pub max_light_update_difference: PackedLightScalar,
}

/// What a [`Space`] holds. The sequences have one entry for each cube of the
/// grid, in its row-major order.
pub struct SpaceView {
    pub grid: Grid,
    pub blocks: Seq<BlockView>,
    pub evaluated: Seq<EvaluatedBlockView>,
    pub lighting: Seq<PackedLight>,
    /// The requests for light updates, each before those served sooner.
    pub queue: Seq<LightUpdateRequest>,
    /// The changes that were not announced yet, oldest first.
    pub changes: Seq<SpaceChange>,
    /// Those who listen for changes to the blocks of the space.
    pub listeners: Seq<Listener>,
}

impl SpaceView {
    /// The invariant of a space: one entry of each kind for each cube, and a
    /// queue in serving order that names cubes of the grid, each at most
    /// once.
    pub open spec fn wf(self) -> bool {
        &&& self.grid.wf()
        &&& self.blocks.len() == self.grid.cubes()
        &&& self.evaluated.len() == self.grid.cubes()
        &&& self.lighting.len() == self.grid.cubes()
        &&& forall|k: int| 0 <= k < self.queue.len() ==> self.grid.contains(#[trigger] self.queue[k].cube)
        &&& forall|j: int, k: int|
            0 <= j < k < self.queue.len() ==> #[trigger] self.queue[j].before(#[trigger] self.queue[k])
        &&& forall|j: int, k: int|
            0 <= j < k < self.queue.len() ==> (#[trigger] self.queue[j]).cube != (
            #[trigger] self.queue[k]).cube
    }

    /// What a newly made space of the given grid holds: [`air`] in every
    /// cube, lit as by the sky, with nothing queued, nothing to announce and
    /// nobody listening.
    pub open spec fn fresh(grid: Grid) -> SpaceView {
        SpaceView {
            grid,
            blocks: Seq::new(grid.cubes() as nat, |i: int| air_block_view()),
            evaluated: Seq::new(grid.cubes() as nat, |i: int| EvaluatedBlockView::air_spec()),
            lighting: Seq::new(grid.cubes() as nat, |i: int| PackedLight::sky_spec()),
            queue: Seq::empty(),
            changes: Seq::empty(),
            listeners: Seq::empty(),
        }
    }

    /// Whether a request for the cube waits in the queue.
    pub open spec fn queued(self, cube: GridPoint) -> bool {
        exists|k: int| 0 <= k < self.queue.len() && (#[trigger] self.queue[k]).cube == cube
    }

    /// The block at a cube: what was put there, and [`air`] outside of the
    /// grid.
    pub open spec fn block_at(self, cube: GridPoint) -> BlockView {
        if self.grid.contains(cube) {
            self.blocks[self.grid.index_of(cube)]
        } else {
            BlockView::Atom(
                crate::block::BlockAttributesView::air_spec(),
                Rgba { r: 0, g: 0, b: 0, a: 0 },
            )
        }
    }

    /// The cached evaluation of the block at a cube, and that of [`air`]
    /// outside of the grid.
    pub open spec fn evaluated_at(self, cube: GridPoint) -> EvaluatedBlockView {
        if self.grid.contains(cube) {
            self.evaluated[self.grid.index_of(cube)]
        } else {
            EvaluatedBlockView::air_spec()
        }
    }

    /// The light of a cube, and that of the sky outside of the grid.
    pub open spec fn light_at(self, cube: GridPoint) -> PackedLight {
        if self.grid.contains(cube) {
            self.lighting[self.grid.index_of(cube)]
        } else {
            PackedLight::sky_spec()
        }
    }

    /// The colour of the cube at integer coordinates: that of the cached
    /// evaluation, and transparent outside of the grid.
    pub open spec fn color_at(self, x: int, y: int, z: int) -> Rgba {
        if self.grid.contains_at(x, y, z) {
            self.evaluated[self.grid.index_at(x, y, z)].color
        } else {
            Rgba { r: 0, g: 0, b: 0, a: 0 }
        }
    }

    /// The colours of the cubical region of edge `resolution` (one, where
    /// that is zero) whose most negative corner is `offset`, moved to the
    /// origin.
    pub open spec fn voxels(self, offset: GridPoint, resolution: Resolution) -> GridArrayView<Rgba> {
        let grid = Grid::block_grid(resolution);
        GridArrayView {
            grid,
            contents: Seq::new(
                grid.cubes() as nat,
                |i: int|
                    self.color_at(
                        offset.x + grid.point_at(i).x,
                        offset.y + grid.point_at(i).y,
                        offset.z + grid.point_at(i).z,
                    ),
            ),
        }
    }
}

/// A grid of blocks with their cached evaluations and light.
#[derive(Debug)]
pub struct Space {
    pub(crate) grid: Grid,
    pub(crate) blocks: Vec<Block>,
    pub(crate) evaluated: Vec<EvaluatedBlock>,
    pub(crate) lighting: Vec<PackedLight>,
    pub(crate) queue: Vec<LightUpdateRequest>,
    /// For each cube, whether a request for it waits in the queue.
    pub(crate) queued: Vec<bool>,
    pub(crate) changes: Vec<SpaceChange>,
    pub(crate) notifier: Notifier,
    /// What is reported for cubes outside of the grid.
    pub(crate) outside_block: Block,
    pub(crate) outside_evaluated: EvaluatedBlock,
}

impl Space {
    /// What the space holds.
    pub open(crate) spec fn view(&self) -> SpaceView {
        SpaceView {
            grid: self.grid,
            blocks: self.blocks@.map_values(|b: Block| b@),
            evaluated: self.evaluated@.map_values(|e: EvaluatedBlock| e@),
            lighting: self.lighting@,
            queue: self.queue@,
            changes: self.changes@,
            listeners: self.notifier@,
        }
    }

    /// The invariant of every space that this crate hands out.
    pub open(crate) spec fn wf(&self) -> bool {
        &&& self@.wf()
        &&& self.queued@.len() == self.grid.cubes()
        &&& forall|i: int|
            0 <= i < self.queued@.len() ==> (#[trigger] self.queued@[i] <==> self@.queued(
                self.grid.point_at(i),
            ))
        &&& self.outside_block@ == air_block_view()
        &&& self.outside_evaluated@ == EvaluatedBlockView::air_spec()
    }

    /// What the invariant of a space says of what the space holds: among
    /// other things, that no cube waits twice for a light update.
    pub proof fn lemma_wf_view(&self)
        requires
            self.wf(),
        ensures
            self@.wf(),
    {
    }

    /// A space of the given grid that is filled with [`air`] and lit as by
    /// the sky, with nothing queued and nothing to announce.
    pub fn empty(grid: Grid) -> (space: Space)
        requires
            grid.wf(),
        ensures
            space.wf(),
            space@ == SpaceView::fresh(grid),
    {
        let volume = grid.volume();
        let mut blocks: Vec<Block> = Vec::new();
        let mut evaluated: Vec<EvaluatedBlock> = Vec::new();
        let mut lighting: Vec<PackedLight> = Vec::new();
        let mut queued: Vec<bool> = Vec::new();
        let mut i: usize = 0;
        while i < volume
            invariant
                i <= volume,
                blocks@.len() == i,
                evaluated@.len() == i,
                lighting@.len() == i,
                queued@.len() == i,
                forall|j: int| 0 <= j < i ==> (#[trigger] blocks@[j])@ == air_block_view(),
                forall|j: int|
                    0 <= j < i ==> (#[trigger] evaluated@[j])@ == EvaluatedBlockView::air_spec(),
                forall|j: int| 0 <= j < i ==> #[trigger] lighting@[j] == PackedLight::sky_spec(),
                forall|j: int| 0 <= j < i ==> !#[trigger] queued@[j],
            decreases volume - i,
        {
            blocks.push(air());
            evaluated.push(air_evaluated());
            lighting.push(PackedLight::initial());
            queued.push(false);
            i += 1;
        }
        let space = Space {
            grid,
            blocks,
            evaluated,
            lighting,
            queue: Vec::new(),
            queued,
            changes: Vec::new(),
            notifier: Notifier::new(),
            outside_block: air(),
            outside_evaluated: air_evaluated(),
        };
        assert(space@.blocks =~= SpaceView::fresh(grid).blocks);
        assert(space@.evaluated =~= SpaceView::fresh(grid).evaluated);
        assert(space@.lighting =~= SpaceView::fresh(grid).lighting);
        assert(space@.queue =~= SpaceView::fresh(grid).queue);
        assert(space@.changes =~= SpaceView::fresh(grid).changes);
        assert(space@.listeners =~= SpaceView::fresh(grid).listeners);
        space
    }

    /// An empty space whose most negative corner is the origin, where the
    /// sizes make a grid.
    pub fn empty_positive(wx: GridCoordinate, wy: GridCoordinate, wz: GridCoordinate) -> (space:
        Option<Space>)
        ensures
            space is Some <==> crate::grid::valid_bounds(
                GridPoint { x: 0, y: 0, z: 0 },
                GridPoint { x: wx, y: wy, z: wz },
            ),
            space is Some ==> {
                let s = space->0;
                &&& s.wf()
                &&& s@.grid.lower() == (GridPoint { x: 0, y: 0, z: 0 })
                &&& s@.grid.extent() == (GridPoint { x: wx, y: wy, z: wz })
                &&& s@ == SpaceView::fresh(s@.grid)
            },
    {
        match Grid::new(GridPoint::origin(), GridPoint::new(wx, wy, wz)) {
            Some(grid) => Some(Space::empty(grid)),
            None => None,
        }
    }

    /// The grid of the cubes that the space holds.
    pub fn grid(&self) -> (grid: Grid)
        ensures
            grid == self@.grid,
    {
        self.grid
    }

    /// The block at a cube, and [`air`] outside of the grid.
    pub fn get_block(&self, cube: GridPoint) -> (block: &Block)
        requires
            self.wf(),
        ensures
            block@ == self@.block_at(cube),
    {
        match self.grid.index(cube) {
            Some(i) => &self.blocks[i],
            None => &self.outside_block,
        }
    }

    /// The cached evaluation of the block at a cube, and that of [`air`]
    /// outside of the grid.
    pub fn get_evaluated(&self, cube: GridPoint) -> (evaluated: &EvaluatedBlock)
        requires
            self.wf(),
        ensures
            evaluated@ == self@.evaluated_at(cube),
    {
        match self.grid.index(cube) {
            Some(i) => &self.evaluated[i],
            None => &self.outside_evaluated,
        }
    }

    /// The light of a cube, and that of the sky outside of the grid.
    pub fn get_lighting(&self, cube: GridPoint) -> (light: PackedLight)
        requires
            self.wf(),
        ensures
            light == self@.light_at(cube),
    {
        match self.grid.index(cube) {
            Some(i) => self.lighting[i],
            None => PackedLight::sky(),
        }
    }

    /// Adds a listener for changes to the blocks of the space. Changes of
    /// light alone are not passed on to it.
    pub fn listen(&mut self, listener: Listener)
        requires
            old(self).wf(),
        ensures
            final(self).wf(),
            final(self)@ == (SpaceView { listeners: old(self)@.listeners.push(listener), ..old(self)@ }),
    {
        self.notifier.listen(listener);
        assert(self@.queue == old(self)@.queue);
    }

    /// Hands out the changes that were not announced yet, oldest first, and
    /// forgets them.
    pub fn take_changes(&mut self) -> (changes: Vec<SpaceChange>)
        requires
            old(self).wf(),
        ensures
            final(self).wf(),
            changes@ == old(self)@.changes,
            final(self)@ == (SpaceView { changes: Seq::empty(), ..old(self)@ }),
    {
        let mut changes: Vec<SpaceChange> = Vec::new();
        core::mem::swap(&mut self.changes, &mut changes);
        assert(self@.queue == old(self)@.queue);
        changes
    }

    /// The colours of the cubical region of edge `resolution` (one, where
    /// that is zero) whose most negative corner is `offset`, moved to the
    /// origin. Cubes outside of the grid count as transparent.
    pub fn extract_colors(&self, offset: GridPoint, resolution: Resolution) -> (voxels: GridArray<
        Rgba,
    >)
        requires
            self.wf(),
        ensures
            voxels.wf(),
            voxels@ == self@.voxels(offset, resolution),
    {
        let grid = Grid::for_block(resolution);
        let volume = grid.volume();
        let mut colors: Vec<Rgba> = Vec::new();
        let mut i: usize = 0;
        while i < volume
            invariant
                self.wf(),
                grid.wf(),
                grid == Grid::block_grid(resolution),
                volume == grid.cubes(),
                i <= volume,
                colors@.len() == i,
                forall|j: int|
                    0 <= j < i ==> #[trigger] colors@[j] == self@.color_at(
                        offset.x + grid.point_at(j).x,
                        offset.y + grid.point_at(j).y,
                        offset.z + grid.point_at(j).z,
                    ),
            decreases volume - i,
        {
            let p = grid.cube_at(i);
            let color = self.color_of(
                offset.x as i64 + p.x as i64,
                offset.y as i64 + p.y as i64,
                offset.z as i64 + p.z as i64,
            );
            colors.push(color);
            i += 1;
        }
        assert(colors@ =~= self@.voxels(offset, resolution).contents);
        GridArray::from_elements(grid, colors).unwrap()
    }

    fn color_of(&self, x: i64, y: i64, z: i64) -> (color: Rgba)
        requires
            self.wf(),
        ensures
            color == self@.color_at(x as int, y as int, z as int),
    {
        if x < i32::MIN as i64 || x > i32::MAX as i64 || y < i32::MIN as i64 || y > i32::MAX as i64
            || z < i32::MIN as i64 || z > i32::MAX as i64 {
            return Rgba::transparent();
        }
        match self.grid.index(GridPoint { x: x as i32, y: y as i32, z: z as i32 }) {
            Some(i) => self.evaluated[i].color,
            None => Rgba::transparent(),
        }
    }
}

/// The view of [`air`].
pub open spec fn air_block_view() -> BlockView {
    BlockView::Atom(crate::block::BlockAttributesView::air_spec(), Rgba { r: 0, g: 0, b: 0, a: 0 })
}

impl SpaceView {
    /// The six cubes that share a face with a cube, towards negative `x`,
    /// `y`, `z` and then positive `x`, `y`, `z`.
    pub open spec fn neighbors(cube: GridPoint) -> Seq<GridPoint> {
        seq![
            GridPoint { x: (cube.x - 1) as i32, ..cube },
            GridPoint { y: (cube.y - 1) as i32, ..cube },
            GridPoint { z: (cube.z - 1) as i32, ..cube },
            GridPoint { x: (cube.x + 1) as i32, ..cube },
            GridPoint { y: (cube.y + 1) as i32, ..cube },
            GridPoint { z: (cube.z + 1) as i32, ..cube },
        ]
    }

    /// The space after a block with the given evaluation was put at a cube
    /// of the grid: block and evaluation are stored, the change is noted,
    /// and light updates are requested for the cube and its neighbours at
    /// the highest priority.
    pub open spec fn placed(
        self,
        cube: GridPoint,
        block: BlockView,
        evaluated: EvaluatedBlockView,
    ) -> SpaceView {
        (SpaceView {
            blocks: self.blocks.update(self.grid.index_of(cube), block),
            evaluated: self.evaluated.update(self.grid.index_of(cube), evaluated),
            changes: self.changes.push(SpaceChange::Block(cube)),
            ..self
        }).enqueue(cube, 255).enqueue_all(SpaceView::neighbors(cube), 255)
    }
}

impl SpaceView {
    /// Why a block cannot be put at a cube, if it cannot: the cube lies
    /// outside of the grid, or the block is not the one that is there and
    /// cannot be evaluated.
    pub open spec fn put_error(
        self,
        cube: GridPoint,
        block: BlockView,
        universe: UniverseView,
    ) -> Option<SetCubeError> {
        if !self.grid.contains(cube) {
            Some(SetCubeError::OutOfBounds(cube))
        } else if self.block_at(cube) == block {
            None
        } else {
            match universe.evaluation(block) {
                Ok(_) => None,
                Err(error) => Some(SetCubeError::BlockDataAccess(error)),
            }
        }
    }

    /// The space after an attempt to put a block at a cube. Nothing changes
    /// where that fails or the block is the one that is there already.
    pub open spec fn put(self, cube: GridPoint, block: BlockView, universe: UniverseView) -> SpaceView {
        if !self.grid.contains(cube) || self.block_at(cube) == block {
            self
        } else {
            match universe.evaluation(block) {
                Ok(evaluated) => self.placed(cube, block, evaluated),
                Err(_) => self,
            }
        }
    }

    /// The space after an attempt to put a block at a cube in the course of
    /// filling a region. Where that changes the space, the light of the cube
    /// is that of a cube whose light was not computed yet.
    pub open spec fn filled_cube(
        self,
        cube: GridPoint,
        block: BlockView,
        universe: UniverseView,
    ) -> SpaceView {
        let after = self.put(cube, block, universe);
        if self.grid.contains(cube) && self.block_at(cube) != block && universe.evaluation(block)
            is Ok {
            SpaceView {
                lighting: after.lighting.update(self.grid.index_of(cube), PackedLight::sky_spec()),
                ..after
            }
        } else {
            after
        }
    }

    /// The space after a cube was given what a choice holds: the block, or
    /// nothing new.
    pub open spec fn put_choice(
        self,
        cube: GridPoint,
        choice: Option<BlockView>,
        universe: UniverseView,
    ) -> SpaceView {
        match choice {
            Some(block) => self.filled_cube(cube, block, universe),
            None => self,
        }
    }

    /// The space after the cached evaluation of the block at a cube of the
    /// grid was replaced: the evaluation is stored, the change is noted,
    /// and light updates are requested for the cube and its neighbours at
    /// the highest priority.
    pub open spec fn revalued(self, cube: GridPoint, evaluated: EvaluatedBlockView) -> SpaceView {
        (SpaceView {
            evaluated: self.evaluated.update(self.grid.index_of(cube), evaluated),
            changes: self.changes.push(SpaceChange::BlockValue(cube)),
            ..self
        }).enqueue(cube, 255).enqueue_all(SpaceView::neighbors(cube), 255)
    }

    /// The space after the block at a cube was evaluated anew. Nothing
    /// changes where the cube lies outside of the grid, the block cannot be
    /// evaluated, or its evaluation is what was cached.
    pub open spec fn refreshed(self, cube: GridPoint, universe: UniverseView) -> SpaceView {
        if !self.grid.contains(cube) {
            self
        } else {
            match universe.evaluation(self.block_at(cube)) {
                Ok(evaluated) => if evaluated == self.evaluated_at(cube) {
                    self
                } else {
                    self.revalued(cube, evaluated)
                },
                Err(_) => self,
            }
        }
    }

    /// The space after the first `n` cubes of a region, in its row-major
    /// order, were given what the choices hold.
    pub open spec fn filled_first(
        self,
        region: Grid,
        choices: Seq<Option<BlockView>>,
        universe: UniverseView,
        n: int,
    ) -> SpaceView
        decreases n,
    {
        if n <= 0 {
            self
        } else {
            self.filled_first(region, choices, universe, n - 1).put_choice(
                region.point_at(n - 1),
                choices[n - 1],
                universe,
            )
        }
    }
}

/// What one choice of a filling function holds.
pub open spec fn choice_view(choice: Option<Block>) -> Option<BlockView> {
    match choice {
        Some(block) => Some(block@),
        None => None,
    }
}

/// What the choices of a filling function hold.
pub open spec fn choice_views(choices: Seq<Option<Block>>) -> Seq<Option<BlockView>> {
    choices.map_values(|c: Option<Block>| choice_view(c))
}

fn neighbors_of(cube: GridPoint) -> (neighbors: Vec<GridPoint>)
    requires
        -1073741824 <= cube.x <= 1073741824,
        -1073741824 <= cube.y <= 1073741824,
        -1073741824 <= cube.z <= 1073741824,
    ensures
        neighbors@ == SpaceView::neighbors(cube),
{
    let mut neighbors: Vec<GridPoint> = Vec::new();
    neighbors.push(GridPoint { x: cube.x - 1, y: cube.y, z: cube.z });
    neighbors.push(GridPoint { x: cube.x, y: cube.y - 1, z: cube.z });
    neighbors.push(GridPoint { x: cube.x, y: cube.y, z: cube.z - 1 });
    neighbors.push(GridPoint { x: cube.x + 1, y: cube.y, z: cube.z });
    neighbors.push(GridPoint { x: cube.x, y: cube.y + 1, z: cube.z });
    neighbors.push(GridPoint { x: cube.x, y: cube.y, z: cube.z + 1 });
    assert(neighbors@ =~= SpaceView::neighbors(cube));
    neighbors
}

impl Space {
    /// Puts a block at a cube and returns whether that changed the space.
    ///
    /// The block is evaluated in `universe`, and the evaluation is cached
    /// beside it. Nothing changes where the cube lies outside of the grid,
    /// the block is the one that is there already, or the block cannot be
    /// evaluated.
    pub fn set(&mut self, cube: GridPoint, block: &Block, universe: &Universe) -> (result: Result<
        bool,
        SetCubeError,
    >)
        requires
            old(self).wf(),
            universe.wf(),
        ensures
            final(self).wf(),
            !old(self)@.grid.contains(cube) ==> result == Err::<bool, SetCubeError>(
                SetCubeError::OutOfBounds(cube),
            ) && final(self)@ == old(self)@,
            old(self)@.grid.contains(cube) && old(self)@.block_at(cube) == block@ ==> result == Ok::<
                bool,
                SetCubeError,
            >(false) && final(self)@ == old(self)@,
            old(self)@.grid.contains(cube) && old(self)@.block_at(cube) != block@ ==> match universe@.evaluation(
                block@,
            ) {
                Ok(evaluated) => result == Ok::<bool, SetCubeError>(true) && final(self)@ == old(
                    self,
                )@.placed(cube, block@, evaluated),
                Err(error) => result == Err::<bool, SetCubeError>(
                    SetCubeError::BlockDataAccess(error),
                ) && final(self)@ == old(self)@,
            },
            final(self)@ == old(self)@.put(cube, block@, universe@),
            final(self)@.grid == old(self)@.grid,
            match old(self)@.put_error(cube, block@, universe@) {
                Some(error) => result == Err::<bool, SetCubeError>(error),
                None => result is Ok,
            },
    {
        let index = match self.grid.index(cube) {
            Some(index) => index,
            None => {
                return Err(SetCubeError::OutOfBounds(cube));
            },
        };
        if self.blocks[index].same_as(block) {
            return Ok(false);
        }
        let evaluated = match block.evaluate(universe) {
            Ok(evaluated) => evaluated,
            Err(error) => {
                return Err(SetCubeError::BlockDataAccess(error));
            },
        };
        let ghost view = evaluated@;
        self.blocks[index] = block.clone();
        self.evaluated[index] = evaluated;
        self.changes.push(SpaceChange::Block(cube));
        let ghost stored = self@;
        proof {
            assert(stored.queue == old(self)@.queue);
            assert(stored.blocks =~= old(self)@.blocks.update(index as int, block@));
            assert(stored.evaluated =~= old(self)@.evaluated.update(index as int, view));
        }
        self.light_needs_update(cube, MAX_PRIORITY);
        let ghost lit = self@;
        let neighbors = neighbors_of(cube);
        let mut i: usize = 0;
        while i < neighbors.len()
            invariant
                self.wf(),
                i <= neighbors@.len(),
                self@ == lit.enqueue_first(neighbors@, 255, i as int),
            decreases neighbors@.len() - i,
        {
            self.light_needs_update(neighbors[i], MAX_PRIORITY);
            i += 1;
        }
        proof {
            lit.lemma_enqueue_first_keeps_changes(neighbors@, 255, neighbors@.len() as int);
        }
        Ok(true)
    }

    /// Puts a block at a cube as [`Space::set`] does. Where that changes
    /// the space, the light of the cube is set back to that of a cube whose
    /// light was not computed yet.
    pub fn fill_cube(&mut self, cube: GridPoint, block: &Block, universe: &Universe) -> (result: Result<
        bool,
        SetCubeError,
    >)
        requires
            old(self).wf(),
            universe.wf(),
        ensures
            final(self).wf(),
            final(self)@ == old(self)@.filled_cube(cube, block@, universe@),
            final(self)@.grid == old(self)@.grid,
            match old(self)@.put_error(cube, block@, universe@) {
                Some(error) => result == Err::<bool, SetCubeError>(error),
                None => result == Ok::<bool, SetCubeError>(
                    old(self)@.block_at(cube) != block@,
                ),
            },
    {
        let result = self.set(cube, block, universe);
        match result {
            Ok(true) => {
                match self.grid.index(cube) {
                    Some(index) => {
                        let ghost put = self@;
                        self.lighting[index] = PackedLight::initial();
                        assert(self@.queue == put.queue);
                    },
                    None => {},
                }
            },
            _ => {},
        }
        result
    }

    /// Evaluates the block at a cube anew, for when what the block refers
    /// to has changed, and returns whether the evaluation is another than
    /// the one that was cached.
    ///
    /// Where it is, the new evaluation is cached, the change is noted for
    /// announcement as a change to the value of a block, and light updates
    /// are requested for the cube and its neighbours.
    pub fn reevaluate(&mut self, cube: GridPoint, universe: &Universe) -> (result: Result<
        bool,
        SetCubeError,
    >)
        requires
            old(self).wf(),
            universe.wf(),
        ensures
            final(self).wf(),
            final(self)@ == old(self)@.refreshed(cube, universe@),
            !old(self)@.grid.contains(cube) ==> result == Err::<bool, SetCubeError>(
                SetCubeError::OutOfBounds(cube),
            ),
            old(self)@.grid.contains(cube) ==> match universe@.evaluation(
                old(self)@.block_at(cube),
            ) {
                Ok(evaluated) => result == Ok::<bool, SetCubeError>(
                    evaluated != old(self)@.evaluated_at(cube),
                ),
                Err(error) => result == Err::<bool, SetCubeError>(
                    SetCubeError::BlockDataAccess(error),
                ),
            },
    {
        let index = match self.grid.index(cube) {
            Some(index) => index,
            None => {
                return Err(SetCubeError::OutOfBounds(cube));
            },
        };
        let evaluated = match self.blocks[index].evaluate(universe) {
            Ok(evaluated) => evaluated,
            Err(error) => {
                return Err(SetCubeError::BlockDataAccess(error));
            },
        };
        if evaluated.same_as(&self.evaluated[index]) {
            return Ok(false);
        }
        let ghost view = evaluated@;
        self.evaluated[index] = evaluated;
        self.changes.push(SpaceChange::BlockValue(cube));
        let ghost stored = self@;
        proof {
            assert(stored.queue == old(self)@.queue);
            assert(stored.blocks =~= old(self)@.blocks);
            assert(stored.evaluated =~= old(self)@.evaluated.update(index as int, view));
        }
        self.light_needs_update(cube, MAX_PRIORITY);
        let ghost lit = self@;
        let neighbors = neighbors_of(cube);
        let mut i: usize = 0;
        while i < neighbors.len()
            invariant
                self.wf(),
                i <= neighbors@.len(),
                self@ == lit.enqueue_first(neighbors@, 255, i as int),
            decreases neighbors@.len() - i,
        {
            self.light_needs_update(neighbors[i], MAX_PRIORITY);
            i += 1;
        }
        Ok(true)
    }

    /// Gives every cube of a region, in its row-major order, what
    /// `function` chooses for it: a block, which is put there as by
    /// [`Space::fill_cube`], or nothing new.
    ///
    /// The first cube that cannot be set ends the filling with its error;
    /// what was put before stays.
    pub fn fill<F: Fn(GridPoint) -> Option<Block>>(
        &mut self,
        region: Grid,
        function: F,
        universe: &Universe,
    ) -> (result: Result<(), SetCubeError>)
        requires
            old(self).wf(),
            region.wf(),
            universe.wf(),
            forall|p: GridPoint| region.contains(p) ==> call_requires(function, (p,)),
        ensures
            final(self).wf(),
            final(self)@.grid == old(self)@.grid,
            exists|choices: Seq<Option<Block>>| #[trigger]
                filling(old(self)@, final(self)@, result, region, universe@, function, choices),
    {
        let volume = region.volume();
        let ghost mut choices: Seq<Option<Block>> = Seq::empty();
        let mut i: usize = 0;
        while i < volume
            invariant
                self.wf(),
                region.wf(),
                universe.wf(),
                volume == region.cubes(),
                i <= volume,
                self@.grid == old(self)@.grid,
                forall|p: GridPoint| region.contains(p) ==> call_requires(function, (p,)),
                choices.len() == i,
                forall|j: int|
                    0 <= j < i ==> call_ensures(function, (region.point_at(j),), #[trigger] choices[j]),
                self@ == old(self)@.filled_first(
                    region,
                    choice_views(choices),
                    universe@,
                    i as int,
                ),
                forall|j: int|
                    0 <= j < i ==> match #[trigger] choice_views(choices)[j] {
                        Some(block) => old(self)@.filled_first(
                            region,
                            choice_views(choices),
                            universe@,
                            j,
                        ).put_error(region.point_at(j), block, universe@) is None,
                        None => true,
                    },
            decreases volume - i,
        {
            let cube = region.cube_at(i);
            let choice = function(cube);
            let ghost earlier = choices;
            let ghost earlier_views = choice_views(earlier);
            proof {
                choices = choices.push(choice);
                let views = choice_views(choices);
                assert(views.len() == i + 1);
                assert forall|j: int| 0 <= j <= i implies old(self)@.filled_first(
                    region,
                    views,
                    universe@,
                    j,
                ) == old(self)@.filled_first(region, earlier_views, universe@, j) by {
                    lemma_filled_first_prefix(
                        old(self)@,
                        region,
                        earlier_views,
                        views,
                        universe@,
                        j,
                    );
                }
                assert forall|j: int| 0 <= j < i implies views[j] == earlier_views[j] by {}
            }
            let outcome = match &choice {
                Some(block) => self.fill_cube(cube, block, universe),
                None => Ok(false),
            };
            match outcome {
                Ok(_) => {},
                Err(error) => {
                    assert(filling(
                        old(self)@,
                        self@,
                        Err::<(), SetCubeError>(error),
                        region,
                        universe@,
                        function,
                        choices,
                    ));
                    return Err(error);
                },
            }
            i += 1;
        }
        assert(filling(old(self)@, self@, Ok::<(), SetCubeError>(()), region, universe@, function, choices));
        Ok(())
    }
}

/// Whether a filling that went from `before` to `after` with `result` is
/// explained by the given choices of `function`, one for each cube that was
/// reached.
///
/// Every choice is one that `function` can make for its cube. All but the
/// last could be put where they were put. On success there is a choice for
/// every cube of the region; on failure the last choice is a block that
/// could not be put, for the reason that `result` holds, and `after` is
/// what the choices before it led to.
pub open spec fn filling<F: Fn(GridPoint) -> Option<Block>>(
    before: SpaceView,
    after: SpaceView,
    result: Result<(), SetCubeError>,
    region: Grid,
    universe: UniverseView,
    function: F,
    choices: Seq<Option<Block>>,
) -> bool {
    let views = choice_views(choices);
    let done = if result is Ok {
        region.cubes()
    } else {
        choices.len() - 1
    };
    &&& 0 <= done <= region.cubes()
    &&& choices.len() <= region.cubes()
    &&& result is Ok ==> choices.len() == region.cubes()
    &&& forall|i: int|
        0 <= i < choices.len() ==> call_ensures(function, (region.point_at(i),), #[trigger] choices[i])
    &&& after == before.filled_first(region, views, universe, done)
    &&& forall|i: int|
        0 <= i < done ==> match #[trigger] views[i] {
            Some(block) => before.filled_first(region, views, universe, i).put_error(
                region.point_at(i),
                block,
                universe,
            ) is None,
            None => true,
        }
    &&& match result {
        Err(error) => match views[done] {
            Some(block) => after.put_error(region.point_at(done), block, universe) == Some(error),
            None => false,
        },
        Ok(_) => true,
    }
}

/// What a filling has come to after `n` cubes depends on the first `n`
/// choices only.
pub proof fn lemma_filled_first_prefix(
    space: SpaceView,
    region: Grid,
    shorter: Seq<Option<BlockView>>,
    longer: Seq<Option<BlockView>>,
    universe: UniverseView,
    n: int,
)
    requires
        n <= shorter.len() <= longer.len(),
        forall|j: int| 0 <= j < shorter.len() ==> shorter[j] == longer[j],
    ensures
        space.filled_first(region, shorter, universe, n) == space.filled_first(
            region,
            longer,
            universe,
            n,
        ),
    decreases n,
{
    if n > 0 {
        lemma_filled_first_prefix(space, region, shorter, longer, universe, n - 1);
    }
}

} // verus!
