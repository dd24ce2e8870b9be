//! Blocks: the values that occupy the cubes of a space, and the flattened
//! form to which they evaluate.

use crate::color::Rgb;
use crate::color::Rgba;
use crate::grid::Grid;
use crate::grid::GridArray;
use crate::grid::GridArrayView;
use crate::grid::GridPoint;
use crate::space::Space;
use crate::space::SpaceView;
use crate::listen::Gate;
use crate::listen::Listener;
use crate::listen::Notifier;
use crate::universe::all_opaque;
use crate::universe::any_visible;
use crate::universe::BlockDefRef;
use crate::universe::RefError;
use crate::universe::Slot;
use crate::universe::SpaceRef;
use crate::universe::Universe;
use crate::universe::UniverseView;
use vstd::prelude::*;

verus! {

/// The edge length of a block of voxels, counted in voxels. The cube of it is
/// the number of voxels that make up the block.
pub type Resolution = u8;

/// What a [`BlockAttributes`] value holds, with the name as a sequence of
/// characters.
pub struct BlockAttributesView {
    pub display_name: Seq<char>,
    pub selectable: bool,
    pub solid: bool,
    pub light_emission: Rgb,
}

/// The attributes of a block that do not depend on its kind.
#[derive(Debug, PartialEq, Eq, Hash)]
pub struct BlockAttributes {
    /// The name that is shown to players. The default is the empty string.
    pub display_name: String,
    /// Whether a cursor can target the block. The default is `true`.
    pub selectable: bool,
    /// Whether the block is an obstacle. The default is `true`.
    pub solid: bool,
    /// Light that the block emits. The default is black.
    pub light_emission: Rgb,
}

impl View for BlockAttributes {
    type V = BlockAttributesView;

    open spec fn view(&self) -> BlockAttributesView {
        BlockAttributesView {
            display_name: self.display_name@,
            selectable: self.selectable,
            solid: self.solid,
            light_emission: self.light_emission,
        }
    }
}

impl BlockAttributesView {
    /// The attributes of an ordinary block: no name, selectable, solid and
    /// dark.
    pub open spec fn default_spec() -> BlockAttributesView {
        BlockAttributesView {
            display_name: Seq::<char>::empty(),
            selectable: true,
            solid: true,
            light_emission: Rgb { r: 0, g: 0, b: 0 },
        }
    }

    /// The attributes of [`air`]: named, and neither selectable nor solid.
    pub open spec fn air_spec() -> BlockAttributesView {
        BlockAttributesView {
            display_name: "<air>"@,
            selectable: false,
            solid: false,
            light_emission: Rgb { r: 0, g: 0, b: 0 },
        }
    }
}

impl Clone for BlockAttributes {
    fn clone(&self) -> (copy: Self)
        ensures
            copy == *self,
    {
        BlockAttributes {
            display_name: self.display_name.clone(),
            selectable: self.selectable,
            solid: self.solid,
            light_emission: self.light_emission,
        }
    }
}

impl Default for BlockAttributes {
    /// Attributes that suit an ordinary block.
    fn default() -> (attributes: BlockAttributes)
        ensures
            attributes@ == BlockAttributesView::default_spec(),
    {
        BlockAttributes {
            display_name: String::new(),
            selectable: true,
            solid: true,
            light_emission: Rgb::zero(),
        }
    }
}

/// What a [`Block`] holds, with names as sequences of characters.
pub enum BlockView {
    Indirect(BlockDefRef),
    Atom(BlockAttributesView, Rgba),
    Recur { attributes: BlockAttributesView, offset: GridPoint, resolution: Resolution, space: SpaceRef },
}

/// Something that can occupy one cube of a space, with an appearance and a
/// behaviour.
///
/// Blocks are values. Some refer to shared data, and a change to that data
/// takes effect wherever a block with the same reference occurs.
#[derive(Debug, PartialEq, Eq, Hash)]
pub enum Block {
    /// A block whose definition is stored in a universe.
    Indirect(BlockDefRef),
    /// A cube of one colour. It may still be transparent, or no obstacle.
    Atom(BlockAttributes, Rgba),
    /// A block made of smaller blocks, which the referenced space holds.
    Recur {
        attributes: BlockAttributes,
        /// The most negative corner of the part of the space that is used.
        offset: GridPoint,
        /// The edge length of the cubical volume of voxels that is used.
        /// Zero is read as one.
        resolution: Resolution,
        space: SpaceRef,
    },
}

impl View for Block {
    type V = BlockView;

    open spec fn view(&self) -> BlockView {
        match *self {
            Block::Indirect(definition) => BlockView::Indirect(definition),
            Block::Atom(attributes, color) => BlockView::Atom(attributes@, color),
            Block::Recur { attributes, offset, resolution, space } => BlockView::Recur {
                attributes: attributes@,
                offset,
                resolution,
                space,
            },
        }
    }
}

impl Clone for Block {
    fn clone(&self) -> (copy: Self)
        ensures
            copy == *self,
    {
        match self {
            Block::Indirect(definition) => Block::Indirect(*definition),
            Block::Atom(attributes, color) => Block::Atom(attributes.clone(), *color),
            Block::Recur { attributes, offset, resolution, space } => Block::Recur {
                attributes: attributes.clone(),
                offset: *offset,
                resolution: *resolution,
                space: *space,
            },
        }
    }
}

impl From<Rgba> for Block {
    /// The atom of the given colour with default attributes.
    fn from(color: Rgba) -> (block: Block)
        ensures
            block@ == BlockView::Atom(BlockAttributesView::default_spec(), color),
    {
        Block::Atom(BlockAttributes::default(), color)
    }
}

impl vstd::std_specs::convert::FromSpecImpl<Rgba> for Block {
    /// A block's name is a string, of which only the characters are
    /// specified, so the result is stated by its view and not as a value.
    open spec fn obeys_from_spec() -> bool {
        false
    }

    open spec fn from_spec(color: Rgba) -> Block {
        choose|block: Block| block@ == BlockView::Atom(BlockAttributesView::default_spec(), color)
    }
}

impl From<Rgb> for Block {
    /// The opaque atom of the given colour with default attributes.
    fn from(color: Rgb) -> (block: Block)
        ensures
            block@ == BlockView::Atom(
                BlockAttributesView::default_spec(),
                Rgba { r: color.r, g: color.g, b: color.b, a: 65536 },
            ),
    {
        Block::Atom(BlockAttributes::default(), color.with_alpha_one())
    }
}

impl vstd::std_specs::convert::FromSpecImpl<Rgb> for Block {
    open spec fn obeys_from_spec() -> bool {
        false
    }

    open spec fn from_spec(color: Rgb) -> Block {
        choose|block: Block|
            block@ == BlockView::Atom(
                BlockAttributesView::default_spec(),
                Rgba { r: color.r, g: color.g, b: color.b, a: 65536 },
            )
    }
}

/// The placeholder for the colour that stands for a block of voxels as a
/// whole: opaque middle grey. No averaging of the voxels is done yet.
pub open spec fn voxels_color_spec() -> Rgba {
    Rgba { r: 32768, g: 32768, b: 32768, a: 65536 }
}

/// What an [`EvaluatedBlock`] holds.
pub struct EvaluatedBlockView {
    pub attributes: BlockAttributesView,
    pub color: Rgba,
    pub voxels: Option<GridArrayView<Rgba>>,
    pub opaque: bool,
    pub visible: bool,
}

impl EvaluatedBlockView {
    /// The evaluation of [`air`].
    pub open spec fn air_spec() -> EvaluatedBlockView {
        EvaluatedBlockView {
            attributes: BlockAttributesView::air_spec(),
            color: Rgba { r: 0, g: 0, b: 0, a: 0 },
            voxels: None,
            opaque: false,
            visible: false,
        }
    }
}

/// A flattened snapshot of a [`Block`], which holds all that rendering and
/// physics need and refers to nothing else.
#[derive(Debug, PartialEq, Eq)]
pub struct EvaluatedBlock {
    /// The block's attributes.
    pub attributes: BlockAttributes,
    /// The block's colour; for a block of voxels, a colour that stands for
    /// the whole.
    pub color: Rgba,
    /// The colours of the voxels that make up the block, if it has any.
    pub voxels: Option<GridArray<Rgba>>,
    /// Whether the block is known to let no light through on any face.
    pub opaque: bool,
    /// Whether anything of the block can be seen: `false` only if it is
    /// completely transparent.
    pub visible: bool,
}

impl View for EvaluatedBlock {
    type V = EvaluatedBlockView;

    open spec fn view(&self) -> EvaluatedBlockView {
        EvaluatedBlockView {
            attributes: self.attributes@,
            color: self.color,
            voxels: match self.voxels {
                Some(array) => Some(array@),
                None => None,
            },
            opaque: self.opaque,
            visible: self.visible,
        }
    }
}

impl Clone for EvaluatedBlock {
    fn clone(&self) -> (copy: Self)
        ensures
            copy@ == self@,
    {
        EvaluatedBlock {
            attributes: self.attributes.clone(),
            color: self.color,
            voxels: match &self.voxels {
                Some(array) => Some(array.clone()),
                None => None,
            },
            opaque: self.opaque,
            visible: self.visible,
        }
    }
}

/// The empty block, which a space holds wherever nothing else was put and
/// reports for cubes outside of its bounds.
pub fn air() -> (block: Block)
    ensures
        block@ == BlockView::Atom(BlockAttributesView::air_spec(), Rgba { r: 0, g: 0, b: 0, a: 0 }),
{
    Block::Atom(air_attributes(), Rgba::transparent())
}

/// The evaluation of [`air`], for use where an evaluated block is needed and
/// there is no block.
pub fn air_evaluated() -> (evaluated: EvaluatedBlock)
    ensures
        evaluated@ == EvaluatedBlockView::air_spec(),
{
    EvaluatedBlock {
        attributes: air_attributes(),
        color: Rgba::transparent(),
        voxels: None,
        opaque: false,
        visible: false,
    }
}

fn air_attributes() -> (attributes: BlockAttributes)
    ensures
        attributes@ == BlockAttributesView::air_spec(),
{
    BlockAttributes {
        display_name: "<air>".to_owned(),
        selectable: false,
        solid: false,
        light_emission: Rgb::zero(),
    }
}

/// Notification that the evaluation of a block may have changed.
#[derive(Clone, Copy, Debug, PartialEq, Eq, Hash, Structural)]
pub struct BlockChange {}

impl BlockChange {
    /// The notification. It says that something changed and no more.
    pub fn new() -> (change: BlockChange)
        ensures
            change == (BlockChange {  }),
    {
        BlockChange {  }
    }
}

/// What a [`BlockDef`] holds.
pub struct BlockDefView {
    pub block: BlockView,
    /// Those who listen to the definition, in the order in which they
    /// subscribed.
    pub listeners: Seq<Listener>,
    /// The subscription to what the block refers to.
    pub gate: Gate,
}

/// A block that is stored in a universe, where [`Block::Indirect`] refers to
/// it, so that a change to it shows wherever it is used.
///
/// A definition is a type of its own, and not a bare [`Block`], so that no
/// change to it goes without a notification.
#[derive(Debug)]
pub struct BlockDef {
    pub(crate) block: Block,
    pub(crate) notifier: Notifier,
    pub(crate) gate: Gate,
}

/// Exclusive access to the block of a definition, taken out of its universe
/// for one episode of changes. Handing it back commits the episode.
#[derive(Debug)]
pub struct BlockDefMut {
    pub(crate) target: BlockDefRef,
    pub(crate) definition: BlockDef,
}

impl BlockDef {
    /// What the definition holds.
    pub open(crate) spec fn view(&self) -> BlockDefView {
        BlockDefView { block: self.block@, listeners: self.notifier@, gate: self.gate }
    }

    /// A definition of the given block without listeners. Its gate follows
    /// what the block refers to in `universe`, and is closed where the block
    /// refers to nothing or to what cannot be reached now.
    pub fn new(block: Block, universe: &Universe) -> (definition: BlockDef)
        requires
            universe.wf(),
        ensures
            definition@ == (BlockDefView {
                block: block@,
                listeners: Seq::empty(),
                gate: universe@.gate_for(block@),
            }),
    {
        let gate = universe.subscribe(&block);
        BlockDef { block, notifier: Notifier::new(), gate }
    }

    /// The block as it is now.
    pub fn block(&self) -> (block: &Block)
        ensures
            block@ == self@.block,
    {
        &self.block
    }

    /// Registers a listener for changes to the evaluation of blocks that
    /// refer to this definition. This cannot fail.
    pub fn listen(&mut self, listener: Listener) -> (result: Result<(), RefError>)
        ensures
            result is Ok,
            final(self)@ == (BlockDefView {
                listeners: old(self)@.listeners.push(listener),
                ..old(self)@
            }),
    {
        self.notifier.listen(listener);
        Ok(())
    }

    /// Begins an episode of changes to the block of the definition that
    /// `target` names. The definition travels with the handle until the
    /// episode is committed.
    pub fn modify(self, target: BlockDefRef) -> (handle: BlockDefMut)
        ensures
            handle@ == (BlockDefMutView { target, definition: self@ }),
    {
        BlockDefMut { target, definition: self }
    }
}

/// What a [`BlockDefMut`] holds.
pub struct BlockDefMutView {
    pub target: BlockDefRef,
    pub definition: BlockDefView,
}

impl BlockDefMut {
    /// What the handle holds.
    pub open(crate) spec fn view(&self) -> BlockDefMutView {
        BlockDefMutView { target: self.target, definition: self.definition@ }
    }

    /// The definition that the handle was taken from.
    pub fn target(&self) -> (target: BlockDefRef)
        ensures
            target == self@.target,
    {
        self.target
    }

    /// The block as it is now within the episode.
    pub fn block(&self) -> (block: &Block)
        ensures
            block@ == self@.definition.block,
    {
        &self.definition.block
    }

    /// Access to the block for changing it in place. Nobody is notified
    /// before the episode is committed, however much is changed.
    pub fn block_mut(&mut self) -> (block: &mut Block)
        ensures
            block@ == old(self)@.definition.block,
            final(self)@ == (BlockDefMutView {
                definition: BlockDefView { block: final(block)@, ..old(self)@.definition },
                ..old(self)@
            }),
    {
        &mut self.definition.block
    }

    /// Replaces the block. Nobody is notified before the episode is
    /// committed, however often this is done.
    pub fn set(&mut self, block: Block)
        ensures
            final(self)@ == (BlockDefMutView {
                definition: BlockDefView { block: block@, ..old(self)@.definition },
                ..old(self)@
            }),
    {
        self.definition.block = block;
    }
}

/// Whether what evaluating a block returned is what the evaluation is.
pub open spec fn is_evaluation(
    result: Result<EvaluatedBlock, RefError>,
    evaluation: Result<EvaluatedBlockView, RefError>,
) -> bool {
    match (result, evaluation) {
        (Ok(evaluated), Ok(view)) => evaluated@ == view && (evaluated.voxels matches Some(voxels)
            ==> voxels.wf()),
        (Err(error), Err(expected)) => error == expected,
        _ => false,
    }
}

impl Block {
    /// Converts this block into its flattened form, which holds all that
    /// rendering and physics need and refers to nothing else. Nothing is
    /// changed by it.
    ///
    /// This fails where a definition or a space that the block leads to is
    /// gone or held exclusively elsewhere, and never puts a default in the
    /// place of what it could not read.
    pub fn evaluate(&self, universe: &Universe) -> (result: Result<EvaluatedBlock, RefError>)
        requires
            universe.wf(),
        ensures
            is_evaluation(result, universe@.evaluation(self@)),
            self@ is Atom ==> result is Ok,
            self@ matches BlockView::Atom(_, color) && color.is_fully_transparent() ==> result is Ok
                && !result->Ok_0.visible && !result->Ok_0.opaque,
            self@ matches BlockView::Atom(_, color) && color.is_fully_opaque() ==> result is Ok
                && result->Ok_0.visible && result->Ok_0.opaque,
    {
        let mut current: &Block = self;
        let mut fuel: usize = universe.definitions.len();
        loop
            invariant
                universe.wf(),
                fuel <= universe.definitions@.len(),
                universe@.evaluate_within(current@, fuel as nat) == universe@.evaluation(self@),
                fuel == universe.definitions@.len() ==> current@ == self@,
                fuel < universe.definitions@.len() ==> !(self@ is Atom),
            decreases fuel,
        {
            match current {
                Block::Atom(attributes, color) => {
                    return Ok(
                        EvaluatedBlock {
                            attributes: attributes.clone(),
                            color: *color,
                            voxels: None,
                            opaque: color.fully_opaque(),
                            visible: !color.fully_transparent(),
                        },
                    );
                },
                Block::Recur { attributes, offset, resolution, space } => {
                    if space.index >= universe.spaces.len() {
                        return Err(RefError::Gone);
                    }
                    match &universe.spaces[space.index] {
                        Slot::Present(source) => {
                            let voxels = source.extract_colors(*offset, *resolution);
                            let opaque = all_fully_opaque(voxels.elements());
                            let visible = any_not_transparent(voxels.elements());
                            return Ok(
                                EvaluatedBlock {
                                    attributes: attributes.clone(),
                                    color: voxels_color(),
                                    voxels: Some(voxels),
                                    opaque,
                                    visible,
                                },
                            );
                        },
                        Slot::InUse => {
                            return Err(RefError::InUse);
                        },
                        Slot::Gone => {
                            return Err(RefError::Gone);
                        },
                    }
                },
                Block::Indirect(r) => {
                    if r.index >= universe.definitions.len() {
                        return Err(RefError::Gone);
                    }
                    match &universe.definitions[r.index] {
                        Slot::Present(definition) => {
                            if fuel == 0 {
                                return Err(RefError::InUse);
                            }
                            current = &definition.block;
                            fuel -= 1;
                        },
                        Slot::InUse => {
                            return Err(RefError::InUse);
                        },
                        Slot::Gone => {
                            return Err(RefError::Gone);
                        },
                    }
                },
            }
        }
    }

    /// The colour of an atom.
    pub fn color(&self) -> (color: Rgba)
        requires
            self@ is Atom,
        ensures
            self@ matches BlockView::Atom(_, c) && c == color,
    {
        match self {
            Block::Atom(_, color) => *color,
            _ => Rgba::transparent(),
        }
    }
}

/// The placeholder for the colour that stands for a block of voxels as a
/// whole, until a policy for averaging the voxels is settled.
pub fn voxels_color() -> (color: Rgba)
    ensures
        color == voxels_color_spec(),
{
    Rgba { r: 32768, g: 32768, b: 32768, a: 65536 }
}

fn all_fully_opaque(colors: &Vec<Rgba>) -> (all: bool)
    ensures
        all == all_opaque(colors@),
{
    let mut i: usize = 0;
    while i < colors.len()
        invariant
            i <= colors@.len(),
            forall|j: int| 0 <= j < i ==> (#[trigger] colors@[j]).is_fully_opaque(),
        decreases colors@.len() - i,
    {
        if !colors[i].fully_opaque() {
            return false;
        }
        i += 1;
    }
    true
}

fn any_not_transparent(colors: &Vec<Rgba>) -> (any: bool)
    ensures
        any == any_visible(colors@),
{
    let mut i: usize = 0;
    while i < colors.len()
        invariant
            i <= colors@.len(),
            forall|j: int| 0 <= j < i ==> (#[trigger] colors@[j]).is_fully_transparent(),
        decreases colors@.len() - i,
    {
        if !colors[i].fully_transparent() {
            return true;
        }
        i += 1;
    }
    false
}

impl BlockAttributes {
    /// Whether two sets of attributes hold the same.
    pub fn same_as(&self, other: &BlockAttributes) -> (same: bool)
        ensures
            same == (self@ == other@),
    {
        let names = self.display_name == other.display_name;
        let same = names && self.selectable == other.selectable && self.solid == other.solid
            && self.light_emission == other.light_emission;
        proof {
            if self@ == other@ {
                assert(self.display_name@ == other.display_name@);
            }
            if same {
                assert(self@.display_name =~= other@.display_name);
            }
        }
        same
    }
}

impl EvaluatedBlock {
    /// Whether two evaluated blocks hold the same.
    pub fn same_as(&self, other: &EvaluatedBlock) -> (same: bool)
        ensures
            same == (self@ == other@),
    {
        if !self.attributes.same_as(&other.attributes) || self.color != other.color || self.opaque
            != other.opaque || self.visible != other.visible {
            return false;
        }
        match (&self.voxels, &other.voxels) {
            (None, None) => true,
            (Some(voxels), Some(other_voxels)) => {
                if voxels.grid() != other_voxels.grid() {
                    return false;
                }
                let colors = voxels.elements();
                let other_colors = other_voxels.elements();
                if colors.len() != other_colors.len() {
                    return false;
                }
                let mut i: usize = 0;
                while i < colors.len()
                    invariant
                        i <= colors@.len(),
                        colors@.len() == other_colors@.len(),
                        colors@ == voxels@.contents,
                        other_colors@ == other_voxels@.contents,
                        self@.voxels == Some(voxels@),
                        other@.voxels == Some(other_voxels@),
                        forall|j: int| 0 <= j < i ==> colors@[j] == other_colors@[j],
                    decreases colors@.len() - i,
                {
                    if colors[i] != other_colors[i] {
                        return false;
                    }
                    i += 1;
                }
                assert(colors@ =~= other_colors@);
                true
            },
            _ => false,
        }
    }
}

impl Block {
    /// Whether two blocks hold the same.
    pub fn same_as(&self, other: &Block) -> (same: bool)
        ensures
            same == (self@ == other@),
    {
        match (self, other) {
            (Block::Indirect(a), Block::Indirect(b)) => *a == *b,
            (Block::Atom(attributes, color), Block::Atom(other_attributes, other_color)) => {
                attributes.same_as(other_attributes) && *color == *other_color
            },
            (
                Block::Recur { attributes, offset, resolution, space },
                Block::Recur {
                    attributes: other_attributes,
                    offset: other_offset,
                    resolution: other_resolution,
                    space: other_space,
                },
            ) => {
                attributes.same_as(other_attributes) && *offset == *other_offset && *resolution
                    == *other_resolution && *space == *other_space
            },
            _ => false,
        }
    }

    /// Registers a listener for changes to what the evaluation of this
    /// block is read from.
    ///
    /// An atom refers to nothing, so nothing is done for it. For a block of
    /// voxels the listener is added to the space, which passes on changes to
    /// its blocks and no others. For an indirect block the listener is added
    /// to the definition's own listeners, so that it hears of every change
    /// that the definition hears of. That the block itself is replaced
    /// where it is stored is not a change in this sense.
    ///
    /// This fails where evaluating the block's reference would.
    pub fn listen(&self, universe: &mut Universe, listener: Listener) -> (result: Result<
        (),
        RefError,
    >)
        requires
            old(universe).wf(),
        ensures
            final(universe).wf(),
            match old(universe)@.subscription(self@) {
                Err(error) => result == Err::<(), RefError>(error) && final(universe)@ == old(
                    universe,
                )@,
                Ok(None) => result is Ok && final(universe)@ == old(universe)@,
                Ok(Some(source)) => result is Ok && final(universe)@ == old(universe)@.listening(
                    source,
                    listener,
                ),
            },
            self@ is Atom ==> result is Ok && final(universe)@ == old(universe)@,
    {
        match universe.source_of(self) {
            Err(error) => Err(error),
            Ok(None) => Ok(()),
            Ok(Some(source)) => {
                universe.add_listener(source, listener);
                Ok(())
            },
        }
    }
}

/// The edge length that a resolution stands for: itself, and one where it is
/// zero.
pub open spec fn edge_of(resolution: Resolution) -> int {
    if resolution == 0 {
        1
    } else {
        resolution as int
    }
}

/// The offset of the block of voxels that stands for a cube of a miniature:
/// the cube's coordinates times the edge length of a block.
pub open spec fn scaled(cube: GridPoint, edge: int) -> GridPoint {
    GridPoint { x: (cube.x * edge) as i32, y: (cube.y * edge) as i32, z: (cube.z * edge) as i32 }
}

/// The blocks of a miniature: for each cube of `grid`, in its row-major
/// order, the block of voxels that shows the part of `space` which the cube
/// stands for.
pub open spec fn miniature_blocks(
    grid: Grid,
    resolution: Resolution,
    attributes: BlockAttributesView,
    space: SpaceRef,
) -> Seq<Option<BlockView>> {
    Seq::new(
        grid.cubes() as nat,
        |i: int|
            Some(
                BlockView::Recur {
                    attributes,
                    offset: scaled(grid.point_at(i), edge_of(resolution)),
                    resolution,
                    space,
                },
            ),
    )
}

/// What the miniature of a space of the given grid holds: a newly made
/// space over the divided grid into which the blocks of the miniature were
/// put.
pub open spec fn miniature(
    universe: UniverseView,
    source: Grid,
    resolution: Resolution,
    attributes: BlockAttributesView,
    space: SpaceRef,
) -> SpaceView {
    let grid = source.divided(edge_of(resolution));
    SpaceView::fresh(grid).filled_first(
        grid,
        miniature_blocks(grid, resolution, attributes, space),
        universe,
        grid.cubes(),
    )
}

proof fn lemma_scaled_in_range(lower: int, extent: int, divisor: int, cube: int)
    requires
        -1073741824 <= lower,
        extent >= 1,
        lower + extent <= 1073741824,
        1 <= divisor <= 255,
        lower / divisor <= cube < (lower + extent + divisor - 1) / divisor,
    ensures
        -1073742080 <= cube * divisor <= 1073742080,
{
    let upper = lower + extent + divisor - 1;
    vstd::arithmetic::div_mod::lemma_fundamental_div_mod(lower, divisor);
    vstd::arithmetic::div_mod::lemma_fundamental_div_mod(upper, divisor);
    let q = lower / divisor;
    let m = lower % divisor;
    let qu = upper / divisor;
    let mu = upper % divisor;
    assert(cube * divisor >= q * divisor) by (nonlinear_arith)
        requires
            cube >= q,
            divisor >= 1,
    ;
    assert(cube * divisor <= (qu - 1) * divisor) by (nonlinear_arith)
        requires
            cube <= qu - 1,
            divisor >= 1,
    ;
    assert(q * divisor == divisor * q) by (nonlinear_arith);
    assert((qu - 1) * divisor == divisor * qu - divisor) by (nonlinear_arith);
}

/// Makes the miniature of a space: a space of blocks of voxels, each of
/// which shows a cube of `resolution` voxels along each axis of the space
/// that `space` names. The coordinates of the miniature are those of the
/// space divided by `resolution`. A resolution of zero is read as one.
pub fn space_to_blocks(
    resolution: Resolution,
    attributes: BlockAttributes,
    space: SpaceRef,
    universe: &Universe,
) -> (result: Result<Space, RefError>)
    requires
        universe.wf(),
    ensures
        match universe@.space(space) {
            Slot::Present(source) => result is Ok && result->Ok_0.wf() && result->Ok_0@
                == miniature(universe@, source.grid, resolution, attributes@, space),
            Slot::InUse => result is Err && result->Err_0 == RefError::InUse,
            Slot::Gone => result is Err && result->Err_0 == RefError::Gone,
        },
{
    let source_grid = match universe.space(&space) {
        Ok(source) => source.grid(),
        Err(error) => {
            return Err(error);
        },
    };
    let edge: u8 = if resolution == 0 { 1 } else { resolution };
    let grid = source_grid.divide(edge);
    let mut miniature = Space::empty(grid);
    let volume = grid.volume();
    let ghost blocks = miniature_blocks(grid, resolution, attributes@, space);
    let mut i: usize = 0;
    while i < volume
        invariant
            miniature.wf(),
            universe.wf(),
            source_grid.wf(),
            edge == edge_of(resolution),
            universe@.space(space) is Present,
            grid.wf(),
            grid == source_grid.divided(edge as int),
            grid.lower().x == (source_grid.lower().x as int) / (edge as int),
            grid.lower().y == (source_grid.lower().y as int) / (edge as int),
            grid.lower().z == (source_grid.lower().z as int) / (edge as int),
            grid.lower().x + grid.extent().x == (source_grid.lower().x + source_grid.extent().x
                + edge - 1) / (edge as int),
            grid.lower().y + grid.extent().y == (source_grid.lower().y + source_grid.extent().y
                + edge - 1) / (edge as int),
            grid.lower().z + grid.extent().z == (source_grid.lower().z + source_grid.extent().z
                + edge - 1) / (edge as int),
            volume == grid.cubes(),
            i <= volume,
            blocks == miniature_blocks(grid, resolution, attributes@, space),
            miniature@.grid == grid,
            miniature@ == SpaceView::fresh(grid).filled_first(grid, blocks, universe@, i as int),
        decreases volume - i,
    {
        let cube = grid.cube_at(i);
        proof {
            lemma_scaled_in_range(
                source_grid.lower().x as int,
                source_grid.extent().x as int,
                edge as int,
                cube.x as int,
            );
            lemma_scaled_in_range(
                source_grid.lower().y as int,
                source_grid.extent().y as int,
                edge as int,
                cube.y as int,
            );
            lemma_scaled_in_range(
                source_grid.lower().z as int,
                source_grid.extent().z as int,
                edge as int,
                cube.z as int,
            );
        }
        let offset = GridPoint {
            x: (cube.x as i64 * edge as i64) as i32,
            y: (cube.y as i64 * edge as i64) as i32,
            z: (cube.z as i64 * edge as i64) as i32,
        };
        let block = Block::Recur { attributes: attributes.clone(), offset, resolution, space };
        assert(Some(block@) == blocks[i as int]);
        let _ = miniature.fill_cube(cube, &block, universe);
        i += 1;
    }
    Ok(miniature)
}

} // verus!
