//! The container of block definitions and spaces, the handles by which
//! blocks refer to them, and the delivery of change notifications between
//! them.
//!
//! A universe is an arena. A handle is the number of a slot, and following
//! it tells a thing that is gone from one that is held exclusively
//! elsewhere. Subscriptions are kept by the subscriber: a definition's gate
//! names what it follows, and a notification goes to the listeners of every
//! definition whose gates lead to the source.

use crate::block::Block;
use crate::block::BlockChange;
use crate::block::BlockDef;
use crate::block::BlockDefMut;
use crate::block::BlockDefMutView;
use crate::block::BlockDefView;
use crate::block::BlockView;
use crate::block::EvaluatedBlockView;
use crate::block::voxels_color_spec;
use crate::color::Rgba;
use crate::listen::Gate;
use crate::listen::Listener;
use crate::listen::Sink;
use crate::listen::Upstream;
use crate::space::Space;
use crate::space::SpaceChange;
use crate::space::SpaceView;
use vstd::prelude::*;

verus! {

/// Why a handle could not be followed.
#[derive(Clone, Copy, Debug, PartialEq, Eq, Hash, Structural)]
pub enum RefError {
    /// What the handle named does not exist, or no longer.
    Gone,
    /// What the handle names is held exclusively elsewhere.
    InUse,
}

/// Why a definition could not be stored under a name.
#[derive(Clone, Copy, Debug, PartialEq, Eq, Hash, Structural)]
pub enum InsertError {
    /// The universe holds a definition of that name already.
    AlreadyExists,
}

/// How the commit of an episode of changes ended.
#[derive(Clone, Copy, Debug, PartialEq, Eq, Hash, Structural)]
pub enum Commit {
    /// The block is stored, the definition follows what the block refers
    /// to, and the listeners were notified.
    Complete,
    /// The block is stored and the listeners were notified, but what the
    /// block refers to could not be followed. Later changes there will not
    /// reach the listeners of this definition.
    Degraded(RefError),
    /// The handle was not taken from this universe. Nothing was done.
    Foreign,
}

/// A handle to a block definition in a [`Universe`].
#[derive(Clone, Copy, Debug, PartialEq, Eq, Hash, Structural)]
pub struct BlockDefRef {
    pub index: usize,
}

/// A handle to a space in a [`Universe`].
#[derive(Clone, Copy, Debug, PartialEq, Eq, Hash, Structural)]
pub struct SpaceRef {
    pub index: usize,
}

/// One place of the arena.
#[derive(Debug)]
pub enum Slot<T> {
    /// The thing is here.
    Present(T),
    /// The thing was taken out for exclusive access and is expected back.
    InUse,
    /// The thing was removed.
    Gone,
}

/// What a [`Universe`] holds.
pub struct UniverseView {
    pub definitions: Seq<Slot<BlockDefView>>,
    /// The name of each definition, where it has one.
    pub names: Seq<Option<Seq<char>>>,
    pub spaces: Seq<Slot<SpaceView>>,
    /// For each mailbox, the number of notifications that wait in it.
    pub mailboxes: Seq<nat>,
}

/// Whether every one of the colours is fully opaque.
pub open spec fn all_opaque(colors: Seq<Rgba>) -> bool {
    forall|i: int| 0 <= i < colors.len() ==> (#[trigger] colors[i]).is_fully_opaque()
}

/// Whether one of the colours is not fully transparent.
pub open spec fn any_visible(colors: Seq<Rgba>) -> bool {
    exists|i: int| 0 <= i < colors.len() && !(#[trigger] colors[i]).is_fully_transparent()
}

/// The number of times that a mailbox occurs among listeners.
pub open spec fn count_of(listeners: Seq<Listener>, mailbox: int) -> nat
    decreases listeners.len(),
{
    if listeners.len() == 0 {
        0
    } else {
        count_of(listeners.drop_last(), mailbox) + if listeners.last().mailbox == mailbox {
            1nat
        } else {
            0nat
        }
    }
}

/// Whether definition `d` has a gate that leads to `source` by at most `fuel`
/// further definitions, all of them present.
pub open spec fn follows(
    definitions: Seq<Slot<BlockDefView>>,
    d: int,
    source: Upstream,
    fuel: nat,
) -> bool
    decreases fuel,
{
    0 <= d < definitions.len() && match definitions[d] {
        Slot::Present(definition) => match definition.gate.upstream {
            None => false,
            Some(upstream) => upstream == source || (fuel > 0 && match upstream {
                Upstream::Definition(next) => follows(
                    definitions,
                    next.index as int,
                    source,
                    (fuel - 1) as nat,
                ),
                Upstream::Space(_) => false,
            }),
        },
        _ => false,
    }
}

/// Whether the listeners of definition `d` hear of a change at `source`: the
/// definition is present, and is the source or follows it.
pub open spec fn notified(definitions: Seq<Slot<BlockDefView>>, d: int, source: Upstream) -> bool {
    0 <= d < definitions.len() && definitions[d] is Present && (source == Upstream::Definition(
        BlockDefRef { index: d as usize },
    ) || follows(definitions, d, source, definitions.len()))
}

/// The number of notifications that a mailbox gets through the first `n`
/// definitions when `source` changes once.
pub open spec fn forwarded_first(
    definitions: Seq<Slot<BlockDefView>>,
    mailbox: int,
    source: Upstream,
    n: int,
) -> nat
    decreases n,
{
    if n <= 0 {
        0
    } else {
        forwarded_first(definitions, mailbox, source, n - 1) + if notified(
            definitions,
            n - 1,
            source,
        ) {
            match definitions[n - 1] {
                Slot::Present(definition) => count_of(definition.listeners, mailbox),
                _ => 0nat,
            }
        } else {
            0nat
        }
    }
}

impl UniverseView {
    /// What a handle to a definition leads to.
    pub open spec fn definition(self, r: BlockDefRef) -> Slot<BlockDefView> {
        if r.index < self.definitions.len() {
            self.definitions[r.index as int]
        } else {
            Slot::Gone
        }
    }

    /// What a handle to a space leads to.
    pub open spec fn space(self, r: SpaceRef) -> Slot<SpaceView> {
        if r.index < self.spaces.len() {
            self.spaces[r.index as int]
        } else {
            Slot::Gone
        }
    }

    /// What a block would have to be followed through to hear of changes to
    /// its evaluation, and the error where that cannot be reached. An atom
    /// refers to nothing.
    pub open spec fn subscription(self, block: BlockView) -> Result<Option<Upstream>, RefError> {
        match block {
            BlockView::Atom(_, _) => Ok(None),
            BlockView::Indirect(r) => match self.definition(r) {
                Slot::Present(_) => Ok(Some(Upstream::Definition(r))),
                Slot::InUse => Err(RefError::InUse),
                Slot::Gone => Err(RefError::Gone),
            },
            BlockView::Recur { attributes, offset, resolution, space } => match self.space(space) {
                Slot::Present(_) => Ok(Some(Upstream::Space(space))),
                Slot::InUse => Err(RefError::InUse),
                Slot::Gone => Err(RefError::Gone),
            },
        }
    }

    /// What a definition of the given block has for a gate: it follows what the
    /// block refers to, and is closed where there is no such thing or it
    /// cannot be reached.
    pub open spec fn gate_for(self, block: BlockView) -> Gate {
        match self.subscription(block) {
            Ok(upstream) => Gate { upstream },
            Err(_) => Gate { upstream: None },
        }
    }

    /// The evaluation of a block for which at most `fuel` further
    /// definitions may be passed through.
    ///
    /// An atom evaluates to its own attributes and colour. A block of voxels
    /// takes the colours of its space's cached evaluations, and stands as a
    /// whole for a placeholder colour. An indirect block evaluates to what
    /// the block of its definition evaluates to. A definition that is met
    /// with no fuel left counts as in use.
    pub open spec fn evaluate_within(self, block: BlockView, fuel: nat) -> Result<
        EvaluatedBlockView,
        RefError,
    >
        decreases fuel,
    {
        match block {
            BlockView::Atom(attributes, color) => Ok(
                EvaluatedBlockView {
                    attributes,
                    color,
                    voxels: None,
                    opaque: color.is_fully_opaque(),
                    visible: !color.is_fully_transparent(),
                },
            ),
            BlockView::Recur { attributes, offset, resolution, space } => match self.space(space) {
                Slot::Present(source) => {
                    let voxels = source.voxels(offset, resolution);
                    Ok(
                        EvaluatedBlockView {
                            attributes,
                            color: voxels_color_spec(),
                            voxels: Some(voxels),
                            opaque: all_opaque(voxels.contents),
                            visible: any_visible(voxels.contents),
                        },
                    )
                },
                Slot::InUse => Err(RefError::InUse),
                Slot::Gone => Err(RefError::Gone),
            },
            BlockView::Indirect(r) => match self.definition(r) {
                Slot::Present(definition) => if fuel == 0 {
                    Err(RefError::InUse)
                } else {
                    self.evaluate_within(definition.block, (fuel - 1) as nat)
                },
                Slot::InUse => Err(RefError::InUse),
                Slot::Gone => Err(RefError::Gone),
            },
        }
    }

    /// The evaluation of a block. A chain of indirect blocks is followed
    /// through as many definitions as the universe has; one that goes on
    /// after that runs in a circle, and its definitions count as in use.
    pub open spec fn evaluation(self, block: BlockView) -> Result<EvaluatedBlockView, RefError> {
        self.evaluate_within(block, self.definitions.len())
    }

    /// The number of notifications that a mailbox gets when `source` changes
    /// once: one for each time that it listens to the source itself or to a
    /// definition that hears of the change.
    pub open spec fn deliveries(self, mailbox: int, source: Upstream) -> nat {
        forwarded_first(self.definitions, mailbox, source, self.definitions.len() as int) + match source {
            Upstream::Space(r) => match self.space(r) {
                Slot::Present(space) => count_of(space.listeners, mailbox),
                _ => 0nat,
            },
            Upstream::Definition(_) => 0nat,
        }
    }

    /// The universe after `source` changed once and all who hear of it were
    /// notified.
    pub open spec fn delivered(self, source: Upstream) -> UniverseView {
        UniverseView {
            mailboxes: Seq::new(
                self.mailboxes.len(),
                |m: int| self.mailboxes[m] + self.deliveries(m, source),
            ),
            ..self
        }
    }

    /// The universe after `source` changed `times` times.
    pub open spec fn delivered_times(self, source: Upstream, times: int) -> UniverseView
        decreases times,
    {
        if times <= 0 {
            self
        } else {
            self.delivered_times(source, times - 1).delivered(source)
        }
    }
}

/// The container of block definitions, spaces and mailboxes.
#[derive(Debug)]
pub struct Universe {
    pub(crate) definitions: Vec<Slot<BlockDef>>,
    pub(crate) names: Vec<Option<String>>,
    pub(crate) spaces: Vec<Slot<Space>>,
    pub(crate) mailboxes: Vec<Vec<BlockChange>>,
}

impl Universe {
    /// What the universe holds.
    pub open(crate) spec fn view(&self) -> UniverseView {
        UniverseView {
            definitions: Seq::new(
                self.definitions@.len(),
                |i: int|
                    match self.definitions@[i] {
                        Slot::Present(definition) => Slot::Present(definition@),
                        Slot::InUse => Slot::InUse,
                        Slot::Gone => Slot::Gone,
                    },
            ),
            names: Seq::new(
                self.names@.len(),
                |i: int|
                    match self.names@[i] {
                        Some(name) => Some(name@),
                        None => None,
                    },
            ),
            spaces: Seq::new(
                self.spaces@.len(),
                |i: int|
                    match self.spaces@[i] {
                        Slot::Present(space) => Slot::Present(space@),
                        Slot::InUse => Slot::InUse,
                        Slot::Gone => Slot::Gone,
                    },
            ),
            mailboxes: Seq::new(self.mailboxes@.len(), |i: int| self.mailboxes@[i]@.len()),
        }
    }

    /// The invariant of every universe that this crate hands out.
    pub open(crate) spec fn wf(&self) -> bool {
        &&& self.names@.len() == self.definitions@.len()
        &&& forall|i: int|
            0 <= i < self.spaces@.len() ==> match #[trigger] self.spaces@[i] {
                Slot::Present(space) => space.wf(),
                _ => true,
            }
    }

    /// A universe that holds nothing.
    pub fn new() -> (universe: Universe)
        ensures
            universe.wf(),
            universe@.definitions.len() == 0,
            universe@.names.len() == 0,
            universe@.spaces.len() == 0,
            universe@.mailboxes.len() == 0,
    {
        Universe {
            definitions: Vec::new(),
            names: Vec::new(),
            spaces: Vec::new(),
            mailboxes: Vec::new(),
        }
    }

    /// What listening to the sources of a block's evaluation would follow,
    /// as a gate that is closed where nothing can be followed.
    pub(crate) fn subscribe(&self, block: &Block) -> (gate: Gate)
        requires
            self.wf(),
        ensures
            gate == self@.gate_for(block@),
    {
        match self.source_of(block) {
            Ok(upstream) => Gate { upstream },
            Err(_) => Gate::closed(),
        }
    }

    /// What a block would have to be followed through to hear of changes to
    /// its evaluation.
    pub fn source_of(&self, block: &Block) -> (source: Result<Option<Upstream>, RefError>)
        requires
            self.wf(),
        ensures
            source == self@.subscription(block@),
    {
        match block {
            Block::Atom(_, _) => Ok(None),
            Block::Indirect(r) => {
                if r.index >= self.definitions.len() {
                    return Err(RefError::Gone);
                }
                match &self.definitions[r.index] {
                    Slot::Present(_) => Ok(Some(Upstream::Definition(*r))),
                    Slot::InUse => Err(RefError::InUse),
                    Slot::Gone => Err(RefError::Gone),
                }
            },
            Block::Recur { space, .. } => {
                if space.index >= self.spaces.len() {
                    return Err(RefError::Gone);
                }
                match &self.spaces[space.index] {
                    Slot::Present(_) => Ok(Some(Upstream::Space(*space))),
                    Slot::InUse => Err(RefError::InUse),
                    Slot::Gone => Err(RefError::Gone),
                }
            },
        }
    }
}

/// The number of changes among the given ones that can alter the evaluation
/// of a block made of the space's cubes.
pub open spec fn block_changes(changes: Seq<SpaceChange>) -> int
    decreases changes.len(),
{
    if changes.len() == 0 {
        0
    } else {
        block_changes(changes.drop_last()) + if changes.last().affects_blocks() {
            1int
        } else {
            0int
        }
    }
}

/// A number of changes is not negative.
pub proof fn lemma_block_changes_counted(changes: Seq<SpaceChange>)
    ensures
        0 <= block_changes(changes) <= changes.len(),
    decreases changes.len(),
{
    if changes.len() > 0 {
        lemma_block_changes_counted(changes.drop_last());
    }
}

impl UniverseView {
    /// The universe after a listener was added to a source.
    pub open spec fn listening(self, source: Upstream, listener: Listener) -> UniverseView {
        match source {
            Upstream::Definition(r) => match self.definition(r) {
                Slot::Present(definition) => UniverseView {
                    definitions: self.definitions.update(
                        r.index as int,
                        Slot::Present(
                            BlockDefView {
                                listeners: definition.listeners.push(listener),
                                ..definition
                            },
                        ),
                    ),
                    ..self
                },
                _ => self,
            },
            Upstream::Space(r) => match self.space(r) {
                Slot::Present(space) => UniverseView {
                    spaces: self.spaces.update(
                        r.index as int,
                        Slot::Present(
                            SpaceView { listeners: space.listeners.push(listener), ..space },
                        ),
                    ),
                    ..self
                },
                _ => self,
            },
        }
    }

    /// The universe after an episode of changes was committed: the block of
    /// the handle is stored, the definition's gate follows what the
    /// block refers to, as far as that can be reached while the definition
    /// is still held, and then all who hear of the definition are notified
    /// once.
    pub open spec fn committed(self, handle: BlockDefMutView) -> UniverseView {
        (UniverseView {
            definitions: self.definitions.update(
                handle.target.index as int,
                Slot::Present(
                    BlockDefView {
                        gate: self.gate_for(handle.definition.block),
                        ..handle.definition
                    },
                ),
            ),
            ..self
        }).delivered(Upstream::Definition(handle.target))
    }

    /// The universe after a space was handed back: the space is stored
    /// with nothing left to announce, and all who hear of the space are
    /// notified once for each change to its blocks.
    pub open spec fn restored(self, r: SpaceRef, space: SpaceView) -> UniverseView {
        (UniverseView {
            spaces: self.spaces.update(
                r.index as int,
                Slot::Present(SpaceView { changes: Seq::empty(), ..space }),
            ),
            ..self
        }).delivered_times(Upstream::Space(r), block_changes(space.changes))
    }
}

impl Universe {
    /// Makes a mailbox and hands out its receiving end.
    pub fn new_sink(&mut self) -> (sink: Sink)
        requires
            old(self).wf(),
        ensures
            final(self).wf(),
            sink.mailbox == old(self)@.mailboxes.len(),
            final(self)@ == (UniverseView {
                mailboxes: old(self)@.mailboxes.push(0),
                ..old(self)@
            }),
    {
        let sink = Sink { mailbox: self.mailboxes.len() };
        self.mailboxes.push(Vec::new());
        assert(self@.mailboxes =~= old(self)@.mailboxes.push(0));
        assert(self@.definitions =~= old(self)@.definitions);
        assert(self@.names =~= old(self)@.names);
        assert(self@.spaces =~= old(self)@.spaces);
        sink
    }

    /// The number of notifications that wait in a sink's mailbox.
    pub fn sink_pending(&self, sink: &Sink) -> (pending: usize)
        ensures
            pending == (if sink.mailbox < self@.mailboxes.len() {
                self@.mailboxes[sink.mailbox as int]
            } else {
                0
            }),
    {
        if sink.mailbox < self.mailboxes.len() {
            self.mailboxes[sink.mailbox].len()
        } else {
            0
        }
    }

    /// Takes one notification out of a sink's mailbox, if one waits there.
    pub fn sink_next(&mut self, sink: &Sink) -> (message: Option<BlockChange>)
        requires
            old(self).wf(),
        ensures
            final(self).wf(),
            message is Some <==> sink.mailbox < old(self)@.mailboxes.len() && old(
                self,
            )@.mailboxes[sink.mailbox as int] > 0,
            message is Some ==> final(self)@ == (UniverseView {
                mailboxes: old(self)@.mailboxes.update(
                    sink.mailbox as int,
                    (old(self)@.mailboxes[sink.mailbox as int] - 1) as nat,
                ),
                ..old(self)@
            }),
            message is None ==> final(self)@ == old(self)@,
    {
        if sink.mailbox >= self.mailboxes.len() {
            return None;
        }
        let message = self.mailboxes[sink.mailbox].pop();
        proof {
            assert(self@.definitions =~= old(self)@.definitions);
            assert(self@.names =~= old(self)@.names);
            assert(self@.spaces =~= old(self)@.spaces);
            if message is Some {
                assert(self@.mailboxes =~= old(self)@.mailboxes.update(
                    sink.mailbox as int,
                    (old(self)@.mailboxes[sink.mailbox as int] - 1) as nat,
                ));
            } else {
                assert(self@.mailboxes =~= old(self)@.mailboxes);
            }
        }
        message
    }

    /// Stores a definition without a name and hands out a handle to it.
    pub fn insert_block_def(&mut self, definition: BlockDef) -> (r: BlockDefRef)
        requires
            old(self).wf(),
        ensures
            final(self).wf(),
            r.index == old(self)@.definitions.len(),
            final(self)@ == (UniverseView {
                definitions: old(self)@.definitions.push(Slot::Present(definition@)),
                names: old(self)@.names.push(None),
                ..old(self)@
            }),
    {
        let r = BlockDefRef { index: self.definitions.len() };
        self.definitions.push(Slot::Present(definition));
        self.names.push(None);
        proof {
            assert(self@.definitions =~= old(self)@.definitions.push(Slot::Present(definition@)));
            assert(self@.names =~= old(self)@.names.push(None));
            assert(self@.spaces =~= old(self)@.spaces);
            assert(self@.mailboxes =~= old(self)@.mailboxes);
        }
        r
    }

    /// Whether a definition is stored under the given name.
    pub open spec fn has_name(view: UniverseView, name: Seq<char>) -> bool {
        exists|i: int| 0 <= i < view.names.len() && #[trigger] view.names[i] == Some(name)
    }

    /// Stores a definition under a name that no other definition has, and
    /// hands out a handle to it.
    pub fn insert(&mut self, name: &str, definition: BlockDef) -> (result: Result<
        BlockDefRef,
        InsertError,
    >)
        requires
            old(self).wf(),
        ensures
            final(self).wf(),
            Universe::has_name(old(self)@, name@) ==> result == Err::<BlockDefRef, InsertError>(
                InsertError::AlreadyExists,
            ) && final(self)@ == old(self)@,
            !Universe::has_name(old(self)@, name@) ==> result == Ok::<BlockDefRef, InsertError>(
                BlockDefRef { index: old(self)@.definitions.len() as usize },
            ) && final(self)@ == (UniverseView {
                definitions: old(self)@.definitions.push(Slot::Present(definition@)),
                names: old(self)@.names.push(Some(name@)),
                ..old(self)@
            }),
    {
        let owned = name.to_owned();
        let mut i: usize = 0;
        while i < self.names.len()
            invariant
                *self == *old(self),
                self.wf(),
                i <= self.names@.len(),
                owned@ == name@,
                forall|j: int| 0 <= j < i ==> #[trigger] self@.names[j] != Some(name@),
            decreases self.names@.len() - i,
        {
            let taken = match &self.names[i] {
                Some(existing) => *existing == owned,
                None => false,
            };
            if taken {
                assert(self@.names[i as int] == Some(name@));
                return Err(InsertError::AlreadyExists);
            }
            i += 1;
        }
        let r = BlockDefRef { index: self.definitions.len() };
        self.definitions.push(Slot::Present(definition));
        self.names.push(Some(owned));
        proof {
            assert(self@.definitions =~= old(self)@.definitions.push(Slot::Present(definition@)));
            assert(self@.names =~= old(self)@.names.push(Some(name@)));
            assert(self@.spaces =~= old(self)@.spaces);
            assert(self@.mailboxes =~= old(self)@.mailboxes);
        }
        Ok(r)
    }

    /// Stores a space and hands out a handle to it.
    pub fn insert_space(&mut self, space: Space) -> (r: SpaceRef)
        requires
            old(self).wf(),
            space.wf(),
        ensures
            final(self).wf(),
            r.index == old(self)@.spaces.len(),
            final(self)@ == (UniverseView {
                spaces: old(self)@.spaces.push(Slot::Present(space@)),
                ..old(self)@
            }),
    {
        let r = SpaceRef { index: self.spaces.len() };
        self.spaces.push(Slot::Present(space));
        proof {
            assert(self@.definitions =~= old(self)@.definitions);
            assert(self@.names =~= old(self)@.names);
            assert(self@.spaces =~= old(self)@.spaces.push(Slot::Present(space@)));
            assert(self@.mailboxes =~= old(self)@.mailboxes);
        }
        r
    }

    /// Read access to a definition.
    pub fn block_def(&self, r: &BlockDefRef) -> (result: Result<&BlockDef, RefError>)
        requires
            self.wf(),
        ensures
            match self@.definition(*r) {
                Slot::Present(definition) => result is Ok && result->Ok_0@ == definition,
                Slot::InUse => result == Err::<&BlockDef, RefError>(RefError::InUse),
                Slot::Gone => result == Err::<&BlockDef, RefError>(RefError::Gone),
            },
    {
        if r.index >= self.definitions.len() {
            return Err(RefError::Gone);
        }
        match &self.definitions[r.index] {
            Slot::Present(definition) => Ok(definition),
            Slot::InUse => Err(RefError::InUse),
            Slot::Gone => Err(RefError::Gone),
        }
    }

    /// Read access to a space.
    pub fn space(&self, r: &SpaceRef) -> (result: Result<&Space, RefError>)
        requires
            self.wf(),
        ensures
            match self@.space(*r) {
                Slot::Present(space) => result is Ok && result->Ok_0@ == space
                    && result->Ok_0.wf(),
                Slot::InUse => result == Err::<&Space, RefError>(RefError::InUse),
                Slot::Gone => result == Err::<&Space, RefError>(RefError::Gone),
            },
    {
        if r.index >= self.spaces.len() {
            return Err(RefError::Gone);
        }
        match &self.spaces[r.index] {
            Slot::Present(space) => Ok(space),
            Slot::InUse => Err(RefError::InUse),
            Slot::Gone => Err(RefError::Gone),
        }
    }
}

/// Puts one notification for each listener into the listener's mailbox.
/// A listener whose mailbox does not exist is passed over.
fn post_all(mailboxes: &mut Vec<Vec<BlockChange>>, listeners: &Vec<Listener>)
    ensures
        final(mailboxes)@.len() == old(mailboxes)@.len(),
        forall|m: int|
            0 <= m < old(mailboxes)@.len() ==> (#[trigger] final(mailboxes)@[m])@.len() == old(
                mailboxes,
            )@[m]@.len() + count_of(listeners@, m),
{
    let mut j: usize = 0;
    assert(listeners@.subrange(0, 0) =~= Seq::<Listener>::empty());
    while j < listeners.len()
        invariant
            j <= listeners@.len(),
            mailboxes@.len() == old(mailboxes)@.len(),
            forall|m: int|
                0 <= m < mailboxes@.len() ==> (#[trigger] mailboxes@[m])@.len() == old(
                    mailboxes,
                )@[m]@.len() + count_of(listeners@.subrange(0, j as int), m),
        decreases listeners@.len() - j,
    {
        let target = listeners[j].mailbox;
        if target < mailboxes.len() {
            mailboxes[target].push(BlockChange::new());
        }
        assert(listeners@.subrange(0, j + 1).drop_last() =~= listeners@.subrange(0, j as int));
        j += 1;
    }
    assert(listeners@.subrange(0, listeners@.len() as int) =~= listeners@);
}

impl Universe {
    /// Whether the listeners of definition `d` hear of a change at `source`.
    fn hears(&self, d: usize, source: Upstream) -> (heard: bool)
        requires
            d < self.definitions@.len(),
        ensures
            heard == notified(self@.definitions, d as int, source),
    {
        match &self.definitions[d] {
            Slot::Present(_) => {},
            _ => {
                return false;
            },
        }
        if source == Upstream::Definition(BlockDefRef { index: d }) {
            return true;
        }
        let n = self.definitions.len();
        let mut at: usize = d;
        let mut fuel: usize = n;
        loop
            invariant
                n == self.definitions@.len(),
                at < n,
                fuel <= n,
                follows(self@.definitions, at as int, source, fuel as nat) == notified(
                    self@.definitions,
                    d as int,
                    source,
                ),
            decreases fuel,
        {
            let upstream = match &self.definitions[at] {
                Slot::Present(definition) => definition.gate.upstream,
                _ => {
                    return false;
                },
            };
            match upstream {
                None => {
                    return false;
                },
                Some(next) => {
                    if next == source {
                        return true;
                    }
                    if fuel == 0 {
                        return false;
                    }
                    match next {
                        Upstream::Definition(r) => {
                            if r.index >= n {
                                assert(!follows(
                                    self@.definitions,
                                    r.index as int,
                                    source,
                                    (fuel - 1) as nat,
                                ));
                                return false;
                            }
                            at = r.index;
                            fuel -= 1;
                        },
                        Upstream::Space(_) => {
                            return false;
                        },
                    }
                },
            }
        }
    }

    /// Notifies all who hear of one change at `source`.
    fn deliver(&mut self, source: Upstream)
        requires
            old(self).wf(),
        ensures
            final(self).wf(),
            final(self)@ == old(self)@.delivered(source),
    {
        let n = self.definitions.len();
        let ghost before = self@;
        let mut d: usize = 0;
        while d < n
            invariant
                self.wf(),
                n == self.definitions@.len(),
                d <= n,
                self@.definitions == before.definitions,
                self@.names == before.names,
                self@.spaces == before.spaces,
                self@.mailboxes.len() == before.mailboxes.len(),
                forall|m: int|
                    0 <= m < before.mailboxes.len() ==> #[trigger] self@.mailboxes[m]
                        == before.mailboxes[m] + forwarded_first(
                        before.definitions,
                        m,
                        source,
                        d as int,
                    ),
            decreases n - d,
        {
            let ghost earlier = self@;
            if self.hears(d, source) {
                match &self.definitions[d] {
                    Slot::Present(definition) => {
                        post_all(&mut self.mailboxes, definition.notifier.listeners());
                    },
                    _ => {},
                }
            }
            proof {
                assert(self@.definitions =~= earlier.definitions);
                assert(self@.names =~= earlier.names);
                assert(self@.spaces =~= earlier.spaces);
                assert forall|m: int| 0 <= m < before.mailboxes.len() implies #[trigger] self@.mailboxes[m]
                    == before.mailboxes[m] + forwarded_first(
                    before.definitions,
                    m,
                    source,
                    d + 1,
                ) by {
                    assert(earlier.mailboxes[m] == before.mailboxes[m] + forwarded_first(
                        before.definitions,
                        m,
                        source,
                        d as int,
                    ));
                }
            }
            d += 1;
        }
        let ghost forwarded = self@;
        match source {
            Upstream::Space(r) => {
                if r.index < self.spaces.len() {
                    match &self.spaces[r.index] {
                        Slot::Present(space) => {
                            post_all(&mut self.mailboxes, space.notifier.listeners());
                        },
                        _ => {},
                    }
                }
            },
            Upstream::Definition(_) => {},
        }
        proof {
            assert(self@.definitions =~= before.definitions);
            assert(self@.names =~= before.names);
            assert(self@.spaces =~= before.spaces);
            assert forall|m: int| 0 <= m < before.mailboxes.len() implies #[trigger] self@.mailboxes[m]
                == before.mailboxes[m] + before.deliveries(m, source) by {
                assert(forwarded.mailboxes[m] == before.mailboxes[m] + forwarded_first(
                    before.definitions,
                    m,
                    source,
                    n as int,
                ));
            }
            assert(self@.mailboxes =~= before.delivered(source).mailboxes);
        }
    }

    /// Takes a space out of the universe for exclusive access. Until it is
    /// handed back, blocks that refer to it cannot be evaluated.
    pub fn take_space(&mut self, r: &SpaceRef) -> (result: Result<Space, RefError>)
        requires
            old(self).wf(),
        ensures
            final(self).wf(),
            match old(self)@.space(*r) {
                Slot::Present(space) => result is Ok && result->Ok_0@ == space
                    && result->Ok_0.wf() && final(self)@ == (UniverseView {
                    spaces: old(self)@.spaces.update(r.index as int, Slot::InUse),
                    ..old(self)@
                }),
                Slot::InUse => result is Err && result->Err_0 == RefError::InUse && final(self)@
                    == old(self)@,
                Slot::Gone => result is Err && result->Err_0 == RefError::Gone && final(self)@
                    == old(self)@,
            },
    {
        if r.index >= self.spaces.len() {
            return Err(RefError::Gone);
        }
        match &self.spaces[r.index] {
            Slot::Present(_) => {},
            Slot::InUse => {
                return Err(RefError::InUse);
            },
            Slot::Gone => {
                return Err(RefError::Gone);
            },
        }
        let mut slot = Slot::InUse;
        core::mem::swap(&mut self.spaces[r.index], &mut slot);
        proof {
            assert(self@.definitions =~= old(self)@.definitions);
            assert(self@.names =~= old(self)@.names);
            assert(self@.mailboxes =~= old(self)@.mailboxes);
            assert(self@.spaces =~= old(self)@.spaces.update(r.index as int, Slot::InUse));
        }
        match slot {
            Slot::Present(space) => Ok(space),
            _ => Err(RefError::Gone),
        }
    }

    /// Hands back a space that was taken out with [`Universe::take_space`].
    /// All who hear of the space are notified once for each change to its
    /// blocks that waited for announcement, and the changes of all kinds are
    /// handed out. Where the handle does not name a space that was taken
    /// out, nothing is done and the space comes back.
    pub fn restore_space(&mut self, r: &SpaceRef, space: Space) -> (result: Result<
        Vec<SpaceChange>,
        Space,
    >)
        requires
            old(self).wf(),
            space.wf(),
        ensures
            final(self).wf(),
            old(self)@.space(*r) is InUse ==> result is Ok && result->Ok_0@ == space@.changes
                && final(self)@ == old(self)@.restored(*r, space@),
            !(old(self)@.space(*r) is InUse) ==> result is Err && result->Err_0@ == space@
                && result->Err_0.wf() && final(self)@ == old(self)@,
    {
        if r.index >= self.spaces.len() {
            return Err(space);
        }
        match &self.spaces[r.index] {
            Slot::InUse => {},
            _ => {
                return Err(space);
            },
        }
        let mut space = space;
        let ghost given = space@;
        let changes = space.take_changes();
        let mut slot = Slot::Present(space);
        core::mem::swap(&mut self.spaces[r.index], &mut slot);
        let ghost stored = self@;
        proof {
            assert(stored.definitions =~= old(self)@.definitions);
            assert(stored.names =~= old(self)@.names);
            assert(stored.mailboxes =~= old(self)@.mailboxes);
            assert(stored.spaces =~= old(self)@.spaces.update(
                r.index as int,
                Slot::Present(SpaceView { changes: Seq::empty(), ..given }),
            ));
            assert(changes@.subrange(0, 0) =~= Seq::<SpaceChange>::empty());
        }
        let mut i: usize = 0;
        while i < changes.len()
            invariant
                self.wf(),
                i <= changes@.len(),
                self@ == stored.delivered_times(
                    Upstream::Space(*r),
                    block_changes(changes@.subrange(0, i as int)),
                ),
            decreases changes@.len() - i,
        {
            assert(changes@.subrange(0, i + 1).drop_last() =~= changes@.subrange(0, i as int));
            assert(changes@.subrange(0, i + 1).last() == changes@[i as int]);
            assert(block_changes(changes@.subrange(0, i as int)) >= 0) by {
                lemma_block_changes_counted(changes@.subrange(0, i as int));
            }
            if changes[i].touches_blocks() {
                self.deliver(Upstream::Space(*r));
            }
            i += 1;
        }
        assert(changes@.subrange(0, changes@.len() as int) =~= changes@);
        Ok(changes)
    }

    /// Removes a definition. Blocks that refer to it can no longer be
    /// evaluated. A definition that is held exclusively stays.
    pub fn remove_block_def(&mut self, r: &BlockDefRef) -> (result: Result<(), RefError>)
        requires
            old(self).wf(),
        ensures
            final(self).wf(),
            match old(self)@.definition(*r) {
                Slot::Present(_) => result is Ok && final(self)@ == (UniverseView {
                    definitions: old(self)@.definitions.update(r.index as int, Slot::Gone),
                    names: old(self)@.names.update(r.index as int, None),
                    ..old(self)@
                }),
                Slot::InUse => result == Err::<(), RefError>(RefError::InUse) && final(self)@
                    == old(self)@,
                Slot::Gone => result == Err::<(), RefError>(RefError::Gone) && final(self)@
                    == old(self)@,
            },
    {
        if r.index >= self.definitions.len() {
            return Err(RefError::Gone);
        }
        match &self.definitions[r.index] {
            Slot::Present(_) => {},
            Slot::InUse => {
                return Err(RefError::InUse);
            },
            Slot::Gone => {
                return Err(RefError::Gone);
            },
        }
        self.definitions[r.index] = Slot::Gone;
        self.names[r.index] = None;
        proof {
            assert(self@.definitions =~= old(self)@.definitions.update(r.index as int, Slot::Gone));
            assert(self@.names =~= old(self)@.names.update(r.index as int, None));
            assert(self@.mailboxes =~= old(self)@.mailboxes);
            assert(self@.spaces =~= old(self)@.spaces);
        }
        Ok(())
    }

    /// Removes a space. Blocks that refer to it can no longer be evaluated.
    /// A space that is held exclusively stays.
    pub fn remove_space(&mut self, r: &SpaceRef) -> (result: Result<(), RefError>)
        requires
            old(self).wf(),
        ensures
            final(self).wf(),
            match old(self)@.space(*r) {
                Slot::Present(_) => result is Ok && final(self)@ == (UniverseView {
                    spaces: old(self)@.spaces.update(r.index as int, Slot::Gone),
                    ..old(self)@
                }),
                Slot::InUse => result == Err::<(), RefError>(RefError::InUse) && final(self)@
                    == old(self)@,
                Slot::Gone => result == Err::<(), RefError>(RefError::Gone) && final(self)@
                    == old(self)@,
            },
    {
        if r.index >= self.spaces.len() {
            return Err(RefError::Gone);
        }
        match &self.spaces[r.index] {
            Slot::Present(_) => {},
            Slot::InUse => {
                return Err(RefError::InUse);
            },
            Slot::Gone => {
                return Err(RefError::Gone);
            },
        }
        self.spaces[r.index] = Slot::Gone;
        proof {
            assert(self@.definitions =~= old(self)@.definitions);
            assert(self@.names =~= old(self)@.names);
            assert(self@.mailboxes =~= old(self)@.mailboxes);
            assert(self@.spaces =~= old(self)@.spaces.update(r.index as int, Slot::Gone));
        }
        Ok(())
    }

    /// Begins an episode of changes to a definition, which is held
    /// exclusively until the episode is committed: blocks that refer to it
    /// cannot be evaluated or listened to meanwhile.
    pub fn modify(&mut self, r: &BlockDefRef) -> (result: Result<BlockDefMut, RefError>)
        requires
            old(self).wf(),
        ensures
            final(self).wf(),
            match old(self)@.definition(*r) {
                Slot::Present(definition) => result is Ok && result->Ok_0@ == (BlockDefMutView {
                    target: *r,
                    definition,
                }) && final(self)@ == (UniverseView {
                    definitions: old(self)@.definitions.update(r.index as int, Slot::InUse),
                    ..old(self)@
                }),
                Slot::InUse => result is Err && result->Err_0 == RefError::InUse && final(self)@
                    == old(self)@,
                Slot::Gone => result is Err && result->Err_0 == RefError::Gone && final(self)@
                    == old(self)@,
            },
    {
        if r.index >= self.definitions.len() {
            return Err(RefError::Gone);
        }
        match &self.definitions[r.index] {
            Slot::Present(_) => {},
            Slot::InUse => {
                return Err(RefError::InUse);
            },
            Slot::Gone => {
                return Err(RefError::Gone);
            },
        }
        let mut slot = Slot::InUse;
        core::mem::swap(&mut self.definitions[r.index], &mut slot);
        proof {
            assert(self@.definitions =~= old(self)@.definitions.update(r.index as int, Slot::InUse));
            assert(self@.names =~= old(self)@.names);
            assert(self@.mailboxes =~= old(self)@.mailboxes);
            assert(self@.spaces =~= old(self)@.spaces);
        }
        match slot {
            Slot::Present(definition) => Ok(definition.modify(*r)),
            _ => Err(RefError::Gone),
        }
    }

    /// Ends an episode of changes. In this order: the subscription that the
    /// definition had is dropped; the definition subscribes to what its
    /// block refers to now; the definition is stored again; and one
    /// notification goes to each listener that hears of the definition,
    /// however much was changed within the episode.
    ///
    /// A subscription that fails does not undo the change: the outcome
    /// names the error for the caller to report.
    pub fn commit(&mut self, handle: BlockDefMut) -> (outcome: Commit)
        requires
            old(self).wf(),
        ensures
            final(self).wf(),
            old(self)@.definition(handle@.target) is InUse ==> final(self)@ == old(self)@.committed(
                handle@,
            ) && outcome == (match old(self)@.subscription(handle@.definition.block) {
                Ok(_) => Commit::Complete,
                Err(error) => Commit::Degraded(error),
            }),
            !(old(self)@.definition(handle@.target) is InUse) ==> outcome == Commit::Foreign
                && final(self)@ == old(self)@,
    {
        let target = handle.target;
        if target.index >= self.definitions.len() {
            return Commit::Foreign;
        }
        match &self.definitions[target.index] {
            Slot::InUse => {},
            _ => {
                return Commit::Foreign;
            },
        }
        let mut definition = handle.definition;
        let source = self.source_of(&definition.block);
        let outcome = match source {
            Ok(upstream) => {
                definition.gate = Gate { upstream };
                Commit::Complete
            },
            Err(error) => {
                definition.gate = Gate::closed();
                Commit::Degraded(error)
            },
        };
        let ghost stored_definition = definition@;
        self.definitions[target.index] = Slot::Present(definition);
        proof {
            assert(self@.definitions =~= old(self)@.definitions.update(
                target.index as int,
                Slot::Present(stored_definition),
            ));
            assert(self@.names =~= old(self)@.names);
            assert(self@.mailboxes =~= old(self)@.mailboxes);
            assert(self@.spaces =~= old(self)@.spaces);
        }
        self.deliver(Upstream::Definition(target));
        outcome
    }

    /// Adds a listener to a source that is present.
    pub(crate) fn add_listener(&mut self, source: Upstream, listener: Listener)
        requires
            old(self).wf(),
        ensures
            final(self).wf(),
            final(self)@ == old(self)@.listening(source, listener),
    {
        match source {
            Upstream::Definition(r) => {
                if r.index >= self.definitions.len() {
                    return ;
                }
                let mut slot = Slot::InUse;
                core::mem::swap(&mut self.definitions[r.index], &mut slot);
                match slot {
                    Slot::Present(mut definition) => {
                        let _ = definition.listen(listener);
                        slot = Slot::Present(definition);
                    },
                    _ => {},
                }
                core::mem::swap(&mut self.definitions[r.index], &mut slot);
                proof {
                    assert(self@.definitions =~= old(self)@.listening(source, listener).definitions);
                    assert(self@.names =~= old(self)@.names);
                    assert(self@.mailboxes =~= old(self)@.mailboxes);
                    assert(self@.spaces =~= old(self)@.spaces);
                }
            },
            Upstream::Space(r) => {
                if r.index >= self.spaces.len() {
                    return ;
                }
                let mut slot = Slot::InUse;
                core::mem::swap(&mut self.spaces[r.index], &mut slot);
                match slot {
                    Slot::Present(mut space) => {
                        space.listen(listener);
                        slot = Slot::Present(space);
                    },
                    _ => {},
                }
                core::mem::swap(&mut self.spaces[r.index], &mut slot);
                proof {
                    assert(self@.definitions =~= old(self)@.definitions);
                    assert(self@.names =~= old(self)@.names);
                    assert(self@.mailboxes =~= old(self)@.mailboxes);
                    assert(self@.spaces =~= old(self)@.listening(source, listener).spaces);
                }
            },
        }
    }
}

} // verus!
