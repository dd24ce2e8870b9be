use all_is_cubes::block::{Block, BlockChange, BlockDef};
use all_is_cubes::color::Rgba;
use all_is_cubes::grid::GridPoint;
use all_is_cubes::listen::{Gate, Listener, Notifier, Sink, Upstream};
use all_is_cubes::space::{Space, SpaceChange};
use all_is_cubes::universe::{BlockDefRef, Commit, InsertError, RefError, SpaceRef, Universe};

fn change(universe: &mut Universe, r: &BlockDefRef, block: Block) -> Commit {
    let mut handle = universe.modify(r).unwrap();
    handle.set(block);
    universe.commit(handle)
}

#[test]
fn one_commit_is_one_notification() {
    let mut universe = Universe::new();
    let definition = BlockDef::new(Block::from(Rgba::white()), &universe);
    let r = universe.insert_block_def(definition);
    let sink = universe.new_sink();
    let other = universe.new_sink();
    Block::Indirect(r)
        .listen(&mut universe, sink.listener())
        .unwrap();
    assert_eq!(universe.sink_pending(&sink), 0);

    // However much is changed within the episode.
    let mut handle = universe.modify(&r).unwrap();
    assert_eq!(handle.target(), r);
    assert_eq!(handle.block(), &Block::from(Rgba::white()));
    handle.set(Block::from(Rgba::black()));
    handle.set(Block::from(Rgba::transparent()));
    handle.set(Block::from(Rgba::black()));
    assert_eq!(universe.sink_pending(&sink), 0);
    assert_eq!(universe.commit(handle), Commit::Complete);
    assert_eq!(universe.sink_pending(&sink), 1);
    assert_eq!(universe.sink_pending(&other), 0);
    assert_eq!(universe.sink_next(&sink), Some(BlockChange::new()));
    assert_eq!(universe.sink_next(&sink), None);

    // Even if nothing is changed.
    let handle = universe.modify(&r).unwrap();
    universe.commit(handle);
    assert_eq!(universe.sink_pending(&sink), 1);
    assert_eq!(
        universe.block_def(&r).unwrap().block(),
        &Block::from(Rgba::black())
    );
}

#[test]
fn a_listener_that_listens_twice_is_notified_twice() {
    let mut universe = Universe::new();
    let definition = BlockDef::new(Block::from(Rgba::white()), &universe);
    let r = universe.insert_block_def(definition);
    let sink = universe.new_sink();
    let block = Block::Indirect(r);
    block.listen(&mut universe, sink.listener()).unwrap();
    block.listen(&mut universe, sink.listener()).unwrap();
    change(&mut universe, &r, Block::from(Rgba::black()));
    assert_eq!(universe.sink_pending(&sink), 2);
}

#[test]
fn notifications_pass_along_a_chain_and_stop_where_it_is_cut() {
    let mut universe = Universe::new();
    let inner = universe.insert_block_def(BlockDef::new(Block::from(Rgba::white()), &universe));
    let middle = universe.insert_block_def(BlockDef::new(Block::Indirect(inner), &universe));
    let outer = universe.insert_block_def(BlockDef::new(Block::Indirect(middle), &universe));
    let at_outer = universe.new_sink();
    let at_middle = universe.new_sink();
    let at_inner = universe.new_sink();
    Block::Indirect(outer)
        .listen(&mut universe, at_outer.listener())
        .unwrap();
    Block::Indirect(middle)
        .listen(&mut universe, at_middle.listener())
        .unwrap();
    Block::Indirect(inner)
        .listen(&mut universe, at_inner.listener())
        .unwrap();

    change(&mut universe, &inner, Block::from(Rgba::black()));
    assert_eq!(universe.sink_pending(&at_outer), 1);
    assert_eq!(universe.sink_pending(&at_middle), 1);
    assert_eq!(universe.sink_pending(&at_inner), 1);

    change(&mut universe, &middle, Block::from(Rgba::black()));
    assert_eq!(universe.sink_pending(&at_outer), 2);
    assert_eq!(universe.sink_pending(&at_middle), 2);
    assert_eq!(universe.sink_pending(&at_inner), 1);

    // The middle no longer refers to the inner definition.
    change(&mut universe, &inner, Block::from(Rgba::white()));
    assert_eq!(universe.sink_pending(&at_outer), 2);
    assert_eq!(universe.sink_pending(&at_middle), 2);
    assert_eq!(universe.sink_pending(&at_inner), 2);

    // And follows it again after it was set to do so.
    change(&mut universe, &middle, Block::Indirect(inner));
    change(&mut universe, &inner, Block::from(Rgba::black()));
    assert_eq!(universe.sink_pending(&at_outer), 4);
    assert_eq!(universe.sink_pending(&at_middle), 4);
    assert_eq!(universe.sink_pending(&at_inner), 3);
}

#[test]
fn a_circle_of_definitions_notifies_each_listener_once() {
    let mut universe = Universe::new();
    let a = universe.insert_block_def(BlockDef::new(Block::from(Rgba::white()), &universe));
    let b = universe.insert_block_def(BlockDef::new(Block::Indirect(a), &universe));
    let at_a = universe.new_sink();
    let at_b = universe.new_sink();
    Block::Indirect(a)
        .listen(&mut universe, at_a.listener())
        .unwrap();
    Block::Indirect(b)
        .listen(&mut universe, at_b.listener())
        .unwrap();
    assert_eq!(change(&mut universe, &a, Block::Indirect(b)), Commit::Complete);
    assert_eq!(universe.sink_pending(&at_a), 1);
    assert_eq!(universe.sink_pending(&at_b), 1);
    change(&mut universe, &b, Block::Indirect(a));
    assert_eq!(universe.sink_pending(&at_a), 2);
    assert_eq!(universe.sink_pending(&at_b), 2);
}

#[test]
fn changes_of_a_space_are_announced_when_it_is_handed_back() {
    let mut universe = Universe::new();
    let space_ref = universe.insert_space(Space::empty_positive(2, 1, 1).unwrap());
    let voxels = Block::builder().voxels_ref(1, space_ref).build();
    let definition = universe.insert_block_def(BlockDef::new(voxels.clone(), &universe));
    let at_space = universe.new_sink();
    let at_definition = universe.new_sink();
    voxels.listen(&mut universe, at_space.listener()).unwrap();
    Block::Indirect(definition)
        .listen(&mut universe, at_definition.listener())
        .unwrap();

    let mut space = universe.take_space(&space_ref).unwrap();
    space
        .set(GridPoint::new(0, 0, 0), &Block::from(Rgba::white()), &universe)
        .unwrap();
    space
        .set(GridPoint::new(1, 0, 0), &Block::from(Rgba::white()), &universe)
        .unwrap();
    space
        .set(GridPoint::new(1, 0, 0), &Block::from(Rgba::white()), &universe)
        .unwrap();
    space.update_lighting_from_queue();
    assert_eq!(universe.sink_pending(&at_space), 0);
    let changes = universe.restore_space(&space_ref, space).unwrap();
    assert_eq!(
        changes,
        vec![
            SpaceChange::Block(GridPoint::new(0, 0, 0)),
            SpaceChange::Block(GridPoint::new(1, 0, 0)),
            SpaceChange::Lighting(GridPoint::new(1, 0, 0)),
            SpaceChange::Lighting(GridPoint::new(0, 0, 0)),
        ]
    );
    assert!(SpaceChange::Block(GridPoint::origin()).touches_blocks());
    assert!(SpaceChange::BlockValue(GridPoint::origin()).touches_blocks());
    assert!(!SpaceChange::Lighting(GridPoint::origin()).touches_blocks());
    // Two changes to blocks, none for light.
    assert_eq!(universe.sink_pending(&at_space), 2);
    assert_eq!(universe.sink_pending(&at_definition), 2);
    assert!(universe
        .space(&space_ref)
        .unwrap()
        .get_evaluated(GridPoint::origin())
        .opaque);

    // Handing back what was not taken does nothing.
    let stray = Space::empty_positive(1, 1, 1).unwrap();
    assert!(universe.restore_space(&space_ref, stray).is_err());
    let stray = Space::empty_positive(1, 1, 1).unwrap();
    assert!(universe
        .restore_space(&SpaceRef { index: 9 }, stray)
        .is_err());
    assert_eq!(universe.sink_pending(&at_space), 2);
}

#[test]
fn sinks_are_mailboxes() {
    let mut universe = Universe::new();
    let first = universe.new_sink();
    let second = universe.new_sink();
    assert_eq!(first, Sink { mailbox: 0 });
    assert_eq!(second.listener(), Listener { mailbox: 1 });
    assert_eq!(universe.sink_next(&first), None);
    assert_eq!(universe.sink_next(&Sink { mailbox: 5 }), None);
    assert_eq!(universe.sink_pending(&Sink { mailbox: 5 }), 0);

    // A listener without a mailbox is passed over.
    let r = universe.insert_block_def(BlockDef::new(Block::from(Rgba::white()), &universe));
    Block::Indirect(r)
        .listen(&mut universe, Listener { mailbox: 5 })
        .unwrap();
    Block::Indirect(r)
        .listen(&mut universe, second.listener())
        .unwrap();
    change(&mut universe, &r, Block::from(Rgba::black()));
    assert_eq!(universe.sink_pending(&first), 0);
    assert_eq!(universe.sink_pending(&second), 1);
}

#[test]
fn names_are_unique() {
    let mut universe = Universe::new();
    let a = universe
        .insert("a", BlockDef::new(Block::from(Rgba::white()), &universe))
        .unwrap();
    let b = universe
        .insert("b", BlockDef::new(Block::from(Rgba::white()), &universe))
        .unwrap();
    assert_ne!(a, b);
    assert_eq!(
        universe.insert("a", BlockDef::new(Block::from(Rgba::black()), &universe)),
        Err(InsertError::AlreadyExists)
    );
    // The name of a definition that was removed is free again.
    universe.remove_block_def(&a).unwrap();
    assert!(universe
        .insert("a", BlockDef::new(Block::from(Rgba::black()), &universe))
        .is_ok());
}

#[test]
fn handles_that_lead_nowhere() {
    let mut universe = Universe::new();
    let mut elsewhere = Universe::new();
    let r = elsewhere.insert_block_def(BlockDef::new(Block::from(Rgba::white()), &elsewhere));
    assert_eq!(universe.modify(&r).err(), Some(RefError::Gone));
    assert_eq!(universe.block_def(&r).err(), Some(RefError::Gone));
    assert_eq!(universe.remove_block_def(&r), Err(RefError::Gone));
    assert_eq!(
        universe.space(&SpaceRef { index: 0 }).err(),
        Some(RefError::Gone)
    );
    assert_eq!(
        universe.take_space(&SpaceRef { index: 0 }).err(),
        Some(RefError::Gone)
    );
    assert_eq!(
        universe.remove_space(&SpaceRef { index: 0 }),
        Err(RefError::Gone)
    );

    // A handle from another universe is not committed here.
    let handle = elsewhere.modify(&r).unwrap();
    assert_eq!(universe.commit(handle), Commit::Foreign);
    let here = universe.insert_block_def(BlockDef::new(Block::from(Rgba::white()), &universe));
    assert_eq!(here, r);
    let sink = universe.new_sink();
    Block::Indirect(here)
        .listen(&mut universe, sink.listener())
        .unwrap();
    let handle = elsewhere.modify(&r);
    assert_eq!(handle.err(), Some(RefError::InUse));
    assert_eq!(universe.sink_pending(&sink), 0);

    // A definition that is held cannot be removed.
    let handle = universe.modify(&here).unwrap();
    assert_eq!(universe.remove_block_def(&here), Err(RefError::InUse));
    let space_ref = universe.insert_space(Space::empty_positive(1, 1, 1).unwrap());
    let space = universe.take_space(&space_ref).unwrap();
    assert_eq!(universe.remove_space(&space_ref), Err(RefError::InUse));
    assert_eq!(universe.space(&space_ref).err(), Some(RefError::InUse));
    universe.restore_space(&space_ref, space).unwrap();
    universe.commit(handle);
}

#[test]
fn a_commit_is_degraded_where_the_block_leads_nowhere() {
    let mut universe = Universe::new();
    let r = universe.insert_block_def(BlockDef::new(Block::from(Rgba::white()), &universe));
    let sink = universe.new_sink();
    Block::Indirect(r)
        .listen(&mut universe, sink.listener())
        .unwrap();
    let gone = Block::Indirect(BlockDefRef { index: 40 });
    assert_eq!(
        change(&mut universe, &r, gone.clone()),
        Commit::Degraded(RefError::Gone)
    );
    // The block is stored and the listeners are notified all the same.
    assert_eq!(universe.block_def(&r).unwrap().block(), &gone);
    assert_eq!(universe.sink_pending(&sink), 1);
    assert_eq!(
        universe.source_of(&Block::Indirect(r)),
        Ok(Some(Upstream::Definition(r)))
    );
    assert_eq!(universe.source_of(&gone), Err(RefError::Gone));
    assert_eq!(universe.source_of(&Block::from(Rgba::white())), Ok(None));
}

#[test]
fn notifiers_and_gates() {
    let mut notifier = Notifier::new();
    assert!(notifier.listeners().is_empty());
    notifier.listen(Listener { mailbox: 3 });
    notifier.listen(Listener { mailbox: 1 });
    assert_eq!(
        notifier.listeners(),
        &vec![Listener { mailbox: 3 }, Listener { mailbox: 1 }]
    );
    assert_eq!(Gate::closed().upstream, None);
    let upstream = Upstream::Space(SpaceRef { index: 2 });
    assert_eq!(Gate::following(upstream).upstream, Some(upstream));

    let universe = Universe::new();
    let mut definition = BlockDef::new(Block::from(Rgba::white()), &universe);
    assert_eq!(definition.listen(Listener { mailbox: 0 }), Ok(()));
    let handle = definition.modify(BlockDefRef { index: 4 });
    assert_eq!(handle.target(), BlockDefRef { index: 4 });
}
