//! What the delivery of notifications amounts to for one listener: how many
//! notifications a mailbox gets when a definition or a space changes.

use crate::block::BlockDefMutView;
use crate::block::BlockDefView;
use crate::listen::Upstream;
use crate::space::SpaceView;
use crate::universe::block_changes;
use crate::universe::count_of;
use crate::universe::follows;
use crate::universe::forwarded_first;
use crate::universe::lemma_block_changes_counted;
use crate::universe::notified;
use crate::universe::BlockDefRef;
use crate::universe::Slot;
use crate::universe::SpaceRef;
use crate::universe::UniverseView;
use vstd::prelude::*;

verus! {

/// Whether no present definition other than `d` has the mailbox among its
/// listeners.
pub open spec fn no_other_definition_posts(
    definitions: Seq<Slot<BlockDefView>>,
    mailbox: int,
    d: int,
) -> bool {
    forall|i: int|
        0 <= i < definitions.len() && i != d ==> match #[trigger] definitions[i] {
            Slot::Present(definition) => count_of(definition.listeners, mailbox) == 0,
            _ => true,
        }
}

/// What reaches a mailbox through the definitions, where only definition
/// `d` has the mailbox among its listeners.
pub proof fn lemma_forwarded_through_one(
    definitions: Seq<Slot<BlockDefView>>,
    mailbox: int,
    source: Upstream,
    d: int,
    n: int,
)
    requires
        0 <= n <= definitions.len(),
        no_other_definition_posts(definitions, mailbox, d),
    ensures
        forwarded_first(definitions, mailbox, source, n) == (if 0 <= d < n && notified(
            definitions,
            d,
            source,
        ) {
            match definitions[d] {
                Slot::Present(definition) => count_of(definition.listeners, mailbox),
                _ => 0nat,
            }
        } else {
            0nat
        }),
    decreases n,
{
    if n > 0 {
        lemma_forwarded_through_one(definitions, mailbox, source, d, n - 1);
        if n - 1 != d {
            assert(match definitions[n - 1] {
                Slot::Present(definition) => count_of(definition.listeners, mailbox) == 0,
                _ => true,
            });
        }
    }
}

impl UniverseView {
    /// Delivering notifications changes the mailboxes and nothing else, and
    /// each mailbox gets the same number each time.
    pub proof fn lemma_delivered_times(self, source: Upstream, times: int, mailbox: int)
        requires
            0 <= times,
            0 <= mailbox < self.mailboxes.len(),
        ensures
            self.delivered_times(source, times).definitions == self.definitions,
            self.delivered_times(source, times).spaces == self.spaces,
            self.delivered_times(source, times).names == self.names,
            self.delivered_times(source, times).mailboxes.len() == self.mailboxes.len(),
            self.delivered_times(source, times).mailboxes[mailbox] == self.mailboxes[mailbox]
                + times * self.deliveries(mailbox, source),
        decreases times,
    {
        if times > 0 {
            self.lemma_delivered_times(source, times - 1, mailbox);
            let earlier = self.delivered_times(source, times - 1);
            assert(earlier.deliveries(mailbox, source) == self.deliveries(mailbox, source));
            assert(times * self.deliveries(mailbox, source) == (times - 1) * self.deliveries(
                mailbox,
                source,
            ) + self.deliveries(mailbox, source)) by (nonlinear_arith);
        } else {
            assert(times * self.deliveries(mailbox, source) == 0) by (nonlinear_arith)
                requires
                    times == 0,
            ;
        }
    }

    /// A mailbox that listens once to a definition, and to nothing else,
    /// gets exactly one notification when an episode of changes to that
    /// definition is committed, whatever was changed within the episode.
    pub proof fn lemma_commit_notifies_once(self, handle: BlockDefMutView, mailbox: int)
        requires
            self.definition(handle.target) is InUse,
            0 <= mailbox < self.mailboxes.len(),
            count_of(handle.definition.listeners, mailbox) == 1,
            no_other_definition_posts(self.definitions, mailbox, handle.target.index as int),
        ensures
            self.committed(handle).mailboxes[mailbox] == self.mailboxes[mailbox] + 1,
    {
        let target = handle.target.index as int;
        let stored = self.definitions.update(
            target,
            Slot::Present(
                BlockDefView { gate: self.gate_for(handle.definition.block), ..handle.definition },
            ),
        );
        assert(no_other_definition_posts(stored, mailbox, target)) by {
            assert forall|i: int| 0 <= i < stored.len() && i != target implies match #[trigger] stored[i] {
                Slot::Present(definition) => count_of(definition.listeners, mailbox) == 0,
                _ => true,
            } by {
                assert(stored[i] == self.definitions[i]);
            }
        }
        lemma_forwarded_through_one(
            stored,
            mailbox,
            Upstream::Definition(handle.target),
            target,
            stored.len() as int,
        );
    }

    /// Where a mailbox listens to one definition `outer` and to nothing
    /// else, the commit of an episode of changes to another definition
    /// brings it one notification for each time that it listens, if the
    /// gates lead from `outer` to the changed definition, and none
    /// otherwise.
    pub proof fn lemma_commit_reaches_followers(
        self,
        handle: BlockDefMutView,
        outer: BlockDefRef,
        mailbox: int,
    )
        requires
            self.definition(handle.target) is InUse,
            0 <= mailbox < self.mailboxes.len(),
            self.definition(outer) is Present,
            count_of(handle.definition.listeners, mailbox) == 0,
            no_other_definition_posts(self.definitions, mailbox, outer.index as int),
        ensures
            self.committed(handle).mailboxes[mailbox] == self.mailboxes[mailbox] + (if follows(
                self.committed(handle).definitions,
                outer.index as int,
                Upstream::Definition(handle.target),
                self.definitions.len(),
            ) {
                count_of(self.definition(outer)->Present_0.listeners, mailbox)
            } else {
                0nat
            }),
    {
        let target = handle.target.index as int;
        let stored = self.definitions.update(
            target,
            Slot::Present(
                BlockDefView { gate: self.gate_for(handle.definition.block), ..handle.definition },
            ),
        );
        assert(no_other_definition_posts(stored, mailbox, outer.index as int)) by {
            assert forall|i: int|
                0 <= i < stored.len() && i != outer.index as int implies match #[trigger] stored[i] {
                Slot::Present(definition) => count_of(definition.listeners, mailbox) == 0,
                _ => true,
            } by {
                if i != target {
                    assert(stored[i] == self.definitions[i]);
                }
            }
        }
        lemma_forwarded_through_one(
            stored,
            mailbox,
            Upstream::Definition(handle.target),
            outer.index as int,
            stored.len() as int,
        );
        assert(stored[outer.index as int] == self.definitions[outer.index as int]);
    }

    /// A listener of a definition hears of a change to the definition that
    /// its block refers to: where `outer` has a gate that follows the changed
    /// definition, a mailbox that listens once to `outer`, and to nothing
    /// else, gets exactly one notification.
    pub proof fn lemma_commit_heard_through_gate(
        self,
        handle: BlockDefMutView,
        outer: BlockDefRef,
        mailbox: int,
    )
        requires
            self.definition(handle.target) is InUse,
            0 <= mailbox < self.mailboxes.len(),
            self.definition(outer) matches Slot::Present(definition) && definition.gate.upstream
                == Some(Upstream::Definition(handle.target)) && count_of(
                definition.listeners,
                mailbox,
            ) == 1,
            count_of(handle.definition.listeners, mailbox) == 0,
            no_other_definition_posts(self.definitions, mailbox, outer.index as int),
        ensures
            self.committed(handle).mailboxes[mailbox] == self.mailboxes[mailbox] + 1,
    {
        self.lemma_commit_reaches_followers(handle, outer, mailbox);
        let after = self.committed(handle).definitions;
        assert(after[outer.index as int] == self.definitions[outer.index as int]);
    }

    /// A listener behind a chain of indirections hears of a change to the
    /// definition at the far end: where `outer` has a gate that follows a
    /// definition whose gate follows the changed one, a mailbox that listens
    /// once to `outer`, and to nothing else, gets exactly one notification.
    pub proof fn lemma_commit_heard_through_chain(
        self,
        handle: BlockDefMutView,
        middle: BlockDefRef,
        outer: BlockDefRef,
        mailbox: int,
    )
        requires
            self.definition(handle.target) is InUse,
            0 <= mailbox < self.mailboxes.len(),
            self.definition(outer) matches Slot::Present(definition) && definition.gate.upstream
                == Some(Upstream::Definition(middle)) && count_of(definition.listeners, mailbox)
                == 1,
            self.definition(middle) matches Slot::Present(definition) && definition.gate.upstream
                == Some(Upstream::Definition(handle.target)),
            count_of(handle.definition.listeners, mailbox) == 0,
            no_other_definition_posts(self.definitions, mailbox, outer.index as int),
        ensures
            self.committed(handle).mailboxes[mailbox] == self.mailboxes[mailbox] + 1,
    {
        self.lemma_commit_reaches_followers(handle, outer, mailbox);
        let after = self.committed(handle).definitions;
        let source = Upstream::Definition(handle.target);
        assert(after[middle.index as int] == self.definitions[middle.index as int]);
        assert(after[outer.index as int] == self.definitions[outer.index as int]);
        assert(follows(after, middle.index as int, source, (self.definitions.len() - 1) as nat));
        assert(follows(after, outer.index as int, source, self.definitions.len()));
    }

    /// A subscription that was given up is torn down, and not merely added
    /// to: where `outer` has a gate that is closed or follows something else
    /// than the changed definition and leads nowhere from there, a mailbox
    /// that listens to `outer` alone gets nothing when the other definition
    /// changes.
    pub proof fn lemma_commit_not_heard_without_gate(
        self,
        handle: BlockDefMutView,
        outer: BlockDefRef,
        mailbox: int,
    )
        requires
            self.definition(handle.target) is InUse,
            0 <= mailbox < self.mailboxes.len(),
            self.definition(outer) matches Slot::Present(definition) && definition.gate.upstream
                is None,
            count_of(handle.definition.listeners, mailbox) == 0,
            no_other_definition_posts(self.definitions, mailbox, outer.index as int),
        ensures
            self.committed(handle).mailboxes[mailbox] == self.mailboxes[mailbox],
    {
        self.lemma_commit_reaches_followers(handle, outer, mailbox);
        let after = self.committed(handle).definitions;
        assert(after[outer.index as int] == self.definitions[outer.index as int]);
    }

    /// The commit of an episode that leaves an atom in a definition closes
    /// the definition's gate: what it followed before is followed no more.
    pub proof fn lemma_commit_of_atom_closes_gate(self, handle: BlockDefMutView)
        requires
            self.definition(handle.target) is InUse,
            handle.definition.block is Atom,
        ensures
            self.committed(handle).definition(handle.target) matches Slot::Present(definition)
                && definition.gate.upstream is None && definition.block == handle.definition.block,
    {
    }

    /// A mailbox that listens once to a space, and to nothing else, gets
    /// one notification for each change to the blocks of the space when the
    /// space is handed back, and none for changes of light.
    pub proof fn lemma_restore_notifies_block_changes(
        self,
        r: SpaceRef,
        space: SpaceView,
        mailbox: int,
    )
        requires
            self.space(r) is InUse,
            0 <= mailbox < self.mailboxes.len(),
            count_of(space.listeners, mailbox) == 1,
            no_other_definition_posts(self.definitions, mailbox, -1),
        ensures
            self.restored(r, space).mailboxes[mailbox] == self.mailboxes[mailbox] + block_changes(
                space.changes,
            ),
    {
        let stored = UniverseView {
            spaces: self.spaces.update(
                r.index as int,
                Slot::Present(SpaceView { changes: Seq::empty(), ..space }),
            ),
            ..self
        };
        let source = Upstream::Space(r);
        lemma_block_changes_counted(space.changes);
        stored.lemma_delivered_times(source, block_changes(space.changes), mailbox);
        lemma_forwarded_through_one(
            stored.definitions,
            mailbox,
            source,
            -1,
            stored.definitions.len() as int,
        );
        assert(stored.deliveries(mailbox, source) == 1);
        assert(block_changes(space.changes) * 1 == block_changes(space.changes)) by (nonlinear_arith);
    }
}

} // verus!
