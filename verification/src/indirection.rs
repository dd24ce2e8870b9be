//! Chains of indirect blocks: that evaluation sees through a definition,
//! whatever the chain behind it looks like.

use crate::block::BlockView;
use crate::universe::BlockDefRef;
use crate::universe::RefError;
use crate::universe::Slot;
use crate::universe::UniverseView;
use vstd::prelude::*;
use vstd::set_lib::lemma_int_range;
use vstd::set_lib::lemma_len_subset;
use vstd::set_lib::set_int_range;

verus! {

impl UniverseView {
    /// The number of the definition that the block of definition `i` refers
    /// to, and -1 where `i` is no present definition or its block is not an
    /// indirect block to a present definition.
    pub open spec fn next_definition(self, i: int) -> int {
        if 0 <= i < self.definitions.len() {
            match self.definitions[i] {
                Slot::Present(definition) => match definition.block {
                    BlockView::Indirect(r) => if self.definition(r) is Present {
                        r.index as int
                    } else {
                        -1
                    },
                    _ => -1,
                },
                _ => -1,
            }
        } else {
            -1
        }
    }

    /// The definition that is reached from `start` by `steps` indirections,
    /// and -1 where the chain ends before that.
    pub open spec fn chain(self, start: int, steps: nat) -> int
        decreases steps,
    {
        if steps == 0 {
            start
        } else {
            self.chain(self.next_definition(start), (steps - 1) as nat)
        }
    }

    /// Whether the evaluation of a block runs out of fuel.
    pub open spec fn exhausted(self, block: BlockView, fuel: nat) -> bool
        decreases fuel,
    {
        match block {
            BlockView::Indirect(r) => match self.definition(r) {
                Slot::Present(definition) => fuel == 0 || self.exhausted(
                    definition.block,
                    (fuel - 1) as nat,
                ),
                _ => false,
            },
            _ => false,
        }
    }

    proof fn lemma_chain_range(self, start: int, steps: nat)
        requires
            steps > 0 || -1 <= start < self.definitions.len(),
        ensures
            -1 <= self.chain(start, steps) < self.definitions.len(),
        decreases steps,
    {
        if steps > 0 {
            self.lemma_chain_range(self.next_definition(start), (steps - 1) as nat);
        }
    }

    proof fn lemma_chain_ended(self, steps: nat)
        ensures
            self.chain(-1, steps) == -1,
        decreases steps,
    {
        if steps > 0 {
            self.lemma_chain_ended((steps - 1) as nat);
        }
    }

    proof fn lemma_chain_composes(self, start: int, first: nat, then: nat)
        ensures
            self.chain(start, first + then) == self.chain(self.chain(start, first), then),
        decreases first,
    {
        if first > 0 {
            self.lemma_chain_composes(self.next_definition(start), (first - 1) as nat, then);
        }
    }

    proof fn lemma_chain_prefix(self, start: int, shorter: nat, longer: nat)
        requires
            shorter <= longer,
            self.chain(start, longer) != -1,
        ensures
            self.chain(start, shorter) != -1,
    {
        self.lemma_chain_composes(start, shorter, (longer - shorter) as nat);
        self.lemma_chain_ended((longer - shorter) as nat);
    }

    proof fn lemma_exhausted_is_chain(self, d: int, fuel: nat)
        requires
            0 <= d < self.definitions.len(),
            self.definitions[d] is Present,
        ensures
            self.exhausted(self.definitions[d]->Present_0.block, fuel) <==> self.chain(
                d,
                fuel + 1,
            ) != -1,
        decreases fuel,
    {
        let next = self.next_definition(d);
        assert(self.chain(d, fuel + 1) == self.chain(next, fuel));
        if next == -1 {
            self.lemma_chain_ended(fuel);
        } else if fuel > 0 {
            self.lemma_exhausted_is_chain(next, (fuel - 1) as nat);
        }
    }

    proof fn lemma_exhausted_in_use(self, block: BlockView, fuel: nat)
        requires
            self.exhausted(block, fuel),
        ensures
            self.evaluate_within(block, fuel) == Err::<crate::block::EvaluatedBlockView, RefError>(
                RefError::InUse,
            ),
        decreases fuel,
    {
        if fuel > 0 {
            match block {
                BlockView::Indirect(r) => match self.definition(r) {
                    Slot::Present(definition) => {
                        self.lemma_exhausted_in_use(definition.block, (fuel - 1) as nat);
                    },
                    _ => {},
                },
                _ => {},
            }
        }
    }

    proof fn lemma_more_fuel(self, block: BlockView, fuel: nat)
        requires
            !self.exhausted(block, fuel),
        ensures
            self.evaluate_within(block, fuel + 1) == self.evaluate_within(block, fuel),
        decreases fuel,
    {
        match block {
            BlockView::Indirect(r) => match self.definition(r) {
                Slot::Present(definition) => {
                    if fuel > 0 {
                        self.lemma_more_fuel(definition.block, (fuel - 1) as nat);
                    }
                },
                _ => {},
            },
            _ => {},
        }
    }

    proof fn lemma_cycle_repeats(self, at: int, period: nat, times: nat)
        requires
            self.chain(at, period) == at,
        ensures
            self.chain(at, times * period) == at,
        decreases times,
    {
        if times > 0 {
            self.lemma_cycle_repeats(at, period, (times - 1) as nat);
            assert(times * period == (times - 1) * period + period) by (nonlinear_arith);
            self.lemma_chain_composes(at, ((times - 1) * period) as nat, period);
        } else {
            assert(times * period == 0) by (nonlinear_arith)
                requires
                    times == 0,
            ;
        }
    }

    /// A chain that passes as many indirections as there are definitions
    /// runs in a circle, and goes on for ever.
    proof fn lemma_long_chain_is_endless(self, d: int, steps: nat)
        requires
            0 <= d < self.definitions.len(),
            self.chain(d, self.definitions.len()) != -1,
        ensures
            self.chain(d, steps) != -1,
    {
        let n = self.definitions.len();
        let visited = Seq::new(n + 1, |k: int| self.chain(d, k as nat));
        assert forall|k: int| 0 <= k <= n implies 0 <= #[trigger] visited[k] < n by {
            self.lemma_chain_prefix(d, k as nat, n);
            self.lemma_chain_range(d, k as nat);
        }
        if visited.no_duplicates() {
            visited.unique_seq_to_set();
            lemma_int_range(0, n as int);
            assert(visited.to_set().subset_of(set_int_range(0, n as int))) by {
                assert forall|x: int| visited.to_set().contains(x) implies set_int_range(
                    0,
                    n as int,
                ).contains(x) by {
                    let k = choose|k: int| 0 <= k < visited.len() && visited[k] == x;
                    assert(0 <= visited[k] < n);
                }
            }
            lemma_len_subset(visited.to_set(), set_int_range(0, n as int));
            assert(false);
        }
        let (a, b) = choose|a: int, b: int|
            0 <= a < visited.len() && 0 <= b < visited.len() && a != b && visited[a] == visited[b];
        let i = if a < b {
            a
        } else {
            b
        };
        let j = if a < b {
            b
        } else {
            a
        };
        let at = visited[i];
        let period = (j - i) as nat;
        self.lemma_chain_composes(d, i as nat, period);
        assert(self.chain(at, period) == at);
        self.lemma_cycle_repeats(at, period, steps);
        assert(steps * period >= steps) by (nonlinear_arith)
            requires
                period >= 1,
                steps >= 0,
        ;
        self.lemma_chain_composes(d, i as nat, steps * period);
        self.lemma_chain_prefix(d, steps, i as nat + steps * period);
    }

    /// Opacity is judged with caution: a block of voxels that evaluates as
    /// opaque has no voxel, on its boundary or within, that is not fully
    /// opaque; and one that evaluates as not visible has no voxel that is
    /// not fully transparent.
    pub proof fn lemma_opaque_throughout(
        self,
        attributes: crate::block::BlockAttributesView,
        offset: crate::grid::GridPoint,
        resolution: crate::block::Resolution,
        space: crate::universe::SpaceRef,
        voxel: crate::grid::GridPoint,
    )
        requires
            self.evaluation(BlockView::Recur { attributes, offset, resolution, space }) is Ok,
            crate::grid::Grid::block_grid(resolution).contains(voxel),
        ensures
            ({
                let evaluated = self.evaluation(
                    BlockView::Recur { attributes, offset, resolution, space },
                )->Ok_0;
                &&& evaluated.voxels is Some
                &&& evaluated.voxels->0.grid == crate::grid::Grid::block_grid(resolution)
                &&& evaluated.opaque ==> evaluated.voxels->0.at(voxel).is_fully_opaque()
                &&& !evaluated.visible ==> evaluated.voxels->0.at(voxel).is_fully_transparent()
            }),
    {
        let grid = crate::grid::Grid::block_grid(resolution);
        grid.lemma_block_grid(resolution);
        grid.lemma_index_in_range(voxel.x as int, voxel.y as int, voxel.z as int);
        let evaluated = self.evaluation(
            BlockView::Recur { attributes, offset, resolution, space },
        )->Ok_0;
        let contents = evaluated.voxels->0.contents;
        assert(contents.len() == grid.cubes());
        if evaluated.opaque {
            assert(contents[grid.index_of(voxel)].is_fully_opaque());
        }
        if !evaluated.visible {
            assert(contents[grid.index_of(voxel)].is_fully_transparent());
        }
    }

    /// Indirection is transparent to evaluation: an indirect block evaluates
    /// to what the block of its definition evaluates to at that time,
    /// error for error.
    pub proof fn lemma_indirect_transparent(self, r: BlockDefRef)
        requires
            self.definition(r) is Present,
        ensures
            self.evaluation(BlockView::Indirect(r)) == self.evaluation(
                self.definition(r)->Present_0.block,
            ),
    {
        let n = self.definitions.len();
        let inner = self.definition(r)->Present_0.block;
        let short = (n - 1) as nat;
        assert(self.evaluation(BlockView::Indirect(r)) == self.evaluate_within(inner, short));
        if self.exhausted(inner, short) {
            self.lemma_exhausted_is_chain(r.index as int, short);
            self.lemma_long_chain_is_endless(r.index as int, n + 1);
            self.lemma_exhausted_is_chain(r.index as int, n);
            self.lemma_exhausted_in_use(inner, short);
            self.lemma_exhausted_in_use(inner, n);
        } else {
            self.lemma_more_fuel(inner, short);
        }
    }
}

} // verus!
