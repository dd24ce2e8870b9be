//! Incremental light propagation within a space: the queue of cubes whose
//! light is out of date, the rays that sample the light reaching a cube, and
//! the bounded step that works the queue off.

use crate::grid::Grid;
use crate::grid::GridPoint;
use crate::light::PackedLight;
use crate::light::PackedLightScalar;
use crate::space::Space;
use crate::space::SpaceChange;
use crate::space::SpaceStepInfo;
use crate::space::SpaceView;
use vstd::prelude::*;

verus! {

/// A queued instruction to recompute the light of one cube.
#[derive(Clone, Copy, Debug, PartialEq, Eq, Hash, Structural)]
pub struct LightUpdateRequest {
    pub priority: PackedLightScalar,
    pub cube: GridPoint,
}

impl LightUpdateRequest {
    /// The order in which requests wait: by priority, then by the `x`, `y`
    /// and `z` of the cube. The request that no other one follows is served
    /// first.
    pub open spec fn before(self, other: LightUpdateRequest) -> bool {
        self.priority < other.priority || (self.priority == other.priority && (self.cube.x
            < other.cube.x || (self.cube.x == other.cube.x && (self.cube.y < other.cube.y || (
        self.cube.y == other.cube.y && self.cube.z < other.cube.z)))))
    }

    /// Whether this request waits before `other`, which is then served
    /// sooner.
    pub fn precedes(&self, other: &LightUpdateRequest) -> (b: bool)
        ensures
            b == self.before(*other),
    {
        if self.priority != other.priority {
            self.priority < other.priority
        } else if self.cube.x != other.cube.x {
            self.cube.x < other.cube.x
        } else if self.cube.y != other.cube.y {
            self.cube.y < other.cube.y
        } else {
            self.cube.z < other.cube.z
        }
    }

    /// The order of requests is strict and total.
    pub proof fn lemma_order_total(a: LightUpdateRequest, b: LightUpdateRequest)
        ensures
            a.before(b) || b.before(a) || a == b,
            !(a.before(b) && b.before(a)),
            !a.before(a),
    {
    }

    /// The order of requests is transitive.
    pub proof fn lemma_order_transitive(
        a: LightUpdateRequest,
        b: LightUpdateRequest,
        c: LightUpdateRequest,
    )
        requires
            a.before(b),
            b.before(c),
        ensures
            a.before(c),
    {
    }
}

/// The number of requests that one step of light propagation serves at most.
pub const LIGHT_UPDATES_PER_STEP: usize = 120;

/// The number of rays that sample the light reaching one cube: a grid of
/// three by three through each of the six faces.
pub const RAYS_PER_CUBE: usize = 54;

/// The priority of the requests that a change of blocks makes.
pub const MAX_PRIORITY: PackedLightScalar = 255;

/// One of the rays that sample the light reaching a cube.
///
/// A ray starts in the cube a quarter of an edge behind the centre, as seen
/// from the face it leaves through, and advances by `direction` per unit of
/// time, with lengths counted in quarters of an edge. `first` holds, for each
/// axis along which the ray moves, the time at which it first crosses into a
/// neighbouring cube; it crosses again every four units after that.
#[derive(Clone, Copy, Debug, PartialEq, Eq, Hash, Structural)]
pub struct Ray {
    pub direction: GridPoint,
    pub first: GridPoint,
}

/// What a ray met.
#[derive(Clone, Copy, Debug, PartialEq, Eq, Hash, Structural)]
pub enum RayOutcome {
    /// The ray left the space without striking anything.
    Sky,
    /// The ray struck the opaque cube `struck`, coming from `previous`.
    Hit { struck: GridPoint, previous: GridPoint },
}

/// The sum of what the rays of one cube brought in, in colour units, with
/// the number of rays and the cubes that they struck.
pub struct LightSum {
    pub r: int,
    pub g: int,
    pub b: int,
    pub rays: int,
    pub dependencies: Seq<GridPoint>,
}

/// The state that a number of served requests leads to.
pub struct Drained {
    pub space: SpaceView,
    pub processed: int,
    pub max_difference: int,
}

impl Ray {
    /// Whether the ray is one that moves: every component of the direction
    /// is -1, 0 or 1 and not all are 0, and the first crossings are 2 or 3
    /// units away.
    pub open spec fn wf(self) -> bool {
        &&& -1 <= self.direction.x <= 1
        &&& -1 <= self.direction.y <= 1
        &&& -1 <= self.direction.z <= 1
        &&& self.direction.x != 0 || self.direction.y != 0 || self.direction.z != 0
        &&& 2 <= self.first.x <= 3
        &&& 2 <= self.first.y <= 3
        &&& 2 <= self.first.z <= 3
    }

    /// The `k`-th ray of a cube. The rays `9 f` to `9 f + 8` leave through
    /// face `f`, the faces being those towards negative `x`, `y`, `z` and
    /// then positive `x`, `y`, `z`. Along the axis of the face the ray moves
    /// outwards; along the other two it moves by each pair of -1, 0 and 1.
    pub open spec fn of(k: int) -> Ray {
        let face = k / 9;
        let sign: i32 = if face < 3 {
            -1i32
        } else {
            1i32
        };
        let a: i32 = ((k % 9) / 3 - 1) as i32;
        let b: i32 = (k % 3 - 1) as i32;
        if face % 3 == 0 {
            Ray {
                direction: GridPoint { x: sign, y: a, z: b },
                first: GridPoint { x: 3, y: 2, z: 2 },
            }
        } else if face % 3 == 1 {
            Ray {
                direction: GridPoint { x: b, y: sign, z: a },
                first: GridPoint { x: 2, y: 3, z: 2 },
            }
        } else {
            Ray {
                direction: GridPoint { x: a, y: b, z: sign },
                first: GridPoint { x: 2, y: 2, z: 3 },
            }
        }
    }

    /// The time of the next crossing along one axis, for a ray that has
    /// come from `start` to `at` along it.
    pub open spec fn crossing(first: int, direction: int, start: int, at: int) -> int {
        if direction > 0 {
            first + 4 * (at - start)
        } else {
            first + 4 * (start - at)
        }
    }

    /// Whether the next crossing along one axis comes before that along
    /// another: the first axis moves, and the other does not or crosses
    /// later.
    pub open spec fn sooner(
        direction_a: int,
        crossing_a: int,
        direction_b: int,
        crossing_b: int,
    ) -> bool {
        direction_a != 0 && (direction_b == 0 || crossing_a < crossing_b)
    }

    /// The axis (0, 1 or 2 for `x`, `y`, `z`) along which the ray from
    /// `start` next leaves the cube `at`. Where two crossings fall together,
    /// the later axis goes first.
    pub open spec fn next_axis(self, start: GridPoint, at: GridPoint) -> int {
        let tx = Ray::crossing(
            self.first.x as int,
            self.direction.x as int,
            start.x as int,
            at.x as int,
        );
        let ty = Ray::crossing(
            self.first.y as int,
            self.direction.y as int,
            start.y as int,
            at.y as int,
        );
        let tz = Ray::crossing(
            self.first.z as int,
            self.direction.z as int,
            start.z as int,
            at.z as int,
        );
        if Ray::sooner(self.direction.x as int, tx, self.direction.y as int, ty) {
            if Ray::sooner(self.direction.x as int, tx, self.direction.z as int, tz) {
                0
            } else {
                2
            }
        } else {
            if Ray::sooner(self.direction.y as int, ty, self.direction.z as int, tz) {
                1
            } else {
                2
            }
        }
    }

    /// The cube that the ray from `start` enters when it leaves `at`.
    pub open spec fn next_cube(self, start: GridPoint, at: GridPoint) -> GridPoint {
        let axis = self.next_axis(start, at);
        if axis == 0 {
            GridPoint { x: (at.x + self.direction.x) as i32, ..at }
        } else if axis == 1 {
            GridPoint { y: (at.y + self.direction.y) as i32, ..at }
        } else {
            GridPoint { z: (at.z + self.direction.z) as i32, ..at }
        }
    }

    /// The number of cubes that the ray can still pass along one axis before
    /// it has left the range from `lower` on of length `extent`.
    pub open spec fn room(direction: int, lower: int, extent: int, at: int) -> int {
        if direction > 0 {
            lower + extent - 1 - at
        } else if direction < 0 {
            at - lower
        } else {
            0
        }
    }

    /// A bound on the number of cubes of `grid` that the ray can still enter
    /// from `at`.
    pub open spec fn reach(self, grid: Grid, at: GridPoint) -> int {
        Ray::room(
            self.direction.x as int,
            grid.lower().x as int,
            grid.extent().x as int,
            at.x as int,
        ) + Ray::room(
            self.direction.y as int,
            grid.lower().y as int,
            grid.extent().y as int,
            at.y as int,
        ) + Ray::room(
            self.direction.z as int,
            grid.lower().z as int,
            grid.extent().z as int,
            at.z as int,
        )
    }

    /// A step within a grid uses up one cube of the room that the ray has.
    pub proof fn lemma_step_uses_room(self, grid: Grid, start: GridPoint, at: GridPoint)
        requires
            self.wf(),
            grid.wf(),
            grid.contains(at),
            grid.contains(self.next_cube(start, at)),
        ensures
            0 <= self.reach(grid, self.next_cube(start, at)) == self.reach(grid, at) - 1,
    {
        let axis = self.next_axis(start, at);
        if axis == 0 {
            assert(self.direction.x != 0);
        } else if axis == 1 {
            assert(self.direction.y != 0);
        } else {
            assert(self.direction.z != 0);
        }
    }

    /// The `k`-th ray of a cube.
    pub fn new(k: usize) -> (ray: Ray)
        requires
            k < RAYS_PER_CUBE,
        ensures
            ray == Ray::of(k as int),
            ray.wf(),
    {
        let face = k / 9;
        let sign: i32 = if face < 3 { -1 } else { 1 };
        let a: i32 = ((k % 9) / 3) as i32 - 1;
        let b: i32 = (k % 3) as i32 - 1;
        if face % 3 == 0 {
            Ray {
                direction: GridPoint { x: sign, y: a, z: b },
                first: GridPoint { x: 3, y: 2, z: 2 },
            }
        } else if face % 3 == 1 {
            Ray {
                direction: GridPoint { x: b, y: sign, z: a },
                first: GridPoint { x: 2, y: 3, z: 2 },
            }
        } else {
            Ray {
                direction: GridPoint { x: a, y: b, z: sign },
                first: GridPoint { x: 2, y: 2, z: 3 },
            }
        }
    }

    /// The cube that the ray from `start` enters when it leaves `at`.
    pub fn step(&self, start: GridPoint, at: GridPoint) -> (next: GridPoint)
        requires
            self.wf(),
            -1073741824 <= start.x <= 1073741824,
            -1073741824 <= start.y <= 1073741824,
            -1073741824 <= start.z <= 1073741824,
            -1073741824 <= at.x <= 1073741824,
            -1073741824 <= at.y <= 1073741824,
            -1073741824 <= at.z <= 1073741824,
        ensures
            next == self.next_cube(start, at),
    {
        let tx = crossing_time(self.first.x, self.direction.x, start.x, at.x);
        let ty = crossing_time(self.first.y, self.direction.y, start.y, at.y);
        let tz = crossing_time(self.first.z, self.direction.z, start.z, at.z);
        let x_before_y = self.direction.x != 0 && (self.direction.y == 0 || tx < ty);
        if x_before_y {
            if self.direction.x != 0 && (self.direction.z == 0 || tx < tz) {
                GridPoint { x: at.x + self.direction.x, y: at.y, z: at.z }
            } else {
                GridPoint { x: at.x, y: at.y, z: at.z + self.direction.z }
            }
        } else {
            if self.direction.y != 0 && (self.direction.z == 0 || ty < tz) {
                GridPoint { x: at.x, y: at.y + self.direction.y, z: at.z }
            } else {
                GridPoint { x: at.x, y: at.y, z: at.z + self.direction.z }
            }
        }
    }
}

fn crossing_time(first: i32, direction: i32, start: i32, at: i32) -> (t: i64)
    requires
        2 <= first <= 3,
        -1073741824 <= start <= 1073741824,
        -1073741824 <= at <= 1073741824,
    ensures
        t == Ray::crossing(first as int, direction as int, start as int, at as int),
{
    if direction > 0 {
        first as i64 + 4 * (at as i64 - start as i64)
    } else {
        first as i64 + 4 * (start as i64 - at as i64)
    }
}

impl SpaceView {
    /// The place at which a request enters a queue: behind the requests that
    /// are before it, and before all others.
    pub open spec fn insert_position(
        queue: Seq<LightUpdateRequest>,
        request: LightUpdateRequest,
    ) -> int
        decreases queue.len(),
    {
        if queue.len() == 0 || queue.last().before(request) {
            queue.len() as int
        } else {
            SpaceView::insert_position(queue.drop_last(), request)
        }
    }

    /// The space after a request to update the light of a cube. A request
    /// for a cube outside of the grid, or for one for which a request waits
    /// already, is dropped.
    pub open spec fn enqueue(self, cube: GridPoint, priority: PackedLightScalar) -> SpaceView {
        if self.grid.contains(cube) && !self.queued(cube) {
            let request = LightUpdateRequest { priority, cube };
            SpaceView {
                queue: self.queue.insert(SpaceView::insert_position(self.queue, request), request),
                ..self
            }
        } else {
            self
        }
    }

    /// The space after requests to update the light of the first `n` of the
    /// given cubes, in their order.
    pub open spec fn enqueue_first(
        self,
        cubes: Seq<GridPoint>,
        priority: PackedLightScalar,
        n: int,
    ) -> SpaceView
        decreases n,
    {
        if n <= 0 {
            self
        } else {
            self.enqueue_first(cubes, priority, n - 1).enqueue(cubes[n - 1], priority)
        }
    }

    /// The space after requests to update the light of each of the given
    /// cubes, in their order.
    pub open spec fn enqueue_all(self, cubes: Seq<GridPoint>, priority: PackedLightScalar) -> SpaceView {
        self.enqueue_first(cubes, priority, cubes.len() as int)
    }

    /// Where a request enters a queue lies within the queue or at its end.
    pub proof fn lemma_insert_position_in_range(
        queue: Seq<LightUpdateRequest>,
        request: LightUpdateRequest,
    )
        ensures
            0 <= SpaceView::insert_position(queue, request) <= queue.len(),
        decreases queue.len(),
    {
        if queue.len() == 0 || queue.last().before(request) {
        } else {
            SpaceView::lemma_insert_position_in_range(queue.drop_last(), request);
        }
    }

    /// A request leaves the invariant of the space in place, and after it a
    /// request for the cube waits if the grid has the cube.
    pub proof fn lemma_enqueue_wf(self, cube: GridPoint, priority: PackedLightScalar)
        requires
            self.wf(),
        ensures
            self.enqueue(cube, priority).wf(),
            self.grid.contains(cube) ==> self.enqueue(cube, priority).queued(cube),
            forall|other: GridPoint|
                other != cube ==> (self.enqueue(cube, priority).queued(other) <==> self.queued(other)),
    {
        let after = self.enqueue(cube, priority);
        if self.grid.contains(cube) && !self.queued(cube) {
            let request = LightUpdateRequest { priority, cube };
            let p = SpaceView::insert_position(self.queue, request);
            SpaceView::lemma_insert_position_in_range(self.queue, request);
            SpaceView::lemma_insert_position_splits(self.queue, request);
            self.queue.insert_ensures(p, request);
            assert forall|k: int| p <= k < self.queue.len() implies request.before(
                #[trigger] self.queue[k],
            ) by {
                LightUpdateRequest::lemma_order_total(request, self.queue[k]);
                assert(self.queue[k].cube != cube);
            }
            assert forall|j: int, k: int| 0 <= j < k < after.queue.len() implies (
            #[trigger] after.queue[j]).before(#[trigger] after.queue[k]) && after.queue[j].cube
                != after.queue[k].cube by {
                let a = if j < p {
                    j
                } else {
                    j - 1
                };
                let b = if k < p {
                    k
                } else {
                    k - 1
                };
                if j != p {
                    assert(after.queue[j] == self.queue[a]);
                }
                if k != p {
                    assert(after.queue[k] == self.queue[b]);
                }
                if j != p && k != p {
                    assert(self.queue[a].before(self.queue[b]));
                } else if j == p {
                    assert(request.before(self.queue[b]));
                } else {
                    assert(self.queue[a].before(request));
                }
            }
            assert forall|k: int| 0 <= k < after.queue.len() implies after.grid.contains(
                #[trigger] after.queue[k].cube,
            ) by {
                if k < p {
                    assert(after.queue[k] == self.queue[k]);
                } else if k > p {
                    assert(after.queue[k] == self.queue[k - 1]);
                }
            }
            assert(after.queue[p].cube == cube);
            assert forall|other: GridPoint| other != cube implies (after.queued(other)
                <==> self.queued(other)) by {
                if self.queued(other) {
                    let k = choose|k: int|
                        0 <= k < self.queue.len() && (#[trigger] self.queue[k]).cube == other;
                    if k < p {
                        assert(after.queue[k] == self.queue[k]);
                    } else {
                        assert(after.queue[k + 1] == self.queue[k]);
                    }
                }
                if after.queued(other) {
                    let k = choose|k: int|
                        0 <= k < after.queue.len() && (#[trigger] after.queue[k]).cube == other;
                    if k < p {
                        assert(after.queue[k] == self.queue[k]);
                    } else {
                        assert(after.queue[k] == self.queue[k - 1]);
                    }
                }
            }
        } else {
        }
    }

    /// Where a request enters a queue in serving order, the requests in
    /// front of it are before it and those behind it are not.
    pub proof fn lemma_insert_position_splits(
        queue: Seq<LightUpdateRequest>,
        request: LightUpdateRequest,
    )
        requires
            forall|j: int, k: int|
                0 <= j < k < queue.len() ==> (#[trigger] queue[j]).before(#[trigger] queue[k]),
        ensures
            forall|k: int|
                0 <= k < SpaceView::insert_position(queue, request) ==> (#[trigger] queue[k]).before(
                    request,
                ),
            forall|k: int|
                SpaceView::insert_position(queue, request) <= k < queue.len() ==> !(
                #[trigger] queue[k]).before(request),
        decreases queue.len(),
    {
        if queue.len() == 0 {
        } else if queue.last().before(request) {
            assert forall|k: int| 0 <= k < queue.len() implies (#[trigger] queue[k]).before(
                request,
            ) by {
                if k < queue.len() - 1 {
                    assert(queue[k].before(queue[queue.len() - 1]));
                    LightUpdateRequest::lemma_order_transitive(queue[k], queue.last(), request);
                }
            }
        } else {
            let shorter = queue.drop_last();
            assert forall|j: int, k: int| 0 <= j < k < shorter.len() implies (
            #[trigger] shorter[j]).before(#[trigger] shorter[k]) by {
                assert(queue[j].before(queue[k]));
            }
            SpaceView::lemma_insert_position_splits(shorter, request);
            SpaceView::lemma_insert_position_in_range(shorter, request);
            assert forall|k: int|
                0 <= k < SpaceView::insert_position(queue, request) implies (
            #[trigger] queue[k]).before(request) by {
                assert(shorter[k] == queue[k]);
            }
            assert forall|k: int|
                SpaceView::insert_position(queue, request) <= k < queue.len() implies !(
            #[trigger] queue[k]).before(request) by {
                if k < queue.len() - 1 {
                    assert(shorter[k] == queue[k]);
                }
            }
        }
    }

    /// A second request for a cube changes nothing while the first one
    /// waits: the queue holds at most one request for each cube.
    pub proof fn lemma_enqueue_twice(
        self,
        cube: GridPoint,
        first: PackedLightScalar,
        second: PackedLightScalar,
    )
        requires
            self.wf(),
        ensures
            self.enqueue(cube, first).enqueue(cube, second) == self.enqueue(cube, first),
            self.grid.contains(cube) && !self.queued(cube) ==> self.enqueue(cube, first).queue.len()
                == self.queue.len() + 1,
            self.enqueue(cube, first).enqueue(cube, second).queue.len() <= self.queue.len() + 1,
    {
        self.lemma_enqueue_wf(cube, first);
        if self.grid.contains(cube) && !self.queued(cube) {
            let request = LightUpdateRequest { priority: first, cube };
            SpaceView::lemma_insert_position_in_range(self.queue, request);
            self.queue.insert_ensures(SpaceView::insert_position(self.queue, request), request);
        }
    }
}

impl Space {
    /// Requests that the light of a cube be recomputed. The request is
    /// dropped if the cube lies outside of the grid or a request for it
    /// waits already, whatever the priority of either.
    pub fn light_needs_update(&mut self, cube: GridPoint, priority: PackedLightScalar)
        requires
            old(self).wf(),
        ensures
            final(self).wf(),
            final(self)@ == old(self)@.enqueue(cube, priority),
            final(self)@ == (SpaceView { queue: final(self)@.queue, ..old(self)@ }),
    {
        let index = match self.grid.index(cube) {
            Some(index) => index,
            None => {
                return ;
            },
        };
        proof {
            self.grid.lemma_point_at_index(cube);
        }
        if self.queued[index] {
            return ;
        }
        let request = LightUpdateRequest { priority, cube };
        let mut position: usize = self.queue.len();
        assert(self.queue@.subrange(0, position as int) =~= self.queue@);
        while position > 0 && !self.queue[position - 1].precedes(&request)
            invariant
                position <= self.queue@.len(),
                SpaceView::insert_position(self.queue@, request) == SpaceView::insert_position(
                    self.queue@.subrange(0, position as int),
                    request,
                ),
            decreases position,
        {
            assert(self.queue@.subrange(0, position as int).drop_last() =~= self.queue@.subrange(
                0,
                position - 1,
            ));
            position -= 1;
        }
        proof {
            self@.lemma_enqueue_wf(cube, priority);
            let before = self@;
            let after = before.enqueue(cube, priority);
            assert forall|i: int| 0 <= i < self.queued@.len() implies (#[trigger] self.queued@.update(
                index as int,
                true,
            )[i] <==> after.queued(self.grid.point_at(i))) by {
                if i != index {
                    self.grid.lemma_index_of_point(i);
                    assert(self.queued@[i] <==> before.queued(self.grid.point_at(i)));
                }
            }
        }
        self.queue.insert(position, request);
        self.queued[index] = true;
        assert(self@.queue == old(self)@.enqueue(cube, priority).queue);
        assert(self@ == old(self)@.enqueue(cube, priority));
    }
}

impl SpaceView {
    /// Whether the cached evaluation of the block at a cube is opaque.
    pub open spec fn opaque_at(self, cube: GridPoint) -> bool {
        self.evaluated_at(cube).opaque
    }

    /// What the ray from `start` meets after it has come to `at` through
    /// cubes that are not opaque: the first opaque cube on its way, with the
    /// cube before it, or the sky where it leaves the grid first.
    pub open spec fn walk(self, ray: Ray, start: GridPoint, at: GridPoint) -> RayOutcome
        decreases ray.reach(self.grid, at),
    {
        let next = ray.next_cube(start, at);
        if !ray.wf() || !self.grid.wf() || !self.grid.contains(at) || !self.grid.contains(next) {
            RayOutcome::Sky
        } else if self.opaque_at(next) {
            RayOutcome::Hit { struck: next, previous: at }
        } else {
            proof {
                ray.lemma_step_uses_room(self.grid, start, at);
            }
            self.walk(ray, start, next)
        }
    }

    /// The light that one ray brings in, in colour units: what the struck
    /// cube emits and the stored light of the cube before it, or the light
    /// of the sky.
    pub open spec fn ray_light(self, outcome: RayOutcome) -> (int, int, int) {
        match outcome {
            RayOutcome::Sky => (65536, 65536, 65536),
            RayOutcome::Hit { struck, previous } => {
                let emission = self.evaluated_at(struck).attributes.light_emission;
                let light = self.light_at(previous);
                (emission.r + light.r * 1024, emission.g + light.g * 1024, emission.b + light.b * 1024)
            },
        }
    }

    /// The sum of what the first `n` rays of a cube bring in.
    pub open spec fn incoming_first(self, cube: GridPoint, n: int) -> LightSum
        decreases n,
    {
        if n <= 0 {
            LightSum { r: 0, g: 0, b: 0, rays: 0, dependencies: Seq::empty() }
        } else {
            let sum = self.incoming_first(cube, n - 1);
            let outcome = self.walk(Ray::of(n - 1), cube, cube);
            let light = self.ray_light(outcome);
            LightSum {
                r: sum.r + light.0,
                g: sum.g + light.1,
                b: sum.b + light.2,
                rays: sum.rays + 1,
                dependencies: match outcome {
                    RayOutcome::Sky => sum.dependencies,
                    RayOutcome::Hit { struck, previous } => sum.dependencies.push(struck),
                },
            }
        }
    }

    /// The sum of the light that reaches a cube. A cube whose block is
    /// opaque is dark inside: it has one sample, which brings nothing.
    pub open spec fn incoming(self, cube: GridPoint) -> LightSum {
        if self.opaque_at(cube) {
            LightSum { r: 0, g: 0, b: 0, rays: 1, dependencies: Seq::empty() }
        } else {
            self.incoming_first(cube, 54)
        }
    }

    /// One channel of the mean of a sum over a number of rays, in colour
    /// units. A sum that is not positive has the mean zero.
    pub open spec fn mean(sum: int, rays: int) -> int {
        if sum <= 0 || rays <= 0 {
            0
        } else {
            sum / rays
        }
    }

    /// The light that a cube has by what reaches it now.
    pub open spec fn computed_light(self, cube: GridPoint) -> PackedLight {
        let sum = self.incoming(cube);
        PackedLight::pack(
            SpaceView::mean(sum.r, sum.rays),
            SpaceView::mean(sum.g, sum.rays),
            SpaceView::mean(sum.b, sum.rays),
        )
    }

    /// By how much the light of a cube differs from what reaches it now.
    pub open spec fn light_difference(self, cube: GridPoint) -> int {
        self.computed_light(cube).difference(self.light_at(cube))
    }

    /// The space after the light of a cube of the grid was recomputed. Where
    /// the stored value differs, the new one is stored, the change is noted,
    /// and an update is requested for every cube that a ray struck, with the
    /// difference as priority.
    pub open spec fn recompute(self, cube: GridPoint) -> SpaceView {
        let difference = self.light_difference(cube);
        if difference == 0 {
            self
        } else {
            (SpaceView {
                lighting: self.lighting.update(self.grid.index_of(cube), self.computed_light(cube)),
                changes: self.changes.push(SpaceChange::Lighting(cube)),
                ..self
            }).enqueue_all(self.incoming(cube).dependencies, difference as u8)
        }
    }

    /// The state after at most `n` requests were served, each the last of
    /// the queue at its time.
    pub open spec fn drain_first(self, n: int) -> Drained
        decreases n,
    {
        if n <= 0 {
            Drained { space: self, processed: 0, max_difference: 0 }
        } else {
            let earlier = self.drain_first(n - 1);
            if earlier.space.queue.len() == 0 {
                earlier
            } else {
                let request = earlier.space.queue.last();
                let taken = SpaceView { queue: earlier.space.queue.drop_last(), ..earlier.space };
                Drained {
                    space: taken.recompute(request.cube),
                    processed: earlier.processed + 1,
                    max_difference: crate::light::max_int(
                        earlier.max_difference,
                        taken.light_difference(request.cube),
                    ),
                }
            }
        }
    }
}

impl SpaceView {
    /// Outside of the grid every ray is in the sky at once.
    proof fn lemma_outside_incoming(self, cube: GridPoint, n: int)
        requires
            0 <= n,
            !self.grid.contains(cube),
        ensures
            self.incoming_first(cube, n) == (LightSum {
                r: n * 65536,
                g: n * 65536,
                b: n * 65536,
                rays: n,
                dependencies: Seq::empty(),
            }),
        decreases n,
    {
        if n > 0 {
            self.lemma_outside_incoming(cube, n - 1);
            assert(self.walk(Ray::of(n - 1), cube, cube) == RayOutcome::Sky);
        }
    }

    /// A cube outside of the grid is lit by the sky, and recomputing its
    /// light finds nothing to change.
    pub proof fn lemma_outside_is_sky(self, cube: GridPoint)
        requires
            !self.grid.contains(cube),
        ensures
            self.computed_light(cube) == PackedLight::sky_spec(),
            self.light_difference(cube) == 0,
            self.recompute(cube) == self,
    {
        self.lemma_outside_incoming(cube, 54);
    }

    /// Once the queue is empty, serving more requests changes nothing.
    pub proof fn lemma_drain_settled(self, served: int, n: int)
        requires
            0 <= served <= n,
            self.drain_first(served).space.queue.len() == 0,
        ensures
            self.drain_first(n) == self.drain_first(served),
        decreases n,
    {
        if n > served {
            self.lemma_drain_settled(served, n - 1);
        }
    }

    /// A step serves no more requests than it is allowed.
    pub proof fn lemma_drain_bounded(self, n: int)
        requires
            0 <= n,
        ensures
            0 <= self.drain_first(n).processed <= n,
            self.drain_first(n).processed < n ==> self.drain_first(n).space.queue.len() == 0,
        decreases n,
    {
        if n > 0 {
            self.lemma_drain_bounded(n - 1);
        }
    }
}

impl Space {
    fn cast_ray(&self, ray: Ray, start: GridPoint) -> (outcome: RayOutcome)
        requires
            self.wf(),
            ray.wf(),
            self@.grid.contains(start),
        ensures
            outcome == self@.walk(ray, start, start),
    {
        let mut at = start;
        loop
            invariant
                self.wf(),
                ray.wf(),
                self@.grid.contains(start),
                self@.grid.contains(at),
                self@.walk(ray, start, at) == self@.walk(ray, start, start),
            decreases ray.reach(self.grid, at),
        {
            let next = ray.step(start, at);
            if !self.grid.contains_cube(next) {
                return RayOutcome::Sky;
            }
            if self.get_evaluated(next).opaque {
                return RayOutcome::Hit { struck: next, previous: at };
            }
            proof {
                ray.lemma_step_uses_room(self.grid, start, at);
            }
            at = next;
        }
    }

    /// Recomputes the light of a cube from what reaches it now, and returns
    /// by how much the stored value was off.
    ///
    /// Where the value changed, it is stored, the change is noted for
    /// announcement, and an update is requested for every cube that a ray
    /// struck, with the difference as priority. A cube outside of the grid
    /// is lit by the sky, and nothing changes for it.
    pub fn update_lighting_now_on(&mut self, cube: GridPoint) -> (difference: PackedLightScalar)
        requires
            old(self).wf(),
        ensures
            final(self).wf(),
            final(self)@ == old(self)@.recompute(cube),
            difference == old(self)@.light_difference(cube),
            final(self)@.grid == old(self)@.grid,
            final(self)@.blocks == old(self)@.blocks,
            final(self)@.evaluated == old(self)@.evaluated,
            final(self)@.listeners == old(self)@.listeners,
    {
        if !self.grid.contains_cube(cube) {
            proof {
                self@.lemma_outside_is_sky(cube);
            }
            return 0;
        }
        proof {
            old(self)@.lemma_recompute_wf(cube);
        }
        let mut r: i64 = 0;
        let mut g: i64 = 0;
        let mut b: i64 = 0;
        let mut rays: i64 = 0;
        let mut dependencies: Vec<GridPoint> = Vec::new();
        if self.get_evaluated(cube).opaque {
            rays = 1;
        } else {
            let mut k: usize = 0;
            while k < RAYS_PER_CUBE
                invariant
                    self.wf(),
                    self@.grid.contains(cube),
                    k <= RAYS_PER_CUBE,
                    rays == k,
                    -0x1_0000_0000 * k <= r <= 0x1_0000_0000 * k,
                    -0x1_0000_0000 * k <= g <= 0x1_0000_0000 * k,
                    -0x1_0000_0000 * k <= b <= 0x1_0000_0000 * k,
                    self@.incoming_first(cube, k as int) == (LightSum {
                        r: r as int,
                        g: g as int,
                        b: b as int,
                        rays: rays as int,
                        dependencies: dependencies@,
                    }),
                decreases RAYS_PER_CUBE - k,
            {
                let ray = Ray::new(k);
                match self.cast_ray(ray, cube) {
                    RayOutcome::Sky => {
                        r += 65536;
                        g += 65536;
                        b += 65536;
                    },
                    RayOutcome::Hit { struck, previous } => {
                        let emission = self.get_evaluated(struck).attributes.light_emission;
                        let light = self.get_lighting(previous);
                        r += emission.r as i64 + light.r as i64 * 1024;
                        g += emission.g as i64 + light.g as i64 * 1024;
                        b += emission.b as i64 + light.b as i64 * 1024;
                        dependencies.push(struck);
                    },
                }
                rays += 1;
                k += 1;
            }
        }
        let new_light = PackedLight::from_components(
            mean_channel(r, rays),
            mean_channel(g, rays),
            mean_channel(b, rays),
        );
        let old_light = self.get_lighting(cube);
        let difference = new_light.difference_magnitude(old_light);
        assert(new_light == old(self)@.computed_light(cube));
        if difference > 0 {
            let index = self.grid.index(cube).unwrap();
            self.lighting[index] = new_light;
            self.changes.push(SpaceChange::Lighting(cube));
            let ghost lit = self@;
            assert(lit == (SpaceView {
                lighting: old(self)@.lighting.update(index as int, new_light),
                changes: old(self)@.changes.push(SpaceChange::Lighting(cube)),
                ..old(self)@
            }));
            assert(self@.queue == old(self)@.queue);
            let mut i: usize = 0;
            while i < dependencies.len()
                invariant
                    self.wf(),
                    i <= dependencies@.len(),
                    self@ == lit.enqueue_first(dependencies@, difference, i as int),
                decreases dependencies@.len() - i,
            {
                self.light_needs_update(dependencies[i], difference);
                i += 1;
            }
        }
        difference
    }

    /// Serves up to [`LIGHT_UPDATES_PER_STEP`] requests for light updates,
    /// each time the one that no other request follows, and reports what
    /// was done. Requests that the served ones make wait with the others;
    /// what is left when the limit is reached waits for the next step.
    pub fn update_lighting_from_queue(&mut self) -> (info: SpaceStepInfo)
        requires
            old(self).wf(),
        ensures
            final(self).wf(),
            final(self)@ == old(self)@.drain_first(120).space,
            info.light_update_count == old(self)@.drain_first(120).processed,
            info.max_light_update_difference == old(self)@.drain_first(120).max_difference,
            info.light_queue_count == final(self)@.queue.len(),
            info.light_update_count <= LIGHT_UPDATES_PER_STEP,
            info.light_update_count < LIGHT_UPDATES_PER_STEP ==> final(self)@.queue.len() == 0,
            final(self)@.grid == old(self)@.grid,
            final(self)@.blocks == old(self)@.blocks,
            final(self)@.evaluated == old(self)@.evaluated,
            final(self)@.listeners == old(self)@.listeners,
    {
        proof {
            old(self)@.lemma_drain_wf(120);
        }
        let mut light_update_count: usize = 0;
        let mut max_difference: PackedLightScalar = 0;
        while light_update_count < LIGHT_UPDATES_PER_STEP && self.queue.len() > 0
            invariant
                self.wf(),
                light_update_count <= LIGHT_UPDATES_PER_STEP,
                old(self)@.drain_first(light_update_count as int) == (Drained {
                    space: self@,
                    processed: light_update_count as int,
                    max_difference: max_difference as int,
                }),
            decreases LIGHT_UPDATES_PER_STEP - light_update_count,
        {
            let ghost before = self@;
            let cube = self.take_request();
            let difference = self.update_lighting_now_on(cube);
            light_update_count += 1;
            if difference > max_difference {
                max_difference = difference;
            }
        }
        proof {
            if light_update_count < LIGHT_UPDATES_PER_STEP {
                old(self)@.lemma_drain_settled(light_update_count as int, 120);
            }
        }
        SpaceStepInfo {
            light_update_count,
            light_queue_count: self.queue.len(),
            max_light_update_difference: max_difference,
        }
    }

    /// Takes the request that is served next out of the queue.
    fn take_request(&mut self) -> (cube: GridPoint)
        requires
            old(self).wf(),
            old(self)@.queue.len() > 0,
        ensures
            final(self).wf(),
            cube == old(self)@.queue.last().cube,
            final(self)@.grid.contains(cube),
            final(self)@ == (SpaceView { queue: old(self)@.queue.drop_last(), ..old(self)@ }),
    {
        let request = self.queue.pop().unwrap();
        let ghost before = old(self)@;
        assert(request == before.queue[before.queue.len() - 1]);
        assert(before.grid.contains(request.cube));
        assert(self.queue@ =~= before.queue.drop_last());
        let index = self.grid.index(request.cube).unwrap();
        proof {
            let after = SpaceView { queue: before.queue.drop_last(), ..before };
            self.grid.lemma_point_at_index(request.cube);
            assert forall|i: int| 0 <= i < self.queued@.len() implies (#[trigger] self.queued@.update(
                index as int,
                false,
            )[i] <==> after.queued(self.grid.point_at(i))) by {
                let p = self.grid.point_at(i);
                if i == index {
                    if after.queued(p) {
                        let k = choose|k: int|
                            0 <= k < after.queue.len() && (#[trigger] after.queue[k]).cube == p;
                        assert(before.queue[k].cube != before.queue[before.queue.len() - 1].cube);
                    }
                } else {
                    self.grid.lemma_index_of_point(i);
                    assert(self.queued@[i] <==> before.queued(p));
                    if before.queued(p) {
                        let k = choose|k: int|
                            0 <= k < before.queue.len() && (#[trigger] before.queue[k]).cube == p;
                        assert(k < before.queue.len() - 1);
                        assert(after.queue[k].cube == p);
                    }
                    if after.queued(p) {
                        let k = choose|k: int|
                            0 <= k < after.queue.len() && (#[trigger] after.queue[k]).cube == p;
                        assert(before.queue[k].cube == p);
                    }
                }
            }
        }
        self.queued[index] = false;
        assert(self@.queue == before.queue.drop_last());
        request.cube
    }
}

fn mean_channel(sum: i64, rays: i64) -> (mean: i64)
    ensures
        mean == SpaceView::mean(sum as int, rays as int),
{
    if sum <= 0 || rays <= 0 {
        0
    } else {
        sum / rays
    }
}

impl SpaceView {
    /// Requests for light updates announce nothing.
    pub proof fn lemma_enqueue_first_keeps_changes(
        self,
        cubes: Seq<GridPoint>,
        priority: PackedLightScalar,
        n: int,
    )
        ensures
            self.enqueue_first(cubes, priority, n).changes == self.changes,
            self.enqueue_first(cubes, priority, n).lighting == self.lighting,
            self.enqueue_first(cubes, priority, n).grid == self.grid,
            self.enqueue_first(cubes, priority, n).blocks == self.blocks,
            self.enqueue_first(cubes, priority, n).evaluated == self.evaluated,
            self.enqueue_first(cubes, priority, n).listeners == self.listeners,
        decreases n,
    {
        if n > 0 {
            self.lemma_enqueue_first_keeps_changes(cubes, priority, n - 1);
        }
    }

    /// A step of light propagation announces changes of light and no
    /// others: the number of announced changes to blocks stays what it was,
    /// so that nobody who listens for changes to blocks hears of the step.
    pub proof fn lemma_lighting_changes_no_blocks(self, n: int)
        ensures
            crate::universe::block_changes(self.drain_first(n).space.changes)
                == crate::universe::block_changes(self.changes),
        decreases n,
    {
        if n > 0 {
            self.lemma_lighting_changes_no_blocks(n - 1);
            let earlier = self.drain_first(n - 1);
            if earlier.space.queue.len() > 0 {
                let request = earlier.space.queue.last();
                let taken = SpaceView { queue: earlier.space.queue.drop_last(), ..earlier.space };
                let difference = taken.light_difference(request.cube);
                if difference != 0 {
                    let lit = SpaceView {
                        lighting: taken.lighting.update(
                            taken.grid.index_of(request.cube),
                            taken.computed_light(request.cube),
                        ),
                        changes: taken.changes.push(SpaceChange::Lighting(request.cube)),
                        ..taken
                    };
                    let dependencies = taken.incoming(request.cube).dependencies;
                    lit.lemma_enqueue_first_keeps_changes(
                        dependencies,
                        difference as u8,
                        dependencies.len() as int,
                    );
                    assert(lit.changes.drop_last() =~= taken.changes);
                }
            }
        }
    }

    /// The space after a number of steps of light propagation.
    pub open spec fn after_steps(self, steps: int) -> SpaceView
        decreases steps,
    {
        if steps <= 0 {
            self
        } else {
            self.after_steps(steps - 1).drain_first(120).space
        }
    }

    /// Whether two spaces agree in all that light propagation reads: the
    /// grid, the stored light, the waiting requests, and of every cube
    /// whether it is opaque and what it emits.
    pub open spec fn same_for_light(self, other: SpaceView) -> bool {
        &&& self.grid == other.grid
        &&& self.lighting == other.lighting
        &&& self.queue == other.queue
        &&& forall|i: int|
            0 <= i < self.grid.cubes() ==> (#[trigger] self.evaluated[i]).opaque == (
            #[trigger] other.evaluated[i]).opaque && self.evaluated[i].attributes.light_emission
                == other.evaluated[i].attributes.light_emission
    }

    /// Requests for light updates leave the invariant of the space in
    /// place.
    pub proof fn lemma_enqueue_first_wf(
        self,
        cubes: Seq<GridPoint>,
        priority: PackedLightScalar,
        n: int,
    )
        requires
            self.wf(),
        ensures
            self.enqueue_first(cubes, priority, n).wf(),
            self.enqueue_first(cubes, priority, n).evaluated == self.evaluated,
        decreases n,
    {
        if n > 0 {
            self.lemma_enqueue_first_wf(cubes, priority, n - 1);
            self.enqueue_first(cubes, priority, n - 1).lemma_enqueue_wf(cubes[n - 1], priority);
        }
    }

    /// Recomputing the light of a cube leaves the invariant of the space in
    /// place: in particular, no cube comes to wait twice.
    pub proof fn lemma_recompute_wf(self, cube: GridPoint)
        requires
            self.wf(),
            self.grid.contains(cube),
        ensures
            self.recompute(cube).wf(),
            self.recompute(cube).grid == self.grid,
            self.recompute(cube).blocks == self.blocks,
            self.recompute(cube).evaluated == self.evaluated,
            self.recompute(cube).listeners == self.listeners,
    {
        let difference = self.light_difference(cube);
        if difference != 0 {
            self.grid.lemma_index_in_range(cube.x as int, cube.y as int, cube.z as int);
            let lit = SpaceView {
                lighting: self.lighting.update(self.grid.index_of(cube), self.computed_light(cube)),
                changes: self.changes.push(SpaceChange::Lighting(cube)),
                ..self
            };
            let dependencies = self.incoming(cube).dependencies;
            lit.lemma_enqueue_first_wf(dependencies, difference as u8, dependencies.len() as int);
            lit.lemma_enqueue_first_keeps_changes(
                dependencies,
                difference as u8,
                dependencies.len() as int,
            );
        }
    }

    /// Serving requests leaves the invariant of the space in place, and
    /// changes neither the grid nor the blocks, their evaluations or the
    /// listeners.
    pub proof fn lemma_drain_wf(self, n: int)
        requires
            self.wf(),
        ensures
            self.drain_first(n).space.wf(),
            self.drain_first(n).space.grid == self.grid,
            self.drain_first(n).space.blocks == self.blocks,
            self.drain_first(n).space.evaluated == self.evaluated,
            self.drain_first(n).space.listeners == self.listeners,
        decreases n,
    {
        if n > 0 {
            self.lemma_drain_wf(n - 1);
            let earlier = self.drain_first(n - 1);
            if earlier.space.queue.len() > 0 {
                let request = earlier.space.queue.last();
                let taken = SpaceView { queue: earlier.space.queue.drop_last(), ..earlier.space };
                assert(earlier.space.grid.contains(
                    earlier.space.queue[earlier.space.queue.len() - 1].cube,
                ));
                assert(taken.wf()) by {
                    assert forall|k: int| 0 <= k < taken.queue.len() implies taken.grid.contains(
                        #[trigger] taken.queue[k].cube,
                    ) by {
                        assert(taken.queue[k] == earlier.space.queue[k]);
                    }
                    assert forall|j: int, k: int| 0 <= j < k < taken.queue.len() implies (
                    #[trigger] taken.queue[j]).before(#[trigger] taken.queue[k])
                        && taken.queue[j].cube != taken.queue[k].cube by {
                        assert(taken.queue[j] == earlier.space.queue[j]);
                        assert(taken.queue[k] == earlier.space.queue[k]);
                    }
                }
                taken.lemma_recompute_wf(request.cube);
            }
        }
    }

    proof fn lemma_walk_same(self, other: SpaceView, ray: Ray, start: GridPoint, at: GridPoint)
        requires
            self.wf(),
            other.wf(),
            self.same_for_light(other),
        ensures
            self.walk(ray, start, at) == other.walk(ray, start, at),
        decreases ray.reach(self.grid, at),
    {
        let next = ray.next_cube(start, at);
        if !ray.wf() || !self.grid.wf() || !self.grid.contains(at) || !self.grid.contains(next) {
        } else {
            self.grid.lemma_index_in_range(next.x as int, next.y as int, next.z as int);
            if !self.opaque_at(next) {
                ray.lemma_step_uses_room(self.grid, start, at);
                self.lemma_walk_same(other, ray, start, next);
            }
        }
    }

    proof fn lemma_ray_light_same(self, other: SpaceView, ray: Ray, cube: GridPoint)
        requires
            self.wf(),
            other.wf(),
            self.same_for_light(other),
            self.grid.contains(cube),
        ensures
            self.walk(ray, cube, cube) == other.walk(ray, cube, cube),
            self.ray_light(self.walk(ray, cube, cube)) == other.ray_light(
                other.walk(ray, cube, cube),
            ),
    {
        self.lemma_walk_same(other, ray, cube, cube);
        self.lemma_walk_hits_within(ray, cube, cube);
        match self.walk(ray, cube, cube) {
            RayOutcome::Sky => {},
            RayOutcome::Hit { struck, previous } => {
                self.grid.lemma_index_in_range(struck.x as int, struck.y as int, struck.z as int);
                self.grid.lemma_index_in_range(
                    previous.x as int,
                    previous.y as int,
                    previous.z as int,
                );
            },
        }
    }

    /// What a ray strikes, and the cube before that, are cubes of the grid.
    pub proof fn lemma_walk_hits_within(self, ray: Ray, start: GridPoint, at: GridPoint)
        ensures
            match self.walk(ray, start, at) {
                RayOutcome::Sky => true,
                RayOutcome::Hit { struck, previous } => self.grid.contains(struck)
                    && self.grid.contains(previous) && self.opaque_at(struck),
            },
        decreases ray.reach(self.grid, at),
    {
        let next = ray.next_cube(start, at);
        if !ray.wf() || !self.grid.wf() || !self.grid.contains(at) || !self.grid.contains(next) {
        } else if !self.opaque_at(next) {
            ray.lemma_step_uses_room(self.grid, start, at);
            self.lemma_walk_hits_within(ray, start, next);
        }
    }

    proof fn lemma_incoming_first_same(self, other: SpaceView, cube: GridPoint, n: int)
        requires
            self.wf(),
            other.wf(),
            self.same_for_light(other),
            self.grid.contains(cube),
        ensures
            self.incoming_first(cube, n) == other.incoming_first(cube, n),
        decreases n,
    {
        if n > 0 {
            self.lemma_incoming_first_same(other, cube, n - 1);
            self.lemma_ray_light_same(other, Ray::of(n - 1), cube);
        }
    }

    proof fn lemma_enqueue_first_same(
        self,
        other: SpaceView,
        cubes: Seq<GridPoint>,
        priority: PackedLightScalar,
        n: int,
    )
        requires
            self.same_for_light(other),
        ensures
            self.enqueue_first(cubes, priority, n).same_for_light(
                other.enqueue_first(cubes, priority, n),
            ),
            self.enqueue_first(cubes, priority, n).evaluated == self.evaluated,
            other.enqueue_first(cubes, priority, n).evaluated == other.evaluated,
        decreases n,
    {
        if n > 0 {
            self.lemma_enqueue_first_same(other, cubes, priority, n - 1);
        }
    }

    proof fn lemma_recompute_same(self, other: SpaceView, cube: GridPoint)
        requires
            self.wf(),
            other.wf(),
            self.same_for_light(other),
            self.grid.contains(cube),
        ensures
            self.recompute(cube).same_for_light(other.recompute(cube)),
            self.light_difference(cube) == other.light_difference(cube),
    {
        self.grid.lemma_index_in_range(cube.x as int, cube.y as int, cube.z as int);
        self.lemma_incoming_first_same(other, cube, 54);
        let difference = self.light_difference(cube);
        if difference != 0 {
            let lit = SpaceView {
                lighting: self.lighting.update(self.grid.index_of(cube), self.computed_light(cube)),
                changes: self.changes.push(SpaceChange::Lighting(cube)),
                ..self
            };
            let other_lit = SpaceView {
                lighting: other.lighting.update(
                    other.grid.index_of(cube),
                    other.computed_light(cube),
                ),
                changes: other.changes.push(SpaceChange::Lighting(cube)),
                ..other
            };
            let dependencies = self.incoming(cube).dependencies;
            lit.lemma_enqueue_first_same(
                other_lit,
                dependencies,
                difference as u8,
                dependencies.len() as int,
            );
        }
    }

    proof fn lemma_drain_same(self, other: SpaceView, n: int)
        requires
            self.wf(),
            other.wf(),
            self.same_for_light(other),
        ensures
            self.drain_first(n).space.same_for_light(other.drain_first(n).space),
            self.drain_first(n).processed == other.drain_first(n).processed,
            self.drain_first(n).max_difference == other.drain_first(n).max_difference,
        decreases n,
    {
        if n > 0 {
            self.lemma_drain_same(other, n - 1);
            self.lemma_drain_wf(n - 1);
            other.lemma_drain_wf(n - 1);
            let earlier = self.drain_first(n - 1);
            let other_earlier = other.drain_first(n - 1);
            if earlier.space.queue.len() > 0 {
                let request = earlier.space.queue.last();
                let taken = SpaceView { queue: earlier.space.queue.drop_last(), ..earlier.space };
                let other_taken = SpaceView {
                    queue: other_earlier.space.queue.drop_last(),
                    ..other_earlier.space
                };
                assert(earlier.space.grid.contains(
                    earlier.space.queue[earlier.space.queue.len() - 1].cube,
                ));
                earlier.space.lemma_taking_keeps_wf();
                other_earlier.space.lemma_taking_keeps_wf();
                taken.lemma_recompute_same(other_taken, request.cube);
            }
        }
    }

    proof fn lemma_taking_keeps_wf(self)
        requires
            self.wf(),
            self.queue.len() > 0,
        ensures
            (SpaceView { queue: self.queue.drop_last(), ..self }).wf(),
    {
        let taken = SpaceView { queue: self.queue.drop_last(), ..self };
        assert forall|k: int| 0 <= k < taken.queue.len() implies taken.grid.contains(
            #[trigger] taken.queue[k].cube,
        ) by {
            assert(taken.queue[k] == self.queue[k]);
        }
        assert forall|j: int, k: int| 0 <= j < k < taken.queue.len() implies (
        #[trigger] taken.queue[j]).before(#[trigger] taken.queue[k]) && taken.queue[j].cube
            != taken.queue[k].cube by {
            assert(taken.queue[j] == self.queue[j]);
            assert(taken.queue[k] == self.queue[k]);
        }
    }

    /// Light propagation is determined by what it reads. Two spaces that
    /// agree in grid, stored light, waiting requests, opacity and emission
    /// have, after the same number of steps, the same light in every cube
    /// and the same requests waiting, whatever else they hold: the blocks
    /// themselves, the changes to announce, and the listeners have no part
    /// in it.
    pub proof fn lemma_steps_deterministic(self, other: SpaceView, steps: int)
        requires
            self.wf(),
            other.wf(),
            self.same_for_light(other),
        ensures
            self.after_steps(steps).wf(),
            other.after_steps(steps).wf(),
            self.after_steps(steps).same_for_light(other.after_steps(steps)),
            self.after_steps(steps).lighting == other.after_steps(steps).lighting,
            self.after_steps(steps).queue == other.after_steps(steps).queue,
        decreases steps,
    {
        if steps > 0 {
            self.lemma_steps_deterministic(other, steps - 1);
            self.after_steps(steps - 1).lemma_drain_wf(120);
            other.after_steps(steps - 1).lemma_drain_wf(120);
            self.after_steps(steps - 1).lemma_drain_same(other.after_steps(steps - 1), 120);
        }
    }
}

} // verus!
