//! The bookkeeping of a dispatcher that hands the pixels of a view to workers: which
//! pixels are out with a worker, which are settled, and why no pixel is lost or
//! rendered twice, whatever the order in which the workers answer or fail.

use crate::color::Color;
use crate::defs::Point2Int;
use crate::ray::Ray;
use crate::renderer::output::{
    lemma_partial_render_complete, lemma_partial_render_step, spec_partial_render, spec_render,
    RendererOutput,
};
use crate::world::RayCaster;
use vstd::prelude::*;

verus! {

/// What the dispatcher tells a worker.
#[derive(Clone, Copy, Debug)]
pub enum ControlMessage {
    /// Cast this ray; its colour belongs to this pixel.
    CastRay(Ray, Point2Int),
    /// Stop.
    Exit,
}

/// What a worker tells the dispatcher.
#[derive(Clone, Copy, Debug)]
pub enum WorkerMessage {
    /// The worker waits for a ray.
    Ready,
    /// The colour seen along the ray of this pixel, if any.
    Result(Option<Color>, Point2Int),
}

/// What the pool has to do next for the worker whose message was processed.
#[derive(Clone, Copy, Debug)]
pub enum Directive {
    /// Nothing.
    Idle,
    /// Send the worker this ray for this pixel.
    Dispatch(Ray, Point2Int),
    /// The worker has failed: retire it, move the last worker of the pool to its
    /// place and add a new worker at the end.
    Replace,
    /// Every pixel has been handed out: tell all workers to stop, wait for them
    /// and drain what they still had to say.
    Finish,
}

/// What can happen to a dispatcher.
pub enum PoolEvent {
    /// The poll of a worker has given this.
    Polled(int, Result<Option<WorkerMessage>, ()>),
    /// A ray could not be sent to a worker.
    SendFailed(int),
    /// The last wait for a worker, after all were told to stop, has given this.
    Drained(int, Result<WorkerMessage, ()>),
    /// The dispatcher has finished the rendering on its own.
    Completed,
}

/// The number of workers for a requested number of threads: one thread is
/// the dispatcher's own.
pub open spec fn spec_worker_count(thread_count: u32) -> nat {
    if thread_count >= 1 {
        (thread_count - 1) as nat
    } else {
        0
    }
}

/// Whether worker `worker` is out with the pixel `coord`.
pub open spec fn spec_holds(
    in_flight: Seq<Option<(Ray, Point2Int)>>,
    worker: int,
    coord: Point2Int,
) -> bool {
    0 <= worker < in_flight.len() && in_flight[worker].is_some() && in_flight[worker].unwrap().1
        == coord
}

/// The state of a dispatcher.
pub struct DispatcherState<W, O> {
    /// The number of threads asked for.
    pub thread_count: u32,
    pub world: W,
    pub view: crate::view::View,
    /// The output as it was before the rendering began.
    pub before: O,
    /// What the output holds now.
    pub written: Map<Point2Int, Color>,
    /// The pixels whose colour, or whose lack of one, has reached the output.
    pub settled: Set<Point2Int>,
    /// For each worker, the ray and pixel that it is out with.
    pub in_flight: Seq<Option<(Ray, Point2Int)>>,
    /// How many pixels of the screen's walk have been handed out.
    pub dispatched: nat,
}

impl<W: RayCaster, O: RendererOutput> DispatcherState<W, O> {
    /// The state at the start of a rendering.
    pub open spec fn spec_initial(thread_count: u32, world: W, view: crate::view::View, before: O) -> Self {
        DispatcherState {
            thread_count,
            world,
            view,
            before,
            written: before.spec_written(),
            settled: Set::empty(),
            in_flight: Seq::new(spec_worker_count(thread_count), |worker: int| None),
            dispatched: 0,
        }
    }

    /// There is one slot for each worker, and no more pixels have been handed
    /// out than the screen has.
    pub open spec fn spec_well_formed(self) -> bool {
        &&& self.in_flight.len() == spec_worker_count(self.thread_count)
        &&& self.dispatched <= self.view.screen.spec_pixel_count()
    }

    /// Whether the pixel `coord` has been handed out.
    pub open spec fn spec_handed_out(self, coord: Point2Int) -> bool {
        self.view.screen.spec_contains(coord) && self.view.screen.spec_index_of(coord)
            < self.dispatched
    }

    /// The books balance: the output holds the rendering of exactly the settled
    /// pixels; every pixel handed out is either settled or out with exactly one
    /// worker, never both; and each worker that is out holds the ray of its
    /// pixel.
    pub open spec fn spec_accounted(self) -> bool {
        &&& self.written == spec_partial_render(self.world, self.view, self.before, self.settled)
        &&& forall|coord: Point2Int| #[trigger]
            self.settled.contains(coord) ==> self.spec_handed_out(coord)
        &&& forall|worker: int|
            0 <= worker < self.in_flight.len() && (#[trigger] self.in_flight[worker]).is_some() ==> {
                let (ray, coord) = self.in_flight[worker].unwrap();
                &&& self.spec_handed_out(coord)
                &&& !self.settled.contains(coord)
                &&& ray == self.view.spec_ray_through(coord)
            }
        &&& forall|first: int, second: int|
            0 <= first < self.in_flight.len() && 0 <= second < self.in_flight.len() && first
                != second && (#[trigger] self.in_flight[first]).is_some()
                && (#[trigger] self.in_flight[second]).is_some() ==> self.in_flight[first].unwrap().1
                != self.in_flight[second].unwrap().1
        &&& forall|coord: Point2Int| #[trigger]
            self.spec_handed_out(coord) && !self.settled.contains(coord) ==> exists|worker: int|
                spec_holds(self.in_flight, worker, coord)
    }

    /// Every pixel has been handed out and no worker is out with one.
    pub open spec fn spec_finished(self) -> bool {
        &&& self.dispatched >= self.view.screen.spec_pixel_count()
        &&& forall|worker: int|
            0 <= worker < self.in_flight.len() ==> (#[trigger] self.in_flight[worker]).is_none()
    }

    /// Whether `message` is one that a worker which keeps to the protocol can
    /// send in this state: `Ready` only while it is out with nothing, and a
    /// result only for the pixel that it is out with, with the colour that the
    /// world shows along that pixel's ray.
    pub open spec fn spec_honest(self, worker: int, message: WorkerMessage) -> bool {
        &&& 0 <= worker < self.in_flight.len()
        &&& match message {
            WorkerMessage::Ready => self.in_flight[worker].is_none(),
            WorkerMessage::Result(color, coord) => {
                &&& spec_holds(self.in_flight, worker, coord)
                &&& color == self.world.spec_cast_ray(self.in_flight[worker].unwrap().0)
            },
        }
    }

    /// What the output holds after `color` has been offered to it for `coord`.
    pub open spec fn spec_write(self, color: Option<Color>, coord: Point2Int) -> Map<
        Point2Int,
        Color,
    > {
        match color {
            Some(color) if self.before.spec_accepts(coord) => self.written.insert(coord, color),
            _ => self.written,
        }
    }

    /// The state after `worker` has said that it is ready: it is out with the
    /// next pixel of the walk, if one is left.
    pub open spec fn spec_after_ready(self, worker: int) -> Self {
        if self.dispatched < self.view.screen.spec_pixel_count() {
            DispatcherState {
                in_flight: self.in_flight.update(
                    worker,
                    Some(self.view.spec_task(self.dispatched as int)),
                ),
                dispatched: self.dispatched + 1,
                ..self
            }
        } else {
            self
        }
    }

    /// What the pool is told after `worker` has said that it is ready.
    pub open spec fn spec_directive_after_ready(self) -> Directive {
        if self.dispatched < self.view.screen.spec_pixel_count() {
            let (ray, coord) = self.view.spec_task(self.dispatched as int);
            Directive::Dispatch(ray, coord)
        } else {
            Directive::Finish
        }
    }

    /// The state after `worker` has sent a result: the colour is offered to the
    /// output, and where the worker was out with that pixel, the pixel is
    /// settled and the worker is out with nothing.
    pub open spec fn spec_after_result(
        self,
        worker: int,
        color: Option<Color>,
        coord: Point2Int,
    ) -> Self {
        if spec_holds(self.in_flight, worker, coord) {
            DispatcherState {
                written: self.spec_write(color, coord),
                settled: self.settled.insert(coord),
                in_flight: self.in_flight.update(worker, None),
                ..self
            }
        } else {
            DispatcherState { written: self.spec_write(color, coord), ..self }
        }
    }

    /// The state after the dispatcher has itself cast the ray that `worker` was
    /// out with, if it was out with one.
    pub open spec fn spec_after_recovery(self, worker: int) -> Self {
        match self.in_flight[worker] {
            Some((ray, coord)) => DispatcherState {
                written: self.spec_write(self.world.spec_cast_ray(ray), coord),
                settled: self.settled.insert(coord),
                in_flight: self.in_flight.update(worker, None),
                ..self
            },
            None => self,
        }
    }

    /// The state after a failed worker has been replaced: its ray has been
    /// recovered, the last worker has taken its place and a new worker, out with
    /// nothing, stands at the end.
    pub open spec fn spec_after_replacement(self, worker: int) -> Self {
        let recovered = self.spec_after_recovery(worker);
        DispatcherState {
            in_flight: recovered.in_flight.update(worker, recovered.in_flight.last()).drop_last().push(
                None,
            ),
            ..recovered
        }
    }

    /// The state after the poll of `worker` has given `received`.
    pub open spec fn spec_after_message(
        self,
        worker: int,
        received: Result<Option<WorkerMessage>, ()>,
    ) -> Self {
        match received {
            Err(_) => self.spec_after_replacement(worker),
            Ok(None) => self,
            Ok(Some(WorkerMessage::Ready)) => self.spec_after_ready(worker),
            Ok(Some(WorkerMessage::Result(color, coord))) => self.spec_after_result(
                worker,
                color,
                coord,
            ),
        }
    }

    /// What the pool is told after the poll of a worker has given `received`.
    pub open spec fn spec_directive(self, received: Result<Option<WorkerMessage>, ()>) -> Directive {
        match received {
            Err(_) => Directive::Replace,
            Ok(Some(WorkerMessage::Ready)) => self.spec_directive_after_ready(),
            _ => Directive::Idle,
        }
    }

    /// The state after the last wait for `worker`, when all workers have been
    /// told to stop, has given `received`.
    pub open spec fn spec_after_drain(self, worker: int, received: Result<WorkerMessage, ()>) -> Self {
        match received {
            Err(_) => self.spec_after_recovery(worker),
            Ok(WorkerMessage::Ready) => self,
            Ok(WorkerMessage::Result(color, coord)) => self.spec_after_result(worker, color, coord),
        }
    }

    /// The state after the dispatcher has itself cast the ray of the next pixel
    /// of the walk.
    pub open spec fn spec_after_own_cast(self) -> Self {
        let (ray, coord) = self.view.spec_task(self.dispatched as int);
        DispatcherState {
            written: self.spec_write(self.world.spec_cast_ray(ray), coord),
            settled: self.settled.insert(coord),
            dispatched: self.dispatched + 1,
            ..self
        }
    }

    /// The state after the dispatcher has recovered the rays of the first
    /// `count` workers, one after the other.
    pub open spec fn spec_after_recoveries(self, count: nat) -> Self
        decreases count,
    {
        if count == 0 {
            self
        } else {
            self.spec_after_recoveries((count - 1) as nat).spec_after_recovery(count - 1)
        }
    }

    /// The state after the dispatcher has itself cast the rays of all pixels
    /// that had not been handed out, in the order of the walk.
    pub open spec fn spec_after_remaining(self) -> Self
        decreases self.view.screen.spec_pixel_count() - self.dispatched,
    {
        if self.dispatched < self.view.screen.spec_pixel_count() {
            self.spec_after_own_cast().spec_after_remaining()
        } else {
            self
        }
    }

    /// The state after the dispatcher has finished the rendering on its own:
    /// first the rays that workers were out with, then the rest of the walk.
    pub open spec fn spec_after_completion(self) -> Self {
        self.spec_after_recoveries(self.in_flight.len()).spec_after_remaining()
    }

    /// The state after `event`.
    pub open spec fn spec_after_event(self, event: PoolEvent) -> Self {
        match event {
            PoolEvent::Polled(worker, received) => self.spec_after_message(worker, received),
            PoolEvent::SendFailed(worker) => self.spec_after_replacement(worker),
            PoolEvent::Drained(worker, received) => self.spec_after_drain(worker, received),
            PoolEvent::Completed => self.spec_after_completion(),
        }
    }

    /// Whether `event` can happen in this state with workers that keep to the
    /// protocol: it names a worker of the pool, and what a worker has said is
    /// honest. Workers may fail at any time.
    pub open spec fn spec_possible(self, event: PoolEvent) -> bool {
        match event {
            PoolEvent::Polled(worker, received) => 0 <= worker < self.in_flight.len() && (
            received matches Ok(Some(message)) ==> self.spec_honest(worker, message)),
            PoolEvent::SendFailed(worker) => 0 <= worker < self.in_flight.len(),
            PoolEvent::Drained(worker, received) => 0 <= worker < self.in_flight.len() && (
            received matches Ok(message) ==> message == WorkerMessage::Ready || self.spec_honest(
                worker,
                message,
            )),
            PoolEvent::Completed => true,
        }
    }

    /// The state after the events of `events`, one after the other.
    pub open spec fn spec_after_events(self, events: Seq<PoolEvent>) -> Self
        decreases events.len(),
    {
        if events.len() == 0 {
            self
        } else {
            self.spec_after_events(events.drop_last()).spec_after_event(events.last())
        }
    }

    /// Whether each of `events` can happen in the state that the events before
    /// it have led to.
    pub open spec fn spec_all_possible(self, events: Seq<PoolEvent>) -> bool
        decreases events.len(),
    {
        events.len() > 0 ==> self.spec_all_possible(events.drop_last()) && self.spec_after_events(
            events.drop_last(),
        ).spec_possible(events.last())
    }

    /// At the start the books balance.
    pub proof fn lemma_initial_accounted(thread_count: u32, world: W, view: crate::view::View, before: O)
        ensures
            Self::spec_initial(thread_count, world, view, before).spec_well_formed(),
            Self::spec_initial(thread_count, world, view, before).spec_accounted(),
    {
        let state = Self::spec_initial(thread_count, world, view, before);
        assert(state.written =~= spec_partial_render(world, view, before, state.settled));
    }

    /// Handing the next pixel to a worker that is out with nothing keeps the
    /// books balanced.
    pub proof fn lemma_ready_keeps_account(self, worker: int)
        requires
            self.spec_well_formed(),
            self.spec_accounted(),
            self.spec_honest(worker, WorkerMessage::Ready),
        ensures
            self.spec_after_ready(worker).spec_well_formed(),
            self.spec_after_ready(worker).spec_accounted(),
    {
        let after = self.spec_after_ready(worker);
        if self.dispatched < self.view.screen.spec_pixel_count() {
            let place = self.dispatched as int;
            let (ray, coord) = self.view.spec_task(place);
            self.view.screen.lemma_coordinate_at(place);
            assert forall|other: Point2Int| #[trigger]
                after.spec_handed_out(other) && !after.settled.contains(other) implies exists|
                holder: int,
            |
                spec_holds(after.in_flight, holder, other) by {
                if self.view.screen.spec_index_of(other) == place {
                    self.view.screen.lemma_index_of(other);
                    assert(spec_holds(after.in_flight, worker, other));
                } else {
                    assert(self.spec_handed_out(other));
                    let holder = choose|holder: int| spec_holds(self.in_flight, holder, other);
                    assert(spec_holds(after.in_flight, holder, other));
                }
            }
            assert forall|holder: int|
                0 <= holder < after.in_flight.len() && (#[trigger] after.in_flight[holder]).is_some() implies {
                let (held_ray, held) = after.in_flight[holder].unwrap();
                &&& after.spec_handed_out(held)
                &&& !after.settled.contains(held)
                &&& held_ray == after.view.spec_ray_through(held)
            } by {
                if holder != worker {
                    assert(self.in_flight[holder].is_some());
                    assert(self.spec_handed_out(self.in_flight[holder].unwrap().1));
                } else {
                    if self.settled.contains(coord) {
                        assert(self.spec_handed_out(coord));
                    }
                }
            }
            assert forall|first: int, second: int|
                0 <= first < after.in_flight.len() && 0 <= second < after.in_flight.len() && first
                    != second && (#[trigger] after.in_flight[first]).is_some()
                    && (#[trigger] after.in_flight[second]).is_some() implies after.in_flight[first].unwrap().1
                != after.in_flight[second].unwrap().1 by {
                if first != worker {
                    assert(self.in_flight[first].is_some());
                    assert(self.spec_handed_out(self.in_flight[first].unwrap().1));
                }
                if second != worker {
                    assert(self.in_flight[second].is_some());
                    assert(self.spec_handed_out(self.in_flight[second].unwrap().1));
                }
            }
            assert forall|other: Point2Int| #[trigger]
                after.settled.contains(other) implies after.spec_handed_out(other) by {
                assert(self.spec_handed_out(other));
            }
        }
    }

    /// Settling the pixel that a worker was out with keeps the books balanced,
    /// provided the colour offered for it is the one that the world shows along
    /// its ray.
    pub proof fn lemma_settle_keeps_account(self, worker: int, color: Option<Color>, coord: Point2Int)
        requires
            self.spec_well_formed(),
            self.spec_accounted(),
            self.spec_honest(worker, WorkerMessage::Result(color, coord)),
        ensures
            self.spec_after_result(worker, color, coord).spec_well_formed(),
            self.spec_after_result(worker, color, coord).spec_accounted(),
            self.spec_after_result(worker, color, coord).settled == self.settled.insert(coord),
            !self.settled.contains(coord),
            forall|holder: int| !spec_holds(
                self.spec_after_result(worker, color, coord).in_flight,
                holder,
                coord,
            ),
    {
        let after = self.spec_after_result(worker, color, coord);
        assert(self.in_flight[worker].is_some());
        assert(self.spec_handed_out(coord));
        lemma_partial_render_step(self.world, self.view, self.before, self.settled, coord);
        assert forall|other: Point2Int| #[trigger]
            after.spec_handed_out(other) && !after.settled.contains(other) implies exists|holder: int|
            spec_holds(after.in_flight, holder, other) by {
            assert(self.spec_handed_out(other));
            let holder = choose|holder: int| spec_holds(self.in_flight, holder, other);
            assert(spec_holds(after.in_flight, holder, other));
        }
        assert forall|holder: int|
            0 <= holder < after.in_flight.len() && (#[trigger] after.in_flight[holder]).is_some() implies {
            let (held_ray, held) = after.in_flight[holder].unwrap();
            &&& after.spec_handed_out(held)
            &&& !after.settled.contains(held)
            &&& held_ray == after.view.spec_ray_through(held)
        } by {
            assert(self.in_flight[holder].is_some());
        }
        assert forall|first: int, second: int|
            0 <= first < after.in_flight.len() && 0 <= second < after.in_flight.len() && first
                != second && (#[trigger] after.in_flight[first]).is_some()
                && (#[trigger] after.in_flight[second]).is_some() implies after.in_flight[first].unwrap().1
            != after.in_flight[second].unwrap().1 by {
            assert(self.in_flight[first].is_some());
            assert(self.in_flight[second].is_some());
        }
        assert forall|holder: int| !spec_holds(after.in_flight, holder, coord) by {
            if spec_holds(after.in_flight, holder, coord) {
                assert(self.in_flight[holder].is_some());
            }
        }
    }

    /// When the dispatcher itself casts the ray that a worker was out with, the
    /// books stay balanced: the pixel is settled, once, and no worker is out
    /// with it any longer.
    pub proof fn lemma_recovery_keeps_account(self, worker: int)
        requires
            self.spec_well_formed(),
            self.spec_accounted(),
            0 <= worker < self.in_flight.len(),
        ensures
            self.spec_after_recovery(worker).spec_well_formed(),
            self.spec_after_recovery(worker).spec_accounted(),
            self.spec_after_recovery(worker).in_flight[worker].is_none(),
            self.in_flight[worker] matches Some((ray, coord)) ==> {
                &&& !self.settled.contains(coord)
                &&& self.spec_after_recovery(worker).settled == self.settled.insert(coord)
                &&& forall|holder: int| !spec_holds(
                    self.spec_after_recovery(worker).in_flight,
                    holder,
                    coord,
                )
            },
    {
        match self.in_flight[worker] {
            Some((ray, coord)) => {
                let color = self.world.spec_cast_ray(ray);
                assert(spec_holds(self.in_flight, worker, coord));
                self.lemma_settle_keeps_account(worker, color, coord);
                assert(self.spec_after_recovery(worker) == self.spec_after_result(
                    worker,
                    color,
                    coord,
                ));
            },
            None => {},
        }
    }

    /// When the dispatcher itself casts the ray of the next pixel of the walk,
    /// the books stay balanced.
    pub proof fn lemma_own_cast_keeps_account(self)
        requires
            self.spec_well_formed(),
            self.spec_accounted(),
            self.dispatched < self.view.screen.spec_pixel_count(),
        ensures
            self.spec_after_own_cast().spec_well_formed(),
            self.spec_after_own_cast().spec_accounted(),
    {
        let after = self.spec_after_own_cast();
        let place = self.dispatched as int;
        let (ray, coord) = self.view.spec_task(place);
        self.view.screen.lemma_coordinate_at(place);
        if self.settled.contains(coord) {
            assert(self.spec_handed_out(coord));
        }
        lemma_partial_render_step(self.world, self.view, self.before, self.settled, coord);
        assert forall|other: Point2Int| #[trigger]
            after.spec_handed_out(other) && !after.settled.contains(other) implies exists|holder: int|
            spec_holds(after.in_flight, holder, other) by {
            if self.view.screen.spec_index_of(other) == place {
                self.view.screen.lemma_index_of(other);
            }
            assert(self.spec_handed_out(other));
        }
        assert forall|holder: int|
            0 <= holder < after.in_flight.len() && (#[trigger] after.in_flight[holder]).is_some() implies {
            let (held_ray, held) = after.in_flight[holder].unwrap();
            &&& after.spec_handed_out(held)
            &&& !after.settled.contains(held)
            &&& held_ray == after.view.spec_ray_through(held)
        } by {
            assert(self.in_flight[holder].is_some());
            assert(self.spec_handed_out(self.in_flight[holder].unwrap().1));
        }
        assert forall|other: Point2Int| #[trigger]
            after.settled.contains(other) implies after.spec_handed_out(other) by {
            if other != coord {
                assert(self.spec_handed_out(other));
            }
        }
    }

    /// Replacing a failed worker keeps the books balanced.
    pub proof fn lemma_replacement_keeps_account(self, worker: int)
        requires
            self.spec_well_formed(),
            self.spec_accounted(),
            0 <= worker < self.in_flight.len(),
        ensures
            self.spec_after_replacement(worker).spec_well_formed(),
            self.spec_after_replacement(worker).spec_accounted(),
    {
        self.lemma_recovery_keeps_account(worker);
        let recovered = self.spec_after_recovery(worker);
        let after = self.spec_after_replacement(worker);
        let last = recovered.in_flight.len() - 1;
        assert(after.in_flight.len() == recovered.in_flight.len());
        assert forall|slot: int| 0 <= slot < after.in_flight.len() implies #[trigger] after.in_flight[slot]
            == (if slot == last {
            None
        } else if slot == worker {
            recovered.in_flight[last]
        } else {
            recovered.in_flight[slot]
        }) by {}
        assert forall|other: Point2Int| #[trigger]
            after.spec_handed_out(other) && !after.settled.contains(other) implies exists|holder: int|
            spec_holds(after.in_flight, holder, other) by {
            assert(recovered.spec_handed_out(other));
            let holder = choose|holder: int| spec_holds(recovered.in_flight, holder, other);
            if holder == last {
                assert(spec_holds(after.in_flight, worker, other));
            } else {
                assert(spec_holds(after.in_flight, holder, other));
            }
        }
        assert forall|holder: int|
            0 <= holder < after.in_flight.len() && (#[trigger] after.in_flight[holder]).is_some() implies {
            let (held_ray, held) = after.in_flight[holder].unwrap();
            &&& after.spec_handed_out(held)
            &&& !after.settled.contains(held)
            &&& held_ray == after.view.spec_ray_through(held)
        } by {
            if holder == worker {
                assert(recovered.in_flight[last].is_some());
            } else {
                assert(recovered.in_flight[holder].is_some());
            }
        }
        assert forall|first: int, second: int|
            0 <= first < after.in_flight.len() && 0 <= second < after.in_flight.len() && first
                != second && (#[trigger] after.in_flight[first]).is_some()
                && (#[trigger] after.in_flight[second]).is_some() implies after.in_flight[first].unwrap().1
            != after.in_flight[second].unwrap().1 by {
            let origin_first = if first == worker { last } else { first };
            let origin_second = if second == worker { last } else { second };
            assert(recovered.in_flight[origin_first].is_some());
            assert(recovered.in_flight[origin_second].is_some());
        }
    }

    /// When the dispatcher recovers the rays of the first `count` workers, the
    /// books stay balanced.
    pub proof fn lemma_recoveries_keep_account(self, count: nat)
        requires
            self.spec_well_formed(),
            self.spec_accounted(),
            count <= self.in_flight.len(),
        ensures
            self.spec_after_recoveries(count).spec_well_formed(),
            self.spec_after_recoveries(count).spec_accounted(),
            self.spec_after_recoveries(count).in_flight.len() == self.in_flight.len(),
            self.spec_after_recoveries(count).view == self.view,
        decreases count,
    {
        if count > 0 {
            self.lemma_recoveries_keep_account((count - 1) as nat);
            self.spec_after_recoveries((count - 1) as nat).lemma_recovery_keeps_account(count - 1);
        }
    }

    /// When the dispatcher itself casts the rays of all pixels that had not
    /// been handed out, the books stay balanced.
    pub proof fn lemma_remaining_keeps_account(self)
        requires
            self.spec_well_formed(),
            self.spec_accounted(),
        ensures
            self.spec_after_remaining().spec_well_formed(),
            self.spec_after_remaining().spec_accounted(),
        decreases self.view.screen.spec_pixel_count() - self.dispatched,
    {
        if self.dispatched < self.view.screen.spec_pixel_count() {
            self.lemma_own_cast_keeps_account();
            self.spec_after_own_cast().lemma_remaining_keeps_account();
        }
    }

    /// Whatever happens to a dispatcher whose books balance, with workers that
    /// keep to the protocol, its books balance afterwards.
    pub proof fn lemma_event_keeps_account(self, event: PoolEvent)
        requires
            self.spec_well_formed(),
            self.spec_accounted(),
            self.spec_possible(event),
        ensures
            self.spec_after_event(event).spec_well_formed(),
            self.spec_after_event(event).spec_accounted(),
            self.spec_after_event(event).world == self.world,
            self.spec_after_event(event).view == self.view,
            self.spec_after_event(event).before == self.before,
    {
        match event {
            PoolEvent::Polled(worker, received) => match received {
                Err(_) => self.lemma_replacement_keeps_account(worker),
                Ok(None) => {},
                Ok(Some(WorkerMessage::Ready)) => self.lemma_ready_keeps_account(worker),
                Ok(Some(WorkerMessage::Result(color, coord))) => self.lemma_settle_keeps_account(
                    worker,
                    color,
                    coord,
                ),
            },
            PoolEvent::SendFailed(worker) => self.lemma_replacement_keeps_account(worker),
            PoolEvent::Drained(worker, received) => match received {
                Err(_) => self.lemma_recovery_keeps_account(worker),
                Ok(WorkerMessage::Ready) => {},
                Ok(WorkerMessage::Result(color, coord)) => self.lemma_settle_keeps_account(
                    worker,
                    color,
                    coord,
                ),
            },
            PoolEvent::Completed => {
                self.lemma_recoveries_keep_account(self.in_flight.len());
                self.spec_after_recoveries(self.in_flight.len()).lemma_remaining_keeps_account();
                self.lemma_completion_keeps_frame();
            },
        }
    }

    /// Finishing alone changes neither the world nor the view nor what is
    /// known of the output's start.
    pub proof fn lemma_completion_keeps_frame(self)
        ensures
            self.spec_after_completion().world == self.world,
            self.spec_after_completion().view == self.view,
            self.spec_after_completion().before == self.before,
    {
        self.lemma_recoveries_keep_frame(self.in_flight.len());
        self.spec_after_recoveries(self.in_flight.len()).lemma_remaining_keeps_frame();
    }

    proof fn lemma_recoveries_keep_frame(self, count: nat)
        ensures
            self.spec_after_recoveries(count).world == self.world,
            self.spec_after_recoveries(count).view == self.view,
            self.spec_after_recoveries(count).before == self.before,
        decreases count,
    {
        if count > 0 {
            self.lemma_recoveries_keep_frame((count - 1) as nat);
        }
    }

    proof fn lemma_remaining_keeps_frame(self)
        ensures
            self.spec_after_remaining().world == self.world,
            self.spec_after_remaining().view == self.view,
            self.spec_after_remaining().before == self.before,
        decreases self.view.screen.spec_pixel_count() - self.dispatched,
    {
        if self.dispatched < self.view.screen.spec_pixel_count() {
            self.spec_after_own_cast().lemma_remaining_keeps_frame();
        }
    }

    /// Any run of a dispatcher with workers that keep to the protocol keeps
    /// the books balanced, however polls, results, failures and replacements
    /// follow one another.
    pub proof fn lemma_run_keeps_account(self, events: Seq<PoolEvent>)
        requires
            self.spec_well_formed(),
            self.spec_accounted(),
            self.spec_all_possible(events),
        ensures
            self.spec_after_events(events).spec_well_formed(),
            self.spec_after_events(events).spec_accounted(),
            self.spec_after_events(events).world == self.world,
            self.spec_after_events(events).view == self.view,
            self.spec_after_events(events).before == self.before,
        decreases events.len(),
    {
        if events.len() > 0 {
            self.lemma_run_keeps_account(events.drop_last());
            self.spec_after_events(events.drop_last()).lemma_event_keeps_account(events.last());
        }
    }

    /// Every finished rendering is the same rendering. Start a dispatcher for
    /// any number of threads on a view of a world and let anything happen that
    /// can happen with workers that keep to the protocol, failures and
    /// replacements included, in any order. If the run ends with every pixel
    /// handed out and no worker out with one, the output holds what the renderer
    /// without workers leaves: every pixel rendered exactly as its ray sees it,
    /// none lost and none spoilt by a second answer.
    pub proof fn lemma_any_finished_run_renders(
        thread_count: u32,
        world: W,
        view: crate::view::View,
        before: O,
        events: Seq<PoolEvent>,
    )
        requires
            Self::spec_initial(thread_count, world, view, before).spec_all_possible(events),
            Self::spec_initial(thread_count, world, view, before).spec_after_events(
                events,
            ).spec_finished(),
        ensures
            Self::spec_initial(thread_count, world, view, before).spec_after_events(events).written
                == spec_render(world, view, before),
    {
        let initial = Self::spec_initial(thread_count, world, view, before);
        Self::lemma_initial_accounted(thread_count, world, view, before);
        initial.lemma_run_keeps_account(events);
        initial.spec_after_events(events).lemma_finished_is_rendered();
    }

    /// When every pixel has been handed out and no worker is out with one, the
    /// output holds the complete rendering: each pixel of the screen has been
    /// rendered, none has been lost.
    pub proof fn lemma_finished_is_rendered(self)
        requires
            self.spec_well_formed(),
            self.spec_accounted(),
            self.spec_finished(),
        ensures
            self.written == spec_render(self.world, self.view, self.before),
    {
        assert forall|coord: Point2Int| self.view.screen.spec_contains(coord) implies self.settled.contains(
            coord,
        ) by {
            self.view.screen.lemma_index_of(coord);
            if !self.settled.contains(coord) {
                assert(self.spec_handed_out(coord));
                let holder = choose|holder: int| spec_holds(self.in_flight, holder, coord);
                assert(self.in_flight[holder].is_none());
            }
        }
        lemma_partial_render_complete(self.world, self.view, self.before, self.settled);
    }

    /// The number of workers does not show in the result: two finished
    /// renderings of one view of one world onto outputs that started out alike
    /// hold the same pixels, whatever the number of threads of each and whatever
    /// the order in which their workers answered or failed; and they hold what
    /// the renderer without workers leaves.
    pub proof fn lemma_thread_count_is_immaterial(self, other: Self)
        requires
            self.spec_well_formed(),
            self.spec_accounted(),
            self.spec_finished(),
            other.spec_well_formed(),
            other.spec_accounted(),
            other.spec_finished(),
            self.world == other.world,
            self.view == other.view,
            self.before == other.before,
        ensures
            self.written == other.written,
            self.written == spec_render(self.world, self.view, self.before),
    {
        self.lemma_finished_is_rendered();
        other.lemma_finished_is_rendered();
    }
}

} // verus!
