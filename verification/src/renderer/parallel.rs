//! The dispatcher of the renderer that works with a pool of workers.
//!
//! The pool itself, its threads and channels, is the caller's. The dispatcher
//! decides: the caller polls a worker, hands what it received to
//! `process_message` and does what the directive that comes back says. When a
//! worker can no longer be reached, the caller hands over `Err`, or calls
//! `replace_worker` where it was the sending that failed, and the dispatcher casts
//! the ray that the worker was out with itself. After `Directive::Finish` the
//! caller tells every worker to stop, waits for them and hands what each still had
//! to say to `drain_message`, up to and including the `Err` that ends it.
//!
//! A renderer made for `n` threads has a pool of `n - 1` workers: one thread is
//! the dispatcher's own. A worker is handed a ray only in answer to its `Ready`,
//! so that a worker is never out with more than one ray; this holds for a
//! replacement too, which gets its first ray when its first `Ready` has arrived.
//! With no worker at all, `execute` renders everything on the calling thread.

use crate::color::Color;
use crate::defs::Point2Int;
use crate::ray::Ray;
use crate::renderer::dispatch::{
    spec_holds, spec_worker_count, ControlMessage, Directive, DispatcherState, WorkerMessage,
};
use crate::renderer::output::{spec_render, RendererOutput};
use crate::view::ViewIterator;
use crate::world::RayCaster;
use std::sync::Arc;
use vstd::prelude::*;

verus! {

/// The part of a worker that answers control messages.
pub struct ParallelWorker<WorldType> {
    world: Arc<WorldType>,
}

impl<WorldType: RayCaster> ParallelWorker<WorldType> {
    /// The world that the worker casts rays into.
    pub closed spec fn spec_world(&self) -> WorldType {
        *self.world
    }

    pub fn new(world: Arc<WorldType>) -> (worker: Self)
        ensures
            worker.spec_world() == *world,
    {
        Self { world }
    }

    /// The answer to a control message: the result of the ray that was sent,
    /// after which the worker is ready again, or `None` where the worker has
    /// been told to stop.
    pub fn answer(&self, message: ControlMessage) -> (reply: Option<WorkerMessage>)
        ensures
            reply == (match message {
                ControlMessage::CastRay(ray, coord) => Some(
                    WorkerMessage::Result(self.spec_world().spec_cast_ray(ray), coord),
                ),
                ControlMessage::Exit => None,
            }),
    {
        match message {
            ControlMessage::CastRay(ray, coord) => {
                let color = self.world.cast_ray(&ray);
                Some(WorkerMessage::Result(color, coord))
            },
            ControlMessage::Exit => None,
        }
    }
}

/// A world, a view of it, the output that the rendering goes to, and the books
/// of the dispatcher that hands the pixels of the view to workers.
pub struct ParalellRenderer<WorldType, OutputType> {
    thread_count: u32,
    world: Arc<WorldType>,
    view: crate::view::View,
    output: OutputType,
    tasks: ViewIterator,
    in_flight: Vec<Option<(Ray, Point2Int)>>,
    before: Ghost<OutputType>,
    settled: Ghost<Set<Point2Int>>,
}

impl<WorldType: RayCaster, OutputType: RendererOutput> View for ParalellRenderer<
    WorldType,
    OutputType,
> {
    type V = DispatcherState<WorldType, OutputType>;

    closed spec fn view(&self) -> DispatcherState<WorldType, OutputType> {
        DispatcherState {
            thread_count: self.thread_count,
            world: *self.world,
            view: self.view,
            before: self.before@,
            written: self.output.spec_written(),
            settled: self.settled@,
            in_flight: self.in_flight@,
            dispatched: self.tasks.spec_position(),
        }
    }
}

impl<WorldType: RayCaster, OutputType: RendererOutput> ParalellRenderer<WorldType, OutputType> {
    /// The output as it stands.
    pub closed spec fn spec_output(&self) -> OutputType {
        self.output
    }

    /// The invariant of the renderer: its books are well formed, its output is
    /// valid and takes what it took at the start, and it walks its own view.
    pub closed spec fn spec_well_formed(&self) -> bool {
        &&& self@.spec_well_formed()
        &&& self.tasks.view == self.view
        &&& self.tasks.pixels.screen == self.view.screen
        &&& self.output.spec_valid()
        &&& forall|coord: Point2Int| #[trigger]
            self.output.spec_accepts(coord) == self.before@.spec_accepts(coord)
    }

    /// A renderer for `thread_count` threads, of which one is the dispatcher's.
    pub fn new(thread_count: u32, world: WorldType, view: crate::view::View, output: OutputType) -> (renderer:
        Self)
        requires
            output.spec_valid(),
        ensures
            renderer.spec_well_formed(),
            renderer@ == DispatcherState::spec_initial(thread_count, world, view, output),
            renderer@.spec_accounted(),
            renderer.spec_output() == output,
    {
        let workers: u32 = if thread_count >= 1 { thread_count - 1 } else { 0 };
        let mut in_flight: Vec<Option<(Ray, Point2Int)>> = Vec::new();
        let mut count: u32 = 0;
        while count < workers
            invariant
                count <= workers,
                in_flight@ == Seq::new(count as nat, |worker: int| None::<(Ray, Point2Int)>),
            decreases workers - count,
        {
            in_flight.push(None);
            count = count + 1;
            assert(in_flight@ =~= Seq::new(count as nat, |worker: int| None::<(Ray, Point2Int)>));
        }
        let renderer = Self {
            thread_count,
            world: Arc::new(world),
            view,
            output,
            tasks: ViewIterator::new(&view),
            in_flight,
            before: Ghost(output),
            settled: Ghost(Set::empty()),
        };
        proof {
            DispatcherState::lemma_initial_accounted(thread_count, world, view, output);
            assert(renderer@.in_flight =~= DispatcherState::spec_initial(
                thread_count,
                world,
                view,
                output,
            ).in_flight);
        }
        renderer
    }

    /// The number of workers that the pool is to have.
    pub fn worker_count(&self) -> (count: usize)
        requires
            self.spec_well_formed(),
        ensures
            count == self@.in_flight.len(),
            count == spec_worker_count(self@.thread_count),
    {
        self.in_flight.len()
    }

    /// The world, to be shared with the workers.
    pub fn get_world(&self) -> (world: &Arc<WorldType>)
        ensures
            **world == self@.world,
    {
        &self.world
    }

    pub fn get_renderer_output(&self) -> (output: &OutputType)
        ensures
            *output == self.spec_output(),
            output.spec_written() == self@.written,
            self.spec_well_formed() ==> output.spec_valid(),
            self.spec_well_formed() && self@.spec_accounted() && self@.spec_finished()
                ==> output.spec_written() == spec_render(self@.world, self@.view, self@.before),
    {
        proof {
            if self.spec_well_formed() && self@.spec_accounted() && self@.spec_finished() {
                self@.lemma_finished_is_rendered();
            }
        }
        &self.output
    }

    /// Whether every pixel has been handed out and no worker is out with one.
    pub fn is_finished(&self) -> (finished: bool)
        requires
            self.spec_well_formed(),
        ensures
            finished == self@.spec_finished(),
    {
        if self.tasks.pixels.position < self.tasks.pixels.screen.pixel_count() {
            return false;
        }
        let mut worker: usize = 0;
        while worker < self.in_flight.len()
            invariant
                worker <= self.in_flight.len(),
                forall|earlier: int| 0 <= earlier < worker ==> (#[trigger] self.in_flight@[earlier]).is_none(),
            decreases self.in_flight.len() - worker,
        {
            if self.in_flight[worker].is_some() {
                return false;
            }
            worker = worker + 1;
        }
        true
    }

    /// Takes what the poll of worker `worker_index` has given, brings the books
    /// up to date and says what the pool has to do for that worker.
    pub fn process_message(
        &mut self,
        worker_index: usize,
        received: Result<Option<WorkerMessage>, ()>,
    ) -> (directive: Directive)
        requires
            old(self).spec_well_formed(),
            worker_index < old(self)@.in_flight.len(),
        ensures
            final(self).spec_well_formed(),
            final(self)@ == old(self)@.spec_after_message(worker_index as int, received),
            directive == old(self)@.spec_directive(received),
            old(self)@.spec_accounted() && (received matches Ok(Some(message))
                ==> old(self)@.spec_honest(worker_index as int, message))
                ==> final(self)@.spec_accounted(),
    {
        match received {
            Err(_) => {
                self.replace_worker(worker_index);
                Directive::Replace
            },
            Ok(None) => Directive::Idle,
            Ok(Some(WorkerMessage::Ready)) => self.dispatch_next(worker_index),
            Ok(Some(WorkerMessage::Result(color, coord))) => {
                self.record_result(worker_index, color, coord);
                Directive::Idle
            },
        }
    }

    /// Retires the failed worker `index`: the dispatcher casts the ray that the
    /// worker was out with itself, the last worker of the pool takes the place
    /// of the failed one, and a new worker stands at the end.
    pub fn replace_worker(&mut self, index: usize)
        requires
            old(self).spec_well_formed(),
            index < old(self)@.in_flight.len(),
        ensures
            final(self).spec_well_formed(),
            final(self)@ == old(self)@.spec_after_replacement(index as int),
            old(self)@.spec_accounted() ==> final(self)@.spec_accounted(),
    {
        self.recover(index);
        self.in_flight.swap_remove(index);
        self.in_flight.push(None);
        proof {
            assert(self@.in_flight =~= old(self)@.spec_after_replacement(index as int).in_flight);
            if old(self)@.spec_accounted() {
                old(self)@.lemma_replacement_keeps_account(index as int);
            }
        }
    }

    /// Takes what the last wait for worker `worker_index` has given, after all
    /// workers have been told to stop, and says whether that worker has nothing
    /// more to say.
    pub fn drain_message(&mut self, worker_index: usize, received: Result<WorkerMessage, ()>) -> (drained:
        bool)
        requires
            old(self).spec_well_formed(),
            worker_index < old(self)@.in_flight.len(),
        ensures
            final(self).spec_well_formed(),
            final(self)@ == old(self)@.spec_after_drain(worker_index as int, received),
            drained == received.is_err(),
            drained ==> final(self)@.in_flight[worker_index as int].is_none(),
            old(self)@.spec_accounted() && (received matches Ok(message) ==> old(self)@.spec_honest(
                worker_index as int,
                message,
            ) || message == WorkerMessage::Ready) ==> final(self)@.spec_accounted(),
    {
        match received {
            Err(_) => {
                self.recover(worker_index);
                true
            },
            Ok(WorkerMessage::Ready) => false,
            Ok(WorkerMessage::Result(color, coord)) => {
                self.record_result(worker_index, color, coord);
                false
            },
        }
    }

    /// Finishes the rendering on the dispatcher's own thread: it casts the
    /// rays that workers are still out with, and then the rays of all pixels
    /// that have not been handed out. With no worker in the pool this is the
    /// whole rendering.
    pub fn execute(&mut self)
        requires
            old(self).spec_well_formed(),
        ensures
            final(self).spec_well_formed(),
            final(self)@ == old(self)@.spec_after_completion(),
            final(self)@.spec_finished(),
            old(self)@.spec_accounted() ==> final(self)@.spec_accounted()
                && final(self).spec_output().spec_written() == spec_render(
                old(self)@.world,
                old(self)@.view,
                old(self)@.before,
            ),
    {
        let mut worker: usize = 0;
        while worker < self.in_flight.len()
            invariant
                self.spec_well_formed(),
                worker <= self@.in_flight.len(),
                self@.in_flight.len() == old(self)@.in_flight.len(),
                self@ == old(self)@.spec_after_recoveries(worker as nat),
                self@.world == old(self)@.world,
                self@.view == old(self)@.view,
                self@.before == old(self)@.before,
                forall|earlier: int|
                    0 <= earlier < worker ==> (#[trigger] self@.in_flight[earlier]).is_none(),
                old(self)@.spec_accounted() ==> self@.spec_accounted(),
            decreases self.in_flight.len() - worker,
        {
            self.recover(worker);
            worker = worker + 1;
        }
        let ghost recovered = self@;
        loop
            invariant
                self.spec_well_formed(),
                self@.spec_after_remaining() == recovered.spec_after_remaining(),
                self@.world == old(self)@.world,
                self@.view == old(self)@.view,
                self@.before == old(self)@.before,
                forall|slot: int|
                    0 <= slot < self@.in_flight.len() ==> (#[trigger] self@.in_flight[slot]).is_none(),
                old(self)@.spec_accounted() ==> self@.spec_accounted(),
            ensures
                self@.dispatched >= self@.view.screen.spec_pixel_count(),
            decreases self@.view.screen.spec_pixel_count() - self@.dispatched,
        {
            let ghost current = self@;
            match self.tasks.next() {
                Some((ray, coord)) => {
                    match self.world.cast_ray(&ray) {
                        Some(color) => {
                            self.output.set_output(coord, color);
                        },
                        None => (),
                    }
                    self.settled = Ghost(self.settled@.insert(coord));
                    proof {
                        assert(self@ == current.spec_after_own_cast());
                        if current.spec_accounted() {
                            current.lemma_own_cast_keeps_account();
                        }
                    }
                },
                None => {
                    break ;
                },
            }
        }
        proof {
            if old(self)@.spec_accounted() {
                self@.lemma_finished_is_rendered();
            }
        }
    }

    /// Hands the next pixel of the walk to the worker, if one is left.
    fn dispatch_next(&mut self, worker_index: usize) -> (directive: Directive)
        requires
            old(self).spec_well_formed(),
            worker_index < old(self)@.in_flight.len(),
        ensures
            final(self).spec_well_formed(),
            final(self)@ == old(self)@.spec_after_ready(worker_index as int),
            directive == old(self)@.spec_directive_after_ready(),
            old(self)@.spec_accounted() && old(self)@.spec_honest(
                worker_index as int,
                WorkerMessage::Ready,
            ) ==> final(self)@.spec_accounted(),
    {
        proof {
            if old(self)@.spec_accounted() && old(self)@.spec_honest(
                worker_index as int,
                WorkerMessage::Ready,
            ) {
                old(self)@.lemma_ready_keeps_account(worker_index as int);
            }
        }
        match self.tasks.next() {
            Some((ray, coord)) => {
                self.in_flight[worker_index] = Some((ray, coord));
                assert(self@.in_flight =~= old(self)@.spec_after_ready(worker_index as int).in_flight);
                Directive::Dispatch(ray, coord)
            },
            None => Directive::Finish,
        }
    }

    /// Offers the colour of a result to the output and settles the pixel where
    /// the worker was out with it.
    fn record_result(&mut self, worker_index: usize, color: Option<Color>, coord: Point2Int)
        requires
            old(self).spec_well_formed(),
            worker_index < old(self)@.in_flight.len(),
        ensures
            final(self).spec_well_formed(),
            final(self)@ == old(self)@.spec_after_result(worker_index as int, color, coord),
            old(self)@.spec_accounted() && old(self)@.spec_honest(
                worker_index as int,
                WorkerMessage::Result(color, coord),
            ) ==> final(self)@.spec_accounted(),
    {
        proof {
            if old(self)@.spec_accounted() && old(self)@.spec_honest(
                worker_index as int,
                WorkerMessage::Result(color, coord),
            ) {
                old(self)@.lemma_settle_keeps_account(worker_index as int, color, coord);
            }
        }
        match color {
            Some(color) => {
                self.output.set_output(coord, color);
            },
            None => (),
        }
        let held = match self.in_flight[worker_index] {
            Some((_, pixel)) => pixel == coord,
            None => false,
        };
        if held {
            self.in_flight[worker_index] = None;
            self.settled = Ghost(self.settled@.insert(coord));
            assert(self@.in_flight =~= old(self)@.spec_after_result(
                worker_index as int,
                color,
                coord,
            ).in_flight);
        }
    }

    /// Casts the ray that the worker was out with, if any, and settles its
    /// pixel.
    fn recover(&mut self, worker_index: usize)
        requires
            old(self).spec_well_formed(),
            worker_index < old(self)@.in_flight.len(),
        ensures
            final(self).spec_well_formed(),
            final(self)@ == old(self)@.spec_after_recovery(worker_index as int),
            final(self)@.in_flight[worker_index as int].is_none(),
            old(self)@.spec_accounted() ==> final(self)@.spec_accounted(),
    {
        proof {
            if old(self)@.spec_accounted() {
                old(self)@.lemma_recovery_keeps_account(worker_index as int);
            }
        }
        match self.in_flight[worker_index] {
            Some((ray, coord)) => {
                match self.world.cast_ray(&ray) {
                    Some(color) => {
                        self.output.set_output(coord, color);
                    },
                    None => (),
                }
                self.in_flight[worker_index] = None;
                self.settled = Ghost(self.settled@.insert(coord));
                assert(self@.in_flight =~= old(self)@.spec_after_recovery(
                    worker_index as int,
                ).in_flight);
            },
            None => (),
        }
    }
}

} // verus!
