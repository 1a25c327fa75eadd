//! Rendering split into tasks that can be carried out one by one, in any order and
//! by anyone.

use crate::defs::Point2Int;
use crate::ray::Ray;
use crate::renderer::output::RendererOutput;
use crate::world::RayCaster;
use vstd::prelude::*;

verus! {

/// What a task asks for.
#[derive(Clone, Copy, Debug, PartialEq, Eq, Structural)]
pub enum TaskKind {
    /// The colour that the ray sees, for the image itself.
    Primary,
    /// A sample of the indirect light at what the ray meets.
    GlobalIllumination,
}

/// One unit of work for the pixel `coord`, through which `ray` goes.
#[derive(Clone, Copy, Debug, PartialEq, Eq, Structural)]
pub struct RenderingTask {
    pub kind: TaskKind,
    pub ray: Ray,
    pub coord: Point2Int,
}

impl RenderingTask {
    #[verifier::allow_in_spec]
    pub fn new(kind: TaskKind, ray: Ray, coord: Point2Int) -> RenderingTask
        returns
            (RenderingTask { kind, ray, coord }),
    {
        RenderingTask { kind, ray, coord }
    }

    /// Casts the ray into `world` and hands the colour to `output`; says
    /// whether the output has taken a colour. A ray that meets nothing leaves
    /// the output as it is.
    pub fn execute<World: RayCaster, Output: RendererOutput>(&self, world: &World, output: &mut Output) -> (written:
        bool)
        requires
            old(output).spec_valid(),
        ensures
            final(output).spec_valid(),
            forall|other: Point2Int| #[trigger]
                final(output).spec_accepts(other) == old(output).spec_accepts(other),
            written == (world.spec_cast_ray(self.ray).is_some() && old(output).spec_accepts(
                self.coord,
            )),
            final(output).spec_written() == (match world.spec_cast_ray(self.ray) {
                Some(color) if old(output).spec_accepts(self.coord) => old(
                    output,
                ).spec_written().insert(self.coord, color),
                _ => old(output).spec_written(),
            }),
    {
        match world.cast_ray(&self.ray) {
            Some(color) => output.set_output(self.coord, color),
            None => false,
        }
    }
}

/// A source of tasks: a finite list that can be read again and again.
pub trait RenderingTaskProducer {
    /// The tasks, in order. A producer that does not say leaves them open.
    open spec fn spec_tasks(&self) -> Seq<RenderingTask> {
        arbitrary()
    }

    /// The number of tasks.
    fn task_count(&self) -> (count: u64)
        ensures
            count == self.spec_tasks().len(),
    ;

    /// The task at place `index`.
    fn get_task(&self, index: u64) -> (task: RenderingTask)
        requires
            index < self.spec_tasks().len(),
        ensures
            task == self.spec_tasks()[index as int],
    ;
}

/// The tasks of rendering a view: one for each pixel of its screen, in the order
/// of the screen's walk.
#[derive(Clone, Copy, Debug)]
pub struct WorldViewTaskProducer {
    pub view: crate::view::View,
}

impl WorldViewTaskProducer {
    #[verifier::allow_in_spec]
    pub fn new(view: crate::view::View) -> WorldViewTaskProducer
        returns
            (WorldViewTaskProducer { view }),
    {
        WorldViewTaskProducer { view }
    }
}

/// The tasks of the given kind for the pixels of `view`, in the order of the
/// screen's walk.
pub open spec fn spec_view_tasks(view: crate::view::View, kind: TaskKind) -> Seq<RenderingTask> {
    Seq::new(
        view.screen.spec_pixel_count(),
        |index: int|
            RenderingTask { kind, ray: view.spec_task(index).0, coord: view.spec_task(index).1 },
    )
}

impl RenderingTaskProducer for WorldViewTaskProducer {
    open spec fn spec_tasks(&self) -> Seq<RenderingTask> {
        spec_view_tasks(self.view, TaskKind::Primary)
    }

    fn task_count(&self) -> (count: u64) {
        self.view.screen.pixel_count()
    }

    fn get_task(&self, index: u64) -> (task: RenderingTask) {
        let coord = self.view.screen.coordinate_at(index);
        RenderingTask { kind: TaskKind::Primary, ray: self.view.ray_through(coord), coord }
    }
}

/// The tasks of sampling the indirect light of a view: one for each pixel of
/// its screen, in the order of the screen's walk.
#[derive(Clone, Copy, Debug)]
pub struct GlobalIlluminationShaderTaskProducer {
    pub view: crate::view::View,
}

impl GlobalIlluminationShaderTaskProducer {
    #[verifier::allow_in_spec]
    pub fn new(view: crate::view::View) -> GlobalIlluminationShaderTaskProducer
        returns
            (GlobalIlluminationShaderTaskProducer { view }),
    {
        GlobalIlluminationShaderTaskProducer { view }
    }
}

impl RenderingTaskProducer for GlobalIlluminationShaderTaskProducer {
    open spec fn spec_tasks(&self) -> Seq<RenderingTask> {
        spec_view_tasks(self.view, TaskKind::GlobalIllumination)
    }

    fn task_count(&self) -> (count: u64) {
        self.view.screen.pixel_count()
    }

    fn get_task(&self, index: u64) -> (task: RenderingTask) {
        let coord = self.view.screen.coordinate_at(index);
        RenderingTask {
            kind: TaskKind::GlobalIllumination,
            ray: self.view.ray_through(coord),
            coord,
        }
    }
}

/// A producer of either kind.
#[derive(Clone, Copy, Debug)]
pub enum TaskProducer {
    WorldView(WorldViewTaskProducer),
    GlobalIllumination(GlobalIlluminationShaderTaskProducer),
}

impl RenderingTaskProducer for TaskProducer {
    open spec fn spec_tasks(&self) -> Seq<RenderingTask> {
        match self {
            TaskProducer::WorldView(producer) => producer.spec_tasks(),
            TaskProducer::GlobalIllumination(producer) => producer.spec_tasks(),
        }
    }

    fn task_count(&self) -> (count: u64) {
        match self {
            TaskProducer::WorldView(producer) => producer.task_count(),
            TaskProducer::GlobalIllumination(producer) => producer.task_count(),
        }
    }

    fn get_task(&self, index: u64) -> (task: RenderingTask) {
        match self {
            TaskProducer::WorldView(producer) => producer.get_task(index),
            TaskProducer::GlobalIllumination(producer) => producer.get_task(index),
        }
    }
}

/// The tasks of the first `count` of `producers`, those of an earlier producer
/// before those of a later one.
pub open spec fn spec_concatenated<P: RenderingTaskProducer>(producers: Seq<P>, count: nat) -> Seq<
    RenderingTask,
>
    decreases count,
{
    if count == 0 {
        Seq::empty()
    } else {
        spec_concatenated(producers, (count - 1) as nat) + producers[count - 1].spec_tasks()
    }
}

/// The tasks of the first producers come first in the tasks of all.
pub proof fn lemma_concatenated_prefix<P: RenderingTaskProducer>(producers: Seq<P>, fewer: nat, more: nat)
    requires
        fewer <= more,
    ensures
        spec_concatenated(producers, fewer).len() <= spec_concatenated(producers, more).len(),
        spec_concatenated(producers, more).take(spec_concatenated(producers, fewer).len() as int)
            == spec_concatenated(producers, fewer),
    decreases more,
{
    if fewer < more {
        lemma_concatenated_prefix(producers, fewer, (more - 1) as nat);
        assert(spec_concatenated(producers, more).take(
            spec_concatenated(producers, fewer).len() as int,
        ) =~= spec_concatenated(producers, (more - 1) as nat).take(
            spec_concatenated(producers, fewer).len() as int,
        ));
    } else {
        assert(spec_concatenated(producers, more).take(
            spec_concatenated(producers, fewer).len() as int,
        ) =~= spec_concatenated(producers, fewer));
    }
}

/// Several producers, one after the other.
pub struct OrderedTaskProducers<P> {
    producers: Vec<P>,
}

impl<P: RenderingTaskProducer> OrderedTaskProducers<P> {
    /// The producers, in order.
    pub closed spec fn spec_producers(&self) -> Seq<P> {
        self.producers@
    }

    /// All tasks: those of the first producer, then those of the second, and
    /// so on.
    pub open spec fn spec_tasks(&self) -> Seq<RenderingTask> {
        spec_concatenated(self.spec_producers(), self.spec_producers().len())
    }

    pub fn new(producers: Vec<P>) -> (ordered: Self)
        ensures
            ordered.spec_producers() == producers@,
    {
        OrderedTaskProducers { producers }
    }

    /// A reader of all tasks that starts at the first.
    pub fn create_task_iterator(&self) -> (reader: OrderedTaskIterator<'_, P>)
        ensures
            reader.spec_well_formed(),
            reader.spec_producers() == self.spec_producers(),
            reader.spec_given() == 0,
    {
        OrderedTaskIterator { producers: &self.producers, producer: 0, position: 0 }
    }
}

/// A reader of the tasks of several producers that remembers how far it has
/// come.
pub struct OrderedTaskIterator<'a, P> {
    producers: &'a Vec<P>,
    producer: usize,
    position: u64,
}

impl<'a, P: RenderingTaskProducer> OrderedTaskIterator<'a, P> {
    /// The producers, in order.
    pub closed spec fn spec_producers(&self) -> Seq<P> {
        self.producers@
    }

    /// All tasks that the reader reads.
    pub open spec fn spec_tasks(&self) -> Seq<RenderingTask> {
        spec_concatenated(self.spec_producers(), self.spec_producers().len())
    }

    /// How many tasks the reader has given.
    pub closed spec fn spec_given(&self) -> nat {
        spec_concatenated(self.producers@, self.producer as nat).len() + self.position as nat
    }

    /// The reader stands within the tasks of one of its producers, or at the
    /// end.
    pub closed spec fn spec_well_formed(&self) -> bool {
        &&& self.producer <= self.producers@.len()
        &&& self.producer < self.producers@.len() ==> self.position
            <= self.producers@[self.producer as int].spec_tasks().len()
        &&& self.producer == self.producers@.len() ==> self.position == 0
    }

    /// Gives the next task and steps past it; `None`, with nothing given, once
    /// all tasks of all producers have been given.
    pub fn next(&mut self) -> (task: Option<RenderingTask>)
        requires
            old(self).spec_well_formed(),
        ensures
            final(self).spec_well_formed(),
            final(self).spec_producers() == old(self).spec_producers(),
            old(self).spec_given() <= old(self).spec_tasks().len(),
            old(self).spec_given() < old(self).spec_tasks().len() ==> {
                &&& task == Some(old(self).spec_tasks()[old(self).spec_given() as int])
                &&& final(self).spec_given() == old(self).spec_given() + 1
            },
            old(self).spec_given() == old(self).spec_tasks().len() ==> {
                &&& task.is_none()
                &&& final(self).spec_given() == old(self).spec_given()
            },
    {
        let ghost producers = self.producers@;
        let ghost given = self.spec_given();
        while self.producer < self.producers.len()
            invariant
                self.spec_well_formed(),
                self.producers@ == producers,
                self.spec_given() == given,
            ensures
                self.producer < self.producers.len() ==> self.position
                    < producers[self.producer as int].spec_tasks().len(),
            decreases self.producers@.len() - self.producer,
        {
            if self.position < self.producers[self.producer].task_count() {
                break ;
            }
            self.producer = self.producer + 1;
            self.position = 0;
        }
        proof {
            lemma_concatenated_prefix(producers, self.producer as nat, producers.len());
        }
        if self.producer < self.producers.len() {
            let count = self.producers[self.producer].task_count();
            let task = self.producers[self.producer].get_task(self.position);
            proof {
                lemma_concatenated_prefix(producers, (self.producer + 1) as nat, producers.len());
                let all = spec_concatenated(producers, producers.len());
                let upto = spec_concatenated(producers, (self.producer + 1) as nat);
                assert(all.take(upto.len() as int)[given as int] == all[given as int]);
            }
            self.position = self.position + 1;
            Some(task)
        } else {
            None
        }
    }
}

} // verus!
