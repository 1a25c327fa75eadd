use rtrace::color::Color;
use rtrace::defs::{Point2Int, Point3, Vector3};
use rtrace::fixed::Fixed;
use rtrace::ray::Ray;
use rtrace::scene_buffer::{BasicSceneBuffer, ImmutableSceneBuffer};
use rtrace::task::{
    GlobalIlluminationShaderTaskProducer, OrderedTaskProducers, RenderingTask,
    RenderingTaskProducer, TaskKind, TaskProducer, WorldViewTaskProducer,
};
use rtrace::view::View;
use rtrace::world::RayCaster;

fn whole(value: i32) -> Fixed {
    Fixed::from_int(value)
}

fn view(columns: u32) -> View {
    View::new_unit(
        Point3::new(whole(0), whole(0), whole(0)),
        Vector3::new(whole(0), whole(0), whole(1)),
        Vector3::new(whole(0), whole(1), whole(0)),
        whole(2),
        whole(2),
        columns,
    )
}

/// A scene that shows every ray its own direction.
struct Compass;

impl RayCaster for Compass {
    fn cast_ray(&self, ray: &Ray) -> Option<Color> {
        if ray.direction.y.raw > 0 {
            Some(Color::new(ray.direction.x, ray.direction.y, ray.direction.z))
        } else {
            None
        }
    }
}

/// A producer of a fixed number of tasks that tells them apart by column.
struct Numbered {
    row: u32,
    count: u64,
}

impl RenderingTaskProducer for Numbered {
    fn task_count(&self) -> u64 {
        self.count
    }

    fn get_task(&self, index: u64) -> RenderingTask {
        let ray = Ray::new(Point3::new(whole(0), whole(0), whole(0)), Vector3::new(whole(0), whole(0), whole(1)));
        RenderingTask::new(TaskKind::Primary, ray, Point2Int::new(index as u32, self.row))
    }
}

fn all_tasks<P: RenderingTaskProducer>(ordered: &OrderedTaskProducers<P>) -> Vec<RenderingTask> {
    let mut reader = ordered.create_task_iterator();
    let mut tasks = Vec::new();
    while let Some(task) = reader.next() {
        tasks.push(task);
    }
    assert_eq!(reader.next(), None);
    tasks
}

#[test]
fn view_producer_has_one_task_for_each_pixel() {
    let view = view(4);
    let producer = WorldViewTaskProducer::new(view);
    assert_eq!(producer.task_count(), 8);
    for index in 0..8 {
        let task = producer.get_task(index);
        let coord = Point2Int::new((index % 4) as u32, (index / 4) as u32);
        assert_eq!(task, RenderingTask::new(TaskKind::Primary, view.ray_through(coord), coord));
    }
    let sampling = GlobalIlluminationShaderTaskProducer::new(view);
    assert_eq!(sampling.task_count(), 8);
    assert_eq!(sampling.get_task(5).kind, TaskKind::GlobalIllumination);
    assert_eq!(sampling.get_task(5).coord, Point2Int::new(1, 1));
    assert_eq!(sampling.get_task(5).ray, view.ray_through(Point2Int::new(1, 1)));
}

#[test]
fn ordered_producers_give_earlier_producers_first() {
    let ordered = OrderedTaskProducers::new(vec![
        Numbered { row: 0, count: 2 },
        Numbered { row: 1, count: 0 },
        Numbered { row: 2, count: 3 },
        Numbered { row: 3, count: 1 },
    ]);
    let coords: Vec<(u32, u32)> =
        all_tasks(&ordered).iter().map(|task| (task.coord.y, task.coord.x)).collect();
    assert_eq!(coords, vec![(0, 0), (0, 1), (2, 0), (2, 1), (2, 2), (3, 0)]);
}

#[test]
fn ordered_producers_can_be_read_again() {
    let view = view(2);
    let ordered = OrderedTaskProducers::new(vec![
        TaskProducer::WorldView(WorldViewTaskProducer::new(view)),
        TaskProducer::GlobalIllumination(GlobalIlluminationShaderTaskProducer::new(view)),
    ]);
    let first = all_tasks(&ordered);
    let second = all_tasks(&ordered);
    assert_eq!(first, second);
    assert_eq!(first.len(), 4);
    let kinds: Vec<TaskKind> = first.iter().map(|task| task.kind).collect();
    assert_eq!(
        kinds,
        vec![
            TaskKind::Primary,
            TaskKind::Primary,
            TaskKind::GlobalIllumination,
            TaskKind::GlobalIllumination
        ]
    );
    assert_eq!(first[0].coord, first[2].coord);
    assert_eq!(first[1].ray, first[3].ray);
}

#[test]
fn no_producers_no_tasks() {
    let nothing: OrderedTaskProducers<Numbered> = OrderedTaskProducers::new(vec![]);
    assert_eq!(all_tasks(&nothing), vec![]);
    let idle = OrderedTaskProducers::new(vec![Numbered { row: 0, count: 0 }]);
    assert_eq!(all_tasks(&idle), vec![]);
}

#[test]
fn task_casts_its_ray_and_writes_its_pixel() {
    let view = view(2);
    let mut buffer = BasicSceneBuffer::new(*view.get_screen());
    let up = Ray::new(Point3::new(whole(0), whole(0), whole(0)), Vector3::new(whole(0), whole(1), whole(0)));
    let down = Ray::new(Point3::new(whole(0), whole(0), whole(0)), Vector3::new(whole(0), whole(-1), whole(0)));
    assert!(RenderingTask::new(TaskKind::Primary, up, Point2Int::new(1, 0)).execute(&Compass, &mut buffer));
    assert!(!RenderingTask::new(TaskKind::Primary, down, Point2Int::new(0, 0)).execute(&Compass, &mut buffer));
    assert!(!RenderingTask::new(TaskKind::Primary, up, Point2Int::new(2, 0)).execute(&Compass, &mut buffer));
    assert_eq!(
        buffer.get_pixel_value(Point2Int::new(1, 0)).unwrap().map(|color| color.get()),
        Some((whole(0), whole(1), whole(0)))
    );
    assert_eq!(buffer.get_pixel_value(Point2Int::new(0, 0)).unwrap().map(|color| color.get()), None);
}

#[test]
fn tasks_in_any_order_give_the_same_picture() {
    let view = view(4);
    let ordered = OrderedTaskProducers::new(vec![WorldViewTaskProducer::new(view)]);
    let tasks = all_tasks(&ordered);
    let mut forward = BasicSceneBuffer::new(*view.get_screen());
    for task in tasks.iter() {
        task.execute(&Compass, &mut forward);
    }
    let mut backward = BasicSceneBuffer::new(*view.get_screen());
    for task in tasks.iter().rev() {
        task.execute(&Compass, &mut backward);
    }
    for y in 0..2 {
        for x in 0..4 {
            let coord = Point2Int::new(x, y);
            let seen = forward.get_pixel_value(coord).unwrap().map(|color| color.get());
            assert_eq!(seen, backward.get_pixel_value(coord).unwrap().map(|color| color.get()));
            assert_eq!(seen, Compass.cast_ray(&view.ray_through(coord)).map(|color| color.get()));
            assert_eq!(seen.is_some(), y == 0);
        }
    }
}
