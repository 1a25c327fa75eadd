use rtrace::color::Color;
use rtrace::defs::{Point2Int, Point3, Vector3};
use rtrace::fixed::Fixed;
use rtrace::ray::Ray;
use rtrace::renderer::{
    ControlMessage, Directive, ParalellRenderer, ParallelWorker, RendererOutput,
    SingleThreadedRenderer, WorkerMessage,
};
use rtrace::scene_buffer::{BasicSceneBuffer, ImmutableSceneBuffer};
use rtrace::screen::Screen;
use rtrace::view::View;
use rtrace::world::RayCaster;
use std::collections::VecDeque;
use std::sync::Arc;

fn whole(value: i32) -> Fixed {
    Fixed::from_int(value)
}

/// A scene that shows the direction of every ray that looks to the viewer's
/// left or straight ahead, and nothing to the right.
struct Stripes;

impl RayCaster for Stripes {
    fn cast_ray(&self, ray: &Ray) -> Option<Color> {
        if ray.direction.x.raw >= 0 {
            Some(Color::new(ray.direction.x, ray.direction.y, ray.direction.z))
        } else {
            None
        }
    }
}

/// An output that keeps every colour it is handed, in the order of arrival.
struct Recorder {
    screen: Screen,
    writes: Vec<(Point2Int, Color)>,
}

impl Recorder {
    fn new(screen: Screen) -> Self {
        Recorder { screen, writes: Vec::new() }
    }

    fn pixels(&self) -> Vec<(Point2Int, (Fixed, Fixed, Fixed))> {
        let mut pixels: Vec<(Point2Int, (Fixed, Fixed, Fixed))> =
            self.writes.iter().map(|(coord, color)| (*coord, color.get())).collect();
        pixels.sort_by_key(|(coord, _)| (coord.y, coord.x));
        pixels
    }

    fn writes_at(&self, coord: Point2Int) -> usize {
        self.writes.iter().filter(|(written, _)| *written == coord).count()
    }
}

impl RendererOutput for Recorder {
    fn set_output(&mut self, coord: Point2Int, color: Color) -> bool {
        if self.screen.contains(coord) {
            self.writes.push((coord, color));
            true
        } else {
            false
        }
    }
}

fn view(columns: u32) -> View {
    View::new_unit(
        Point3::new(whole(0), whole(0), whole(0)),
        Vector3::new(whole(0), whole(0), whole(1)),
        Vector3::new(whole(0), whole(1), whole(0)),
        whole(2),
        whole(2),
        columns,
    )
}

fn expected(view: &View) -> Vec<(Point2Int, (Fixed, Fixed, Fixed))> {
    let mut pixels = Vec::new();
    let (columns, rows) = view.get_screen().get_resolution();
    for y in 0..rows {
        for x in 0..columns {
            let coord = Point2Int::new(x, y);
            if let Some(color) = Stripes.cast_ray(&view.ray_through(coord)) {
                pixels.push((coord, color.get()));
            }
        }
    }
    pixels
}

fn render_alone(view: &View) -> Recorder {
    let mut renderer = SingleThreadedRenderer::new(Stripes, *view, Recorder::new(*view.get_screen()));
    renderer.execute();
    let output = renderer.get_renderer_output();
    Recorder { screen: output.screen, writes: output.writes.clone() }
}

/// A worker of the pool as the dispatcher sees it: what it has been sent, what
/// it has answered, and whether it is still there.
struct Worker {
    logic: ParallelWorker<Stripes>,
    inbox: VecDeque<ControlMessage>,
    outbox: VecDeque<WorkerMessage>,
    alive: bool,
}

impl Worker {
    fn spawn(world: &Arc<Stripes>) -> Self {
        let mut outbox = VecDeque::new();
        outbox.push_back(WorkerMessage::Ready);
        Worker { logic: ParallelWorker::new(Arc::clone(world)), inbox: VecDeque::new(), outbox, alive: true }
    }

    fn work(&mut self) {
        while self.alive {
            match self.inbox.pop_front() {
                Some(message) => match self.logic.answer(message) {
                    Some(reply) => {
                        self.outbox.push_back(reply);
                        self.outbox.push_back(WorkerMessage::Ready);
                    },
                    None => self.alive = false,
                },
                None => break,
            }
        }
    }

    fn poll(&mut self) -> Result<Option<WorkerMessage>, ()> {
        match self.outbox.pop_front() {
            Some(message) => Ok(Some(message)),
            None => if self.alive { Ok(None) } else { Err(()) },
        }
    }

    fn send(&mut self, message: ControlMessage) -> Result<(), ControlMessage> {
        if self.alive {
            self.inbox.push_back(message);
            Ok(())
        } else {
            Err(message)
        }
    }
}

/// Runs the protocol of the pool against a renderer. Before each poll the polled
/// worker gets to work with a chance of one in `pace`; at the step `kill_at.0` the
/// worker `kill_at.1` dies with whatever it was sent and has not answered.
fn render_with_pool(thread_count: u32, view: &View, pace: usize, kill_at: Option<(usize, usize)>) -> Recorder {
    let mut renderer = ParalellRenderer::new(thread_count, Stripes, *view, Recorder::new(*view.get_screen()));
    let world = Arc::clone(renderer.get_world());
    let mut workers: Vec<Worker> = (0..renderer.worker_count()).map(|_| Worker::spawn(&world)).collect();
    assert_eq!(workers.len() as u32, thread_count.saturating_sub(1));
    if workers.is_empty() {
        renderer.execute();
    } else {
        let mut step = 0;
        let mut dice: u64 = 0x2545_F491_4F6C_DD1D ^ (pace as u64);
        'polling: loop {
            for index in 0..workers.len() {
                step += 1;
                if let Some((when, victim)) = kill_at {
                    if when == step && victim < workers.len() {
                        workers[victim].alive = false;
                    }
                }
                dice = dice.wrapping_mul(6_364_136_223_846_793_005).wrapping_add(1_442_695_040_888_963_407);
                if (dice >> 33) as usize % pace == 0 {
                    workers[index].work();
                }
                let received = workers[index].poll();
                match renderer.process_message(index, received) {
                    Directive::Idle => (),
                    Directive::Dispatch(ray, coord) => {
                        if workers[index].send(ControlMessage::CastRay(ray, coord)).is_err() {
                            renderer.replace_worker(index);
                            workers.swap_remove(index);
                            workers.push(Worker::spawn(&world));
                        }
                    },
                    Directive::Replace => {
                        workers.swap_remove(index);
                        workers.push(Worker::spawn(&world));
                    },
                    Directive::Finish => break 'polling,
                }
            }
            assert!(step < 100_000);
        }
        for index in 0..workers.len() {
            let _ = workers[index].send(ControlMessage::Exit);
            workers[index].work();
            workers[index].alive = false;
            loop {
                let received = match workers[index].outbox.pop_front() {
                    Some(message) => Ok(message),
                    None => Err(()),
                };
                if renderer.drain_message(index, received) {
                    break;
                }
            }
        }
    }
    assert!(renderer.is_finished());
    let output = renderer.get_renderer_output();
    Recorder { screen: output.screen, writes: output.writes.clone() }
}

#[test]
fn single_threaded_renderer_writes_every_hit_in_walk_order() {
    let view = view(6);
    let output = render_alone(&view);
    let written: Vec<(Point2Int, (Fixed, Fixed, Fixed))> =
        output.writes.iter().map(|(coord, color)| (*coord, color.get())).collect();
    assert_eq!(written, expected(&view));
    assert_eq!(written.len(), 9);
}

#[test]
fn single_threaded_renderer_fills_a_scene_buffer() {
    let view = view(4);
    let buffer = BasicSceneBuffer::new(*view.get_screen());
    let mut renderer = SingleThreadedRenderer::new(Stripes, view, buffer);
    renderer.execute();
    let output = renderer.get_renderer_output();
    for y in 0..2 {
        for x in 0..4 {
            let coord = Point2Int::new(x, y);
            let held = output.get_pixel_value(coord).unwrap().map(|color| color.get());
            assert_eq!(held, Stripes.cast_ray(&view.ray_through(coord)).map(|color| color.get()));
            assert_eq!(held.is_some(), x < 2);
        }
    }
}

#[test]
fn renderer_leaves_pixels_that_its_output_refuses() {
    let view = view(6);
    let mut renderer = SingleThreadedRenderer::new(Stripes, view, Recorder::new(Screen::new(2, 2)));
    renderer.execute();
    let output = renderer.get_renderer_output();
    assert_eq!(output.writes.len(), 4);
    for (coord, _) in &output.writes {
        assert!(coord.x < 2 && coord.y < 2);
    }
}

#[test]
fn worker_answers_rays_and_stops_on_exit() {
    let worker = ParallelWorker::new(Arc::new(Stripes));
    let ray = Ray::new(Point3::new(whole(0), whole(0), whole(0)), Vector3::new(whole(1), whole(2), whole(3)));
    let coord = Point2Int::new(5, 6);
    match worker.answer(ControlMessage::CastRay(ray, coord)) {
        Some(WorkerMessage::Result(Some(color), at)) => {
            assert_eq!(color.get(), (whole(1), whole(2), whole(3)));
            assert_eq!(at, coord);
        },
        _ => panic!("a ray is answered with its result"),
    }
    let away = Ray::new(Point3::new(whole(0), whole(0), whole(0)), Vector3::new(whole(-1), whole(2), whole(3)));
    assert!(matches!(
        worker.answer(ControlMessage::CastRay(away, coord)),
        Some(WorkerMessage::Result(None, _))
    ));
    assert!(worker.answer(ControlMessage::Exit).is_none());
}

#[test]
fn one_thread_fewer_than_asked_for_works() {
    let view = view(4);
    for (threads, workers) in [(0, 0), (1, 0), (2, 1), (8, 7)] {
        let renderer = ParalellRenderer::new(threads, Stripes, view, Recorder::new(*view.get_screen()));
        assert_eq!(renderer.worker_count(), workers);
        assert!(!renderer.is_finished());
    }
}

#[test]
fn parallel_renderer_without_workers_renders_alone() {
    let view = view(6);
    let output = render_with_pool(1, &view, 1, None);
    assert_eq!(output.pixels(), expected(&view));
}

#[test]
fn parallel_and_single_threaded_renderers_agree() {
    let view = view(8);
    let alone = render_alone(&view);
    for threads in [2, 3, 5, 9] {
        for pace in [1, 2, 3, 7] {
            let pooled = render_with_pool(threads, &view, pace, None);
            assert_eq!(pooled.pixels(), alone.pixels());
            assert_eq!(pooled.writes.len(), alone.writes.len());
        }
    }
}

#[test]
fn killed_worker_loses_no_ray_and_doubles_none() {
    let view = view(8);
    let alone = render_alone(&view);
    for threads in [2, 3, 4] {
        for when in 1..40 {
            for victim in 0..3 {
                let pooled = render_with_pool(threads, &view, 2, Some((when, victim)));
                assert_eq!(pooled.pixels(), alone.pixels());
                for (coord, _) in &alone.writes {
                    assert_eq!(pooled.writes_at(*coord), 1);
                }
            }
        }
    }
}

#[test]
fn dispatcher_hands_out_the_walk_and_records_results() {
    let view = view(2);
    let mut renderer = ParalellRenderer::new(3, Stripes, view, Recorder::new(*view.get_screen()));
    assert!(matches!(renderer.process_message(0, Ok(None)), Directive::Idle));
    let first = match renderer.process_message(1, Ok(Some(WorkerMessage::Ready))) {
        Directive::Dispatch(ray, coord) => {
            assert_eq!(coord, Point2Int::new(0, 0));
            assert_eq!(ray, view.ray_through(coord));
            (ray, coord)
        },
        _ => panic!("the first pixel is handed out"),
    };
    match renderer.process_message(0, Ok(Some(WorkerMessage::Ready))) {
        Directive::Dispatch(_, coord) => assert_eq!(coord, Point2Int::new(1, 0)),
        _ => panic!("the second pixel is handed out"),
    }
    assert!(matches!(renderer.process_message(1, Ok(Some(WorkerMessage::Ready))), Directive::Finish));
    assert!(!renderer.is_finished());
    assert_eq!(renderer.get_renderer_output().writes.len(), 0);
    let color = Stripes.cast_ray(&first.0);
    assert!(matches!(
        renderer.process_message(1, Ok(Some(WorkerMessage::Result(color, first.1)))),
        Directive::Idle
    ));
    assert_eq!(renderer.get_renderer_output().writes.len(), 1);
    assert!(!renderer.drain_message(0, Ok(WorkerMessage::Ready)));
    assert!(renderer.drain_message(0, Err(())));
    assert!(renderer.drain_message(1, Err(())));
    assert!(renderer.is_finished());
    assert_eq!(renderer.get_renderer_output().pixels(), expected(&view));
}

#[test]
fn failed_poll_replaces_the_worker_and_recovers_its_ray() {
    let view = view(2);
    let mut renderer = ParalellRenderer::new(3, Stripes, view, Recorder::new(*view.get_screen()));
    assert!(matches!(renderer.process_message(0, Ok(Some(WorkerMessage::Ready))), Directive::Dispatch(..)));
    assert_eq!(renderer.get_renderer_output().writes.len(), 0);
    assert!(matches!(renderer.process_message(0, Err(())), Directive::Replace));
    assert_eq!(renderer.worker_count(), 2);
    assert_eq!(renderer.get_renderer_output().writes_at(Point2Int::new(0, 0)), 1);
    assert!(matches!(renderer.process_message(0, Err(())), Directive::Replace));
    assert_eq!(renderer.get_renderer_output().writes.len(), 1);
    renderer.execute();
    assert!(renderer.is_finished());
    assert_eq!(renderer.get_renderer_output().pixels(), expected(&view));
}
