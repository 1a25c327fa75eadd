use rtrace::color::Color;
use rtrace::defs::Point2Int;
use rtrace::fixed::Fixed;
use rtrace::median::{median, sorted};
use rtrace::median_filter::{MedianFilter, Window};
use rtrace::renderer::RendererOutput;
use rtrace::scene_buffer::{BasicSceneBuffer, ImmutableSceneBuffer, SceneBufferError};
use rtrace::screen::Screen;

fn gray(level: i64) -> Color {
    Color::new(Fixed::from_raw(level), Fixed::from_raw(level), Fixed::from_raw(level))
}

fn color(r: i64, g: i64, b: i64) -> Color {
    Color::new(Fixed::from_raw(r), Fixed::from_raw(g), Fixed::from_raw(b))
}

fn at(x: u32, y: u32) -> Point2Int {
    Point2Int::new(x, y)
}

fn value(buffer: &impl ImmutableSceneBuffer, x: u32, y: u32) -> Option<(Fixed, Fixed, Fixed)> {
    buffer.get_pixel_value(at(x, y)).unwrap().map(|found| found.get())
}

fn filled(width: u32, height: u32, level: i64) -> BasicSceneBuffer {
    let mut buffer = BasicSceneBuffer::new(Screen::new(width, height));
    for y in 0..height {
        for x in 0..width {
            buffer.set_pixel_value(at(x, y), gray(level)).unwrap();
        }
    }
    buffer
}

fn filtered(source: &BasicSceneBuffer, radius: u32) -> BasicSceneBuffer {
    let mut result = BasicSceneBuffer::new(source.get_screen());
    result.combine_buffer(&MedianFilter::new(source, radius));
    result
}

#[test]
fn new_buffer_has_no_colors() {
    let buffer = BasicSceneBuffer::new(Screen::new(3, 2));
    assert_eq!(buffer.get_screen(), Screen::new(3, 2));
    for y in 0..2 {
        for x in 0..3 {
            assert_eq!(value(&buffer, x, y), None);
        }
    }
}

#[test]
fn last_write_wins() {
    let mut buffer = BasicSceneBuffer::new(Screen::new(3, 2));
    assert_eq!(buffer.set_pixel_value(at(2, 1), gray(5)), Ok(()));
    assert_eq!(value(&buffer, 2, 1), Some(gray(5).get()));
    assert_eq!(buffer.set_pixel_value(at(2, 1), gray(7)), Ok(()));
    assert_eq!(value(&buffer, 2, 1), Some(gray(7).get()));
    assert_eq!(buffer.set_pixel_value(at(2, 1), gray(7)), Ok(()));
    assert_eq!(value(&buffer, 2, 1), Some(gray(7).get()));
    assert_eq!(value(&buffer, 1, 1), None);
    assert_eq!(value(&buffer, 2, 0), None);
}

#[test]
fn coordinates_off_the_screen_are_refused() {
    let mut buffer = BasicSceneBuffer::new(Screen::new(3, 2));
    assert_eq!(buffer.set_pixel_value(at(3, 0), gray(1)), Err(SceneBufferError::InvalidInputCoord));
    assert_eq!(buffer.set_pixel_value(at(0, 2), gray(1)), Err(SceneBufferError::InvalidInputCoord));
    assert_eq!(
        buffer.get_pixel_value(at(3, 1)).map(|found| found.map(|held| held.get())),
        Err(SceneBufferError::InvalidInputCoord)
    );
    for y in 0..2 {
        for x in 0..3 {
            assert_eq!(value(&buffer, x, y), None);
        }
    }
}

#[test]
fn buffer_as_renderer_output_reports_what_it_took() {
    let mut buffer = BasicSceneBuffer::new(Screen::new(2, 2));
    assert!(buffer.set_output(at(1, 1), gray(3)));
    assert!(!buffer.set_output(at(2, 1), gray(3)));
    assert_eq!(value(&buffer, 1, 1), Some(gray(3).get()));
}

#[test]
fn combine_lays_defined_pixels_over() {
    let mut base = BasicSceneBuffer::new(Screen::new(3, 2));
    base.set_pixel_value(at(0, 0), gray(1)).unwrap();
    base.set_pixel_value(at(1, 0), gray(2)).unwrap();
    let mut overlay = BasicSceneBuffer::new(Screen::new(3, 2));
    overlay.set_pixel_value(at(1, 0), gray(20)).unwrap();
    overlay.set_pixel_value(at(2, 1), gray(30)).unwrap();
    base.combine_buffer(&overlay);
    assert_eq!(value(&base, 0, 0), Some(gray(1).get()));
    assert_eq!(value(&base, 1, 0), Some(gray(20).get()));
    assert_eq!(value(&base, 2, 1), Some(gray(30).get()));
    assert_eq!(value(&base, 0, 1), None);
    assert_eq!(value(&overlay, 0, 0), None);
}

#[test]
fn combine_with_an_overlay_of_another_size() {
    let mut base = filled(3, 3, 1);
    let small = filled(2, 1, 9);
    base.combine_buffer(&small);
    assert_eq!(value(&base, 0, 0), Some(gray(9).get()));
    assert_eq!(value(&base, 1, 0), Some(gray(9).get()));
    assert_eq!(value(&base, 2, 0), Some(gray(1).get()));
    assert_eq!(value(&base, 0, 1), Some(gray(1).get()));
    let mut narrow = filled(1, 1, 4);
    narrow.combine_buffer(&filled(3, 3, 8));
    assert_eq!(value(&narrow, 0, 0), Some(gray(8).get()));
}

#[test]
fn median_of_a_list() {
    assert_eq!(median(&vec![]), None);
    assert_eq!(median(&vec![7]), Some(7));
    assert_eq!(median(&vec![3, 1, 2]), Some(2));
    assert_eq!(median(&vec![4, 1, 3, 2]), Some(2));
    assert_eq!(median(&vec![5, 5, 5, -100, 5, 5, 5, 5, 5]), Some(5));
    assert_eq!(median(&vec![i64::MAX, i64::MIN, 0]), Some(0));
    assert_eq!(sorted(&vec![3, -1, 3, 2, i64::MIN]), vec![i64::MIN, -1, 2, 3, 3]);
}

#[test]
fn window_is_cut_off_at_the_edges() {
    let screen = Screen::new(5, 4);
    let inner = Window::around(&screen, at(2, 2), 1);
    assert_eq!((inner.left, inner.top), (1, 1));
    assert_eq!(inner.extent, Screen::new(3, 3));
    let corner = Window::around(&screen, at(0, 3), 1);
    assert_eq!((corner.left, corner.top), (0, 2));
    assert_eq!(corner.extent, Screen::new(2, 2));
    let wide = Window::around(&screen, at(4, 0), 9);
    assert_eq!((wide.left, wide.top), (0, 0));
    assert_eq!(wide.extent, Screen::new(5, 4));
    assert_eq!(inner.coordinate_at(5), at(3, 2));
    let single = Window::around(&screen, at(3, 1), 0);
    assert_eq!((single.left, single.top), (3, 1));
    assert_eq!(single.extent, Screen::new(1, 1));
}

#[test]
fn median_filter_removes_an_outlier() {
    let mut buffer = filled(5, 5, 400_000);
    buffer.set_pixel_value(at(2, 2), color(1_000_000, 0, 900_000)).unwrap();
    let once = filtered(&buffer, 1);
    for y in 0..5 {
        for x in 0..5 {
            assert_eq!(value(&once, x, y), Some(gray(400_000).get()));
        }
    }
    assert_eq!(value(&buffer, 2, 2), Some(color(1_000_000, 0, 900_000).get()));
}

#[test]
fn median_filter_leaves_a_smooth_buffer_as_it_is() {
    let mut buffer = filled(4, 3, 250_000);
    buffer.set_pixel_value(at(0, 0), gray(999_999)).unwrap();
    let once = filtered(&buffer, 1);
    let twice = filtered(&once, 1);
    for y in 0..3 {
        for x in 0..4 {
            assert_eq!(value(&once, x, y), Some(gray(250_000).get()));
            assert_eq!(value(&twice, x, y), value(&once, x, y));
        }
    }
    let wide = filtered(&once, 3);
    for y in 0..3 {
        for x in 0..4 {
            assert_eq!(value(&wide, x, y), Some(gray(250_000).get()));
        }
    }
}

#[test]
fn median_filter_takes_the_median_of_each_channel() {
    let mut buffer = BasicSceneBuffer::new(Screen::new(3, 1));
    buffer.set_pixel_value(at(0, 0), color(1, 30, 200)).unwrap();
    buffer.set_pixel_value(at(1, 0), color(2, 10, 300)).unwrap();
    buffer.set_pixel_value(at(2, 0), color(3, 20, 100)).unwrap();
    let filter = MedianFilter::new(&buffer, 1);
    assert_eq!(value(&filter, 1, 0), Some(color(2, 20, 200).get()));
    assert_eq!(value(&filter, 0, 0), Some(color(1, 10, 200).get()));
    assert_eq!(value(&filter, 2, 0), Some(color(2, 10, 100).get()));
    assert_eq!(filter.get_screen(), Screen::new(3, 1));
    assert_eq!(
        filter.get_pixel_value(at(3, 0)).map(|found| found.map(|held| held.get())),
        Err(SceneBufferError::InvalidInputCoord)
    );
}

#[test]
fn median_filter_fills_from_defined_neighbors_only() {
    let mut buffer = BasicSceneBuffer::new(Screen::new(5, 1));
    buffer.set_pixel_value(at(0, 0), gray(8)).unwrap();
    let filter = MedianFilter::new(&buffer, 1);
    assert_eq!(value(&filter, 0, 0), Some(gray(8).get()));
    assert_eq!(value(&filter, 1, 0), Some(gray(8).get()));
    assert_eq!(value(&filter, 2, 0), None);
    assert_eq!(value(&filter, 4, 0), None);
    let nothing = BasicSceneBuffer::new(Screen::new(2, 2));
    let empty = MedianFilter::new(&nothing, 3);
    assert_eq!(value(&empty, 1, 1), None);
}

#[test]
fn median_filter_of_radius_zero_changes_nothing() {
    let mut buffer = filled(3, 3, 5);
    buffer.set_pixel_value(at(1, 1), gray(77)).unwrap();
    let filter = MedianFilter::new(&buffer, 0);
    assert_eq!(value(&filter, 1, 1), Some(gray(77).get()));
    assert_eq!(value(&filter, 0, 1), Some(gray(5).get()));
}
