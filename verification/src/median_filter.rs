//! The median filter: every pixel takes, channel by channel, the median of the
//! colours in a square around it.

use crate::color::{Color, ColorBase};
use crate::defs::Point2Int;
use crate::fixed::Fixed;
use crate::median::{lemma_median_ignores_one_outlier, median, spec_median};
use crate::renderer::output::spec_held;
use crate::scene_buffer::{ImmutableSceneBuffer, SceneBufferError};
use crate::screen::Screen;
use vstd::prelude::*;

verus! {

/// A rectangle of pixels: `extent` columns and rows, of which the first stand
/// at column `left` and row `top`.
#[derive(Clone, Copy, Debug)]
pub struct Window {
    pub left: u32,
    pub top: u32,
    pub extent: Screen,
}

/// The first place of a window of the given radius around `place`.
pub open spec fn spec_window_start(place: u32, radius: u32) -> u32 {
    if place >= radius {
        (place - radius) as u32
    } else {
        0
    }
}

/// The last place of a window of the given radius around `place`, among `count`
/// places.
pub open spec fn spec_window_end(place: u32, radius: u32, count: u32) -> u32 {
    if place + radius < count {
        (place + radius) as u32
    } else {
        (count - 1) as u32
    }
}

impl Window {
    /// The square of pixels that are at most `radius` columns and at most
    /// `radius` rows away from `coord`, as far as it lies on `screen`.
    pub open spec fn spec_around(screen: Screen, coord: Point2Int, radius: u32) -> Window {
        let left = spec_window_start(coord.x, radius);
        let top = spec_window_start(coord.y, radius);
        let right = spec_window_end(coord.x, radius, screen.horizontal_resolution);
        let bottom = spec_window_end(coord.y, radius, screen.vertical_resolution);
        Window {
            left,
            top,
            extent: Screen {
                horizontal_resolution: (right - left + 1) as u32,
                vertical_resolution: (bottom - top + 1) as u32,
            },
        }
    }

    /// The window lies on `screen`.
    pub open spec fn spec_within(self, screen: Screen) -> bool {
        &&& self.left + self.extent.horizontal_resolution <= screen.horizontal_resolution
        &&& self.top + self.extent.vertical_resolution <= screen.vertical_resolution
    }

    /// The pixel at place `index` of the row-major walk of the window.
    pub open spec fn spec_coordinate_at(self, index: int) -> Point2Int {
        let inner = self.extent.spec_coordinate_at(index);
        Point2Int { x: (self.left + inner.x) as u32, y: (self.top + inner.y) as u32 }
    }

    /// The place of `coord` in the row-major walk of the window.
    pub open spec fn spec_index_of(self, coord: Point2Int) -> int {
        self.extent.spec_index_of(
            Point2Int { x: (coord.x - self.left) as u32, y: (coord.y - self.top) as u32 },
        )
    }

    /// Whether `coord` lies in the window.
    pub open spec fn spec_contains(self, coord: Point2Int) -> bool {
        &&& self.left <= coord.x < self.left + self.extent.horizontal_resolution
        &&& self.top <= coord.y < self.top + self.extent.vertical_resolution
    }

    /// The window around a pixel of the screen.
    pub fn around(screen: &Screen, coord: Point2Int, radius: u32) -> (window: Window)
        requires
            screen.spec_contains(coord),
        ensures
            window == Self::spec_around(*screen, coord, radius),
            window.spec_within(*screen),
            window.spec_contains(coord),
    {
        let left: u32 = if coord.x >= radius { coord.x - radius } else { 0 };
        let top: u32 = if coord.y >= radius { coord.y - radius } else { 0 };
        let right: u32 = if (coord.x as u64) + (radius as u64) < screen.horizontal_resolution as u64 {
            coord.x + radius
        } else {
            screen.horizontal_resolution - 1
        };
        let bottom: u32 = if (coord.y as u64) + (radius as u64) < screen.vertical_resolution as u64 {
            coord.y + radius
        } else {
            screen.vertical_resolution - 1
        };
        Window { left, top, extent: Screen::new(right - left + 1, bottom - top + 1) }
    }

    /// The pixel at place `index` of the row-major walk of the window.
    pub fn coordinate_at(&self, index: u64) -> (coord: Point2Int)
        requires
            index < self.extent.spec_pixel_count(),
            self.left + self.extent.horizontal_resolution <= u32::MAX,
            self.top + self.extent.vertical_resolution <= u32::MAX,
        ensures
            coord == self.spec_coordinate_at(index as int),
            self.spec_contains(coord),
            self.spec_index_of(coord) == index,
    {
        let inner = self.extent.coordinate_at(index);
        Point2Int { x: self.left + inner.x, y: self.top + inner.y }
    }

    /// A pixel of the window stands at its own place of the window's walk.
    pub proof fn lemma_index_of(self, coord: Point2Int)
        requires
            self.spec_contains(coord),
        ensures
            0 <= self.spec_index_of(coord) < self.extent.spec_pixel_count(),
            self.spec_coordinate_at(self.spec_index_of(coord)) == coord,
    {
        self.extent.lemma_index_of(
            Point2Int { x: (coord.x - self.left) as u32, y: (coord.y - self.top) as u32 },
        );
    }
}

/// The colours that the first `count` pixels of the window have, in the order of
/// the window's walk; pixels without a colour are passed over.
pub open spec fn spec_samples(pixels: Map<Point2Int, Color>, window: Window, count: nat) -> Seq<
    Color,
>
    decreases count,
{
    if count == 0 {
        Seq::empty()
    } else {
        let earlier = spec_samples(pixels, window, (count - 1) as nat);
        match spec_held(pixels, window.spec_coordinate_at(count - 1)) {
            Some(color) => earlier.push(color),
            None => earlier,
        }
    }
}

/// The red channels of a list of colours.
pub open spec fn spec_reds(samples: Seq<Color>) -> Seq<i64> {
    samples.map_values(|color: Color| color.r.raw)
}

/// The green channels of a list of colours.
pub open spec fn spec_greens(samples: Seq<Color>) -> Seq<i64> {
    samples.map_values(|color: Color| color.g.raw)
}

/// The blue channels of a list of colours.
pub open spec fn spec_blues(samples: Seq<Color>) -> Seq<i64> {
    samples.map_values(|color: Color| color.b.raw)
}

/// The colour whose channels are the medians of the channels of `samples`, and
/// none for an empty list.
pub open spec fn spec_median_color(samples: Seq<Color>) -> Option<Color> {
    if samples.len() == 0 {
        None
    } else {
        Some(
            ColorBase {
                r: Fixed { raw: spec_median(spec_reds(samples)) },
                g: Fixed { raw: spec_median(spec_greens(samples)) },
                b: Fixed { raw: spec_median(spec_blues(samples)) },
            },
        )
    }
}

/// What the filter of the given radius makes of the pixel `coord` of `screen`:
/// the median colour of the pixels around it that have a colour, `coord`
/// included, and no colour where none of them has one.
pub open spec fn spec_filtered_pixel(
    pixels: Map<Point2Int, Color>,
    screen: Screen,
    coord: Point2Int,
    radius: u32,
) -> Option<Color> {
    let window = Window::spec_around(screen, coord, radius);
    spec_median_color(spec_samples(pixels, window, window.extent.spec_pixel_count()))
}

/// What the filter of the given radius makes of a buffer over `screen`.
pub open spec fn spec_filtered(pixels: Map<Point2Int, Color>, screen: Screen, radius: u32) -> Map<
    Point2Int,
    Color,
> {
    Map::new(
        |coord: Point2Int|
            screen.spec_contains(coord) && spec_filtered_pixel(
                pixels,
                screen,
                coord,
                radius,
            ).is_some(),
        |coord: Point2Int| spec_filtered_pixel(pixels, screen, coord, radius).unwrap(),
    )
}

/// A scene buffer seen through the median filter: its pixels are computed from
/// those of `source` when they are asked for.
pub struct MedianFilter<'a, Source> {
    source: &'a Source,
    radius: u32,
}

impl<'a, Source: ImmutableSceneBuffer> MedianFilter<'a, Source> {
    /// The buffer that is filtered.
    pub closed spec fn spec_source(&self) -> Source {
        *self.source
    }

    /// How many columns and rows around a pixel count for it.
    pub closed spec fn spec_radius(&self) -> u32 {
        self.radius
    }

    /// The filter over `source` that looks `radius` columns and rows around
    /// every pixel: at a square of `2 * radius + 1` pixels a side.
    pub fn new(source: &'a Source, radius: u32) -> (filter: Self)
        ensures
            filter.spec_source() == *source,
            filter.spec_radius() == radius,
    {
        MedianFilter { source, radius }
    }
}

impl<'a, Source: ImmutableSceneBuffer> ImmutableSceneBuffer for MedianFilter<'a, Source> {
    open spec fn spec_valid(&self) -> bool {
        self.spec_source().spec_valid()
    }

    open spec fn spec_screen(&self) -> Screen {
        self.spec_source().spec_screen()
    }

    open spec fn spec_pixels(&self) -> Map<Point2Int, Color> {
        spec_filtered(
            self.spec_source().spec_pixels(),
            self.spec_source().spec_screen(),
            self.spec_radius(),
        )
    }

    fn get_screen(&self) -> (screen: Screen) {
        self.source.get_screen()
    }

    fn get_pixel_value(&self, coord: Point2Int) -> (value: Result<Option<Color>, SceneBufferError>) {
        let screen = self.source.get_screen();
        if !screen.contains(coord) {
            return Err(SceneBufferError::InvalidInputCoord);
        }
        let window = Window::around(&screen, coord, self.radius);
        let count = window.extent.pixel_count();
        let ghost pixels = self.source.spec_pixels();
        let mut reds: Vec<i64> = Vec::new();
        let mut greens: Vec<i64> = Vec::new();
        let mut blues: Vec<i64> = Vec::new();
        let mut place: u64 = 0;
        proof {
            assert(reds@ =~= spec_reds(spec_samples(pixels, window, 0)));
            assert(greens@ =~= spec_greens(spec_samples(pixels, window, 0)));
            assert(blues@ =~= spec_blues(spec_samples(pixels, window, 0)));
        }
        while place < count
            invariant
                self.source.spec_valid(),
                screen == self.source.spec_screen(),
                pixels == self.source.spec_pixels(),
                window.spec_within(screen),
                count == window.extent.spec_pixel_count(),
                place <= count,
                reds@ == spec_reds(spec_samples(pixels, window, place as nat)),
                greens@ == spec_greens(spec_samples(pixels, window, place as nat)),
                blues@ == spec_blues(spec_samples(pixels, window, place as nat)),
            decreases count - place,
        {
            let at = window.coordinate_at(place);
            let ghost earlier = spec_samples(pixels, window, place as nat);
            match self.source.get_pixel_value(at) {
                Ok(Some(color)) => {
                    reds.push(color.r.raw);
                    greens.push(color.g.raw);
                    blues.push(color.b.raw);
                    proof {
                        assert(reds@ =~= spec_reds(earlier.push(color)));
                        assert(greens@ =~= spec_greens(earlier.push(color)));
                        assert(blues@ =~= spec_blues(earlier.push(color)));
                    }
                },
                _ => (),
            }
            place = place + 1;
        }
        match (median(&reds), median(&greens), median(&blues)) {
            (Some(red), Some(green), Some(blue)) => Ok(
                Some(
                    ColorBase {
                        r: Fixed::from_raw(red),
                        g: Fixed::from_raw(green),
                        b: Fixed::from_raw(blue),
                    },
                ),
            ),
            _ => Ok(None),
        }
    }
}

/// Where every pixel of the window has a colour, the samples are the colours of
/// its pixels, one for each place of its walk.
pub proof fn lemma_samples_of_full_window(pixels: Map<Point2Int, Color>, window: Window, count: nat)
    requires
        forall|place: int| 0 <= place < count ==> pixels.contains_key(
            #[trigger] window.spec_coordinate_at(place),
        ),
    ensures
        spec_samples(pixels, window, count) == Seq::new(
            count,
            |place: int| pixels[window.spec_coordinate_at(place)],
        ),
    decreases count,
{
    if count > 0 {
        lemma_samples_of_full_window(pixels, window, (count - 1) as nat);
        assert(pixels.contains_key(window.spec_coordinate_at(count - 1)));
    }
    assert(spec_samples(pixels, window, count) =~= Seq::new(
        count,
        |place: int| pixels[window.spec_coordinate_at(place)],
    ));
}

/// A filtered buffer in which one pixel differs. Let every pixel of a screen of
/// at least two columns and two rows have a colour, and all of them the colour
/// `color` but for the pixel `odd`. Then the filter of any radius from one on
/// gives every pixel the colour `color`: the outlier is gone. The same holds
/// where no pixel differs (`odd` off the screen), so that filtering the result
/// once more changes nothing.
pub proof fn lemma_filter_removes_outlier(
    pixels: Map<Point2Int, Color>,
    screen: Screen,
    radius: u32,
    color: Color,
    odd: Point2Int,
)
    requires
        screen.horizontal_resolution >= 2,
        screen.vertical_resolution >= 2,
        radius >= 1,
        forall|coord: Point2Int| #[trigger]
            screen.spec_contains(coord) ==> pixels.contains_key(coord),
        forall|coord: Point2Int| #[trigger]
            screen.spec_contains(coord) && coord != odd ==> pixels[coord] == color,
    ensures
        forall|coord: Point2Int| #[trigger]
            screen.spec_contains(coord) ==> spec_filtered_pixel(pixels, screen, coord, radius)
                == Some(color),
        forall|coord: Point2Int|
            screen.spec_contains(coord) ==> #[trigger] spec_filtered(
                pixels,
                screen,
                radius,
            ).contains_key(coord) && spec_filtered(pixels, screen, radius)[coord] == color,
{
    assert forall|coord: Point2Int| #[trigger] screen.spec_contains(coord) implies spec_filtered_pixel(
        pixels,
        screen,
        coord,
        radius,
    ) == Some(color) by {
        let window = Window::spec_around(screen, coord, radius);
        let count = window.extent.spec_pixel_count();
        let columns = window.extent.horizontal_resolution as int;
        let rows = window.extent.vertical_resolution as int;
        assert(columns >= 2 && rows >= 2);
        assert(count >= 4) by (nonlinear_arith)
            requires
                count == columns * rows,
                columns >= 2,
                rows >= 2,
        ;
        assert forall|place: int| 0 <= place < count implies screen.spec_contains(
            #[trigger] window.spec_coordinate_at(place),
        ) by {
            window.extent.lemma_coordinate_at(place);
        }
        lemma_samples_of_full_window(pixels, window, count);
        let samples = spec_samples(pixels, window, count);
        let target: int = if window.spec_contains(odd) {
            window.spec_index_of(odd)
        } else {
            0
        };
        if window.spec_contains(odd) {
            window.lemma_index_of(odd);
        }
        assert forall|place: int| 0 <= place < count && place != target implies samples[place]
            == color by {
            window.extent.lemma_coordinate_at(place);
            let at = window.spec_coordinate_at(place);
            if at == odd {
                assert(window.spec_contains(odd));
                assert(window.spec_index_of(odd) == place);
            }
        }
        lemma_median_ignores_one_outlier(spec_reds(samples), color.r.raw, target);
        lemma_median_ignores_one_outlier(spec_greens(samples), color.g.raw, target);
        lemma_median_ignores_one_outlier(spec_blues(samples), color.b.raw, target);
    }
}

/// The filter leaves a buffer of one colour as it is: where every pixel of a
/// screen of at least two columns and two rows has the colour `color`, so it has
/// after filtering with a radius from one on. A second pass of the filter is
/// therefore without effect on what a first pass has made uniform.
pub proof fn lemma_filter_fixes_uniform(
    pixels: Map<Point2Int, Color>,
    screen: Screen,
    radius: u32,
    color: Color,
)
    requires
        screen.horizontal_resolution >= 2,
        screen.vertical_resolution >= 2,
        radius >= 1,
        forall|coord: Point2Int| pixels.contains_key(coord) <==> #[trigger] screen.spec_contains(coord),
        forall|coord: Point2Int| #[trigger] screen.spec_contains(coord) ==> pixels[coord] == color,
    ensures
        spec_filtered(pixels, screen, radius) == pixels,
{
    let outside = Point2Int { x: screen.horizontal_resolution, y: screen.vertical_resolution };
    lemma_filter_removes_outlier(pixels, screen, radius, color, outside);
    assert(spec_filtered(pixels, screen, radius) =~= pixels);
}

} // verus!
