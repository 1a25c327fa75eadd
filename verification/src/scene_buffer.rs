//! Scene buffers: one colour, or none yet, for every pixel of a screen.

use crate::color::Color;
use crate::defs::Point2Int;
use crate::renderer::output::{spec_held, RendererOutput};
use crate::screen::Screen;
use vstd::prelude::*;

verus! {

/// Why a scene buffer refuses a request.
#[derive(Clone, Copy, Debug, PartialEq, Eq, Structural)]
pub enum SceneBufferError {
    /// The coordinate does not lie on the screen of the buffer.
    InvalidInputCoord,
}

/// A scene buffer that can be read.
pub trait ImmutableSceneBuffer {
    /// The invariant of the buffer. A buffer that does not say leaves it open,
    /// as it does its screen and its pixels.
    open spec fn spec_valid(&self) -> bool {
        arbitrary()
    }

    /// The screen that the buffer covers.
    open spec fn spec_screen(&self) -> Screen {
        arbitrary()
    }

    /// The colours of the pixels that have one.
    open spec fn spec_pixels(&self) -> Map<Point2Int, Color> {
        arbitrary()
    }

    fn get_screen(&self) -> (screen: Screen)
        requires
            self.spec_valid(),
        ensures
            screen == self.spec_screen(),
    ;

    /// The colour of the pixel at `coord`, or `None` where it has none yet;
    /// an error where `coord` does not lie on the screen.
    fn get_pixel_value(&self, coord: Point2Int) -> (value: Result<Option<Color>, SceneBufferError>)
        requires
            self.spec_valid(),
        ensures
            value == (if self.spec_screen().spec_contains(coord) {
                Ok(spec_held(self.spec_pixels(), coord))
            } else {
                Err(SceneBufferError::InvalidInputCoord)
            }),
    ;
}

/// A scene buffer that keeps its pixels in memory, row by row.
pub struct BasicSceneBuffer {
    screen: Screen,
    pixels: Vec<Option<Color>>,
}

impl View for BasicSceneBuffer {
    type V = Map<Point2Int, Color>;

    /// The colours of the pixels that have one.
    closed spec fn view(&self) -> Map<Point2Int, Color> {
        Map::new(
            |coord: Point2Int|
                self.screen.spec_contains(coord) && self.pixels@[self.screen.spec_index_of(
                    coord,
                )].is_some(),
            |coord: Point2Int| self.pixels@[self.screen.spec_index_of(coord)].unwrap(),
        )
    }
}

impl BasicSceneBuffer {
    /// The screen that the buffer covers.
    pub closed spec fn spec_screen(&self) -> Screen {
        self.screen
    }

    /// There is one slot for each pixel of the screen.
    pub closed spec fn spec_well_formed(&self) -> bool {
        self.pixels@.len() == self.screen.spec_pixel_count()
    }

    /// A buffer for `screen` in which no pixel has a colour yet.
    pub fn new(screen: Screen) -> (buffer: Self)
        requires
            screen.spec_pixel_count() <= usize::MAX,
        ensures
            buffer.spec_well_formed(),
            buffer.spec_screen() == screen,
            buffer@ == Map::<Point2Int, Color>::empty(),
    {
        let count = screen.pixel_count();
        let mut pixels: Vec<Option<Color>> = Vec::new();
        let mut filled: u64 = 0;
        while filled < count
            invariant
                filled <= count,
                pixels@.len() == filled,
                forall|slot: int| 0 <= slot < filled ==> (#[trigger] pixels@[slot]).is_none(),
            decreases count - filled,
        {
            pixels.push(None);
            filled = filled + 1;
        }
        let buffer = Self { screen, pixels };
        proof {
            assert forall|coord: Point2Int| !(#[trigger] buffer@.contains_key(coord)) by {
                if screen.spec_contains(coord) {
                    screen.lemma_index_of(coord);
                }
            }
            assert(buffer@ =~= Map::<Point2Int, Color>::empty());
        }
        buffer
    }

    /// Gives the pixel at `coord` the colour `color`, whatever it had before;
    /// an error, with nothing changed, where `coord` does not lie on the screen.
    pub fn set_pixel_value(&mut self, coord: Point2Int, color: Color) -> (done: Result<
        (),
        SceneBufferError,
    >)
        requires
            old(self).spec_well_formed(),
        ensures
            final(self).spec_well_formed(),
            final(self).spec_screen() == old(self).spec_screen(),
            old(self).spec_screen().spec_contains(coord) ==> done.is_ok() && final(self)@ == old(self)@.insert(coord, color),
            !old(self).spec_screen().spec_contains(coord) ==> done == Err::<(), SceneBufferError>(
                SceneBufferError::InvalidInputCoord,
            ) && final(self)@ == old(self)@,
    {
        if self.screen.contains(coord) {
            let index = self.index_of(coord);
            self.pixels[index] = Some(color);
            proof {
                let screen = self.screen;
                let target = old(self)@.insert(coord, color);
                assert forall|other: Point2Int|
                    (#[trigger] self@.dom().contains(other)) == target.dom().contains(other) && (
                    self@.dom().contains(other) ==> self@[other] == target[other]) by {
                    if screen.spec_contains(other) {
                        screen.lemma_index_of(other);
                        screen.lemma_index_of(coord);
                    }
                }
                assert(self@ =~= target);
            }
            Ok(())
        } else {
            Err(SceneBufferError::InvalidInputCoord)
        }
    }

    /// Lays `overlay` over this buffer: every pixel of this buffer's screen for
    /// which `overlay` has a colour takes that colour, and the others keep what
    /// they had.
    pub fn combine_buffer<Overlay: ImmutableSceneBuffer>(&mut self, overlay: &Overlay)
        requires
            old(self).spec_well_formed(),
            overlay.spec_valid(),
        ensures
            final(self).spec_well_formed(),
            final(self).spec_screen() == old(self).spec_screen(),
            final(self)@ == spec_combined(old(self)@, old(self).spec_screen(), *overlay),
    {
        let count = self.screen.pixel_count();
        let overlay_screen = overlay.get_screen();
        let mut place: u64 = 0;
        while place < count
            invariant
                self.spec_well_formed(),
                self.screen == old(self).screen,
                overlay.spec_valid(),
                overlay_screen == overlay.spec_screen(),
                count == self.screen.spec_pixel_count(),
                place <= count,
                forall|coord: Point2Int|
                    self.screen.spec_contains(coord) ==> #[trigger] spec_held(self@, coord) == (
                    if self.screen.spec_index_of(coord) < place {
                        spec_held(spec_combined(old(self)@, self.screen, *overlay), coord)
                    } else {
                        spec_held(old(self)@, coord)
                    }),
            decreases count - place,
        {
            let coord = self.screen.coordinate_at(place);
            let ghost current = self@;
            if overlay_screen.contains(coord) {
                match overlay.get_pixel_value(coord) {
                    Ok(Some(color)) => {
                        let index = self.index_of(coord);
                        self.pixels[index] = Some(color);
                    },
                    _ => (),
                }
            }
            proof {
                let screen = self.screen;
                assert forall|other: Point2Int| screen.spec_contains(other) implies #[trigger] spec_held(
                    self@,
                    other,
                ) == (if screen.spec_index_of(other) < place + 1 {
                    spec_held(spec_combined(old(self)@, screen, *overlay), other)
                } else {
                    spec_held(old(self)@, other)
                }) by {
                    screen.lemma_index_of(other);
                    screen.lemma_index_of(coord);
                    assert(spec_held(current, other) == (if screen.spec_index_of(other) < place {
                        spec_held(spec_combined(old(self)@, screen, *overlay), other)
                    } else {
                        spec_held(old(self)@, other)
                    }));
                }
            }
            place = place + 1;
        }
        proof {
            let screen = self.screen;
            let target = spec_combined(old(self)@, screen, *overlay);
            assert forall|coord: Point2Int| spec_held(self@, coord) == spec_held(target, coord) by {
                if screen.spec_contains(coord) {
                    screen.lemma_index_of(coord);
                }
            }
            assert forall|coord: Point2Int|
                (#[trigger] self@.dom().contains(coord)) == target.dom().contains(coord) && (
                self@.dom().contains(coord) ==> self@[coord] == target[coord]) by {
                assert(spec_held(self@, coord) == spec_held(target, coord));
            }
            assert(self@ =~= target);
        }
    }

    /// The slot of a pixel of the screen.
    fn index_of(&self, coord: Point2Int) -> (index: usize)
        requires
            self.spec_well_formed(),
            self.screen.spec_contains(coord),
        ensures
            index == self.screen.spec_index_of(coord),
            index < self.pixels@.len(),
    {
        proof {
            self.screen.lemma_index_of(coord);
        }
        let row: u64 = coord.y as u64;
        let width: u64 = self.screen.horizontal_resolution as u64;
        assert(row * width <= 0xFFFF_FFFF * 0xFFFF_FFFF) by (nonlinear_arith)
            requires
                0 <= row <= 0xFFFF_FFFF,
                0 <= width <= 0xFFFF_FFFF,
        ;
        let index: u64 = row * width + coord.x as u64;
        let slots = self.pixels.len();
        assert(index < slots);
        index as usize
    }
}

/// What a buffer that held `base`, over `screen`, holds after the pixels `over`
/// of a buffer over `over_screen` have been laid over it: every pixel of both
/// screens for which `over` has a colour takes that colour, and the others keep
/// what they had.
pub open spec fn spec_overlaid(
    base: Map<Point2Int, Color>,
    screen: Screen,
    over_screen: Screen,
    over: Map<Point2Int, Color>,
) -> Map<Point2Int, Color> {
    Map::new(
        |coord: Point2Int|
            base.contains_key(coord) || (screen.spec_contains(coord) && over_screen.spec_contains(
                coord,
            ) && over.contains_key(coord)),
        |coord: Point2Int|
            if screen.spec_contains(coord) && over_screen.spec_contains(coord) && over.contains_key(
                coord,
            ) {
                over[coord]
            } else {
                base[coord]
            },
    )
}

/// What a buffer that held `base`, over `screen`, holds after `overlay` has been
/// laid over it.
pub open spec fn spec_combined<Overlay: ImmutableSceneBuffer>(
    base: Map<Point2Int, Color>,
    screen: Screen,
    overlay: Overlay,
) -> Map<Point2Int, Color> {
    spec_overlaid(base, screen, overlay.spec_screen(), overlay.spec_pixels())
}

impl ImmutableSceneBuffer for BasicSceneBuffer {
    open spec fn spec_valid(&self) -> bool {
        self.spec_well_formed()
    }

    open spec fn spec_screen(&self) -> Screen {
        BasicSceneBuffer::spec_screen(self)
    }

    open spec fn spec_pixels(&self) -> Map<Point2Int, Color> {
        self@
    }

    fn get_screen(&self) -> (screen: Screen) {
        self.screen
    }

    fn get_pixel_value(&self, coord: Point2Int) -> (value: Result<Option<Color>, SceneBufferError>) {
        if self.screen.contains(coord) {
            let index = self.index_of(coord);
            Ok(self.pixels[index])
        } else {
            Err(SceneBufferError::InvalidInputCoord)
        }
    }
}

impl RendererOutput for BasicSceneBuffer {
    open spec fn spec_valid(&self) -> bool {
        self.spec_well_formed()
    }

    open spec fn spec_accepts(&self, coord: Point2Int) -> bool {
        BasicSceneBuffer::spec_screen(self).spec_contains(coord)
    }

    open spec fn spec_written(&self) -> Map<Point2Int, Color> {
        self@
    }

    fn set_output(&mut self, coord: Point2Int, color: Color) -> (accepted: bool) {
        self.set_pixel_value(coord, color).is_ok()
    }
}

} // verus!
