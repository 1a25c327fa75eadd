//! The pixel grid of an image and the order in which it is walked.

use crate::defs::Point2Int;
use vstd::prelude::*;

verus! {

/// The resolution of an image: `horizontal_resolution` columns and
/// `vertical_resolution` rows.
#[derive(Clone, Copy, Debug, PartialEq, Eq, Structural)]
pub struct Screen {
    pub horizontal_resolution: u32,
    pub vertical_resolution: u32,
}

impl Screen {
    #[verifier::allow_in_spec]
    pub fn new(horizontal_resolution: u32, vertical_resolution: u32) -> Screen
        returns
            (Screen { horizontal_resolution, vertical_resolution }),
    {
        Screen { horizontal_resolution, vertical_resolution }
    }

    pub fn get_resolution(&self) -> (resolution: (u32, u32))
        ensures
            resolution == (self.horizontal_resolution, self.vertical_resolution),
    {
        (self.horizontal_resolution, self.vertical_resolution)
    }

    /// The number of pixels.
    pub open spec fn spec_pixel_count(self) -> nat {
        (self.horizontal_resolution * self.vertical_resolution) as nat
    }

    /// Whether `coord` lies on the screen.
    pub open spec fn spec_contains(self, coord: Point2Int) -> bool {
        coord.x < self.horizontal_resolution && coord.y < self.vertical_resolution
    }

    /// The place of `coord` in the row-major walk of the screen.
    pub open spec fn spec_index_of(self, coord: Point2Int) -> int {
        coord.y * self.horizontal_resolution + coord.x
    }

    /// The pixel at place `index` of the row-major walk.
    pub open spec fn spec_coordinate_at(self, index: int) -> Point2Int {
        Point2Int {
            x: (index % self.horizontal_resolution as int) as u32,
            y: (index / self.horizontal_resolution as int) as u32,
        }
    }

    /// All pixels of the screen, row by row from the top, each row from the left.
    pub open spec fn spec_sequence(self) -> Seq<Point2Int> {
        Seq::new(self.spec_pixel_count(), |index: int| self.spec_coordinate_at(index))
    }

    /// The number of pixels.
    pub fn pixel_count(&self) -> (count: u64)
        ensures
            count == self.spec_pixel_count(),
    {
        assert(self.horizontal_resolution * self.vertical_resolution <= 0xFFFF_FFFF * 0xFFFF_FFFF)
            by (nonlinear_arith)
            requires
                0 <= self.horizontal_resolution <= 0xFFFF_FFFF,
                0 <= self.vertical_resolution <= 0xFFFF_FFFF,
        ;
        (self.horizontal_resolution as u64) * (self.vertical_resolution as u64)
    }

    /// Whether `coord` lies on the screen.
    pub fn contains(&self, coord: Point2Int) -> (inside: bool)
        ensures
            inside == self.spec_contains(coord),
    {
        coord.x < self.horizontal_resolution && coord.y < self.vertical_resolution
    }

    /// The pixel at place `index` of the row-major walk.
    pub fn coordinate_at(&self, index: u64) -> (coord: Point2Int)
        requires
            index < self.spec_pixel_count(),
        ensures
            coord == self.spec_coordinate_at(index as int),
            self.spec_contains(coord),
            self.spec_index_of(coord) == index,
    {
        proof {
            self.lemma_coordinate_at(index as int);
        }
        let width: u64 = self.horizontal_resolution as u64;
        Point2Int { x: (index % width) as u32, y: (index / width) as u32 }
    }

    /// The pixel at a place of the walk lies on the screen, and its place is
    /// that place.
    pub proof fn lemma_coordinate_at(self, index: int)
        requires
            0 <= index < self.spec_pixel_count(),
        ensures
            self.spec_contains(self.spec_coordinate_at(index)),
            self.spec_index_of(self.spec_coordinate_at(index)) == index,
            self.horizontal_resolution > 0,
            0 <= index % (self.horizontal_resolution as int) < self.horizontal_resolution,
            0 <= index / (self.horizontal_resolution as int) < self.vertical_resolution,
    {
        let w = self.horizontal_resolution as int;
        let h = self.vertical_resolution as int;
        assert(w > 0) by (nonlinear_arith)
            requires
                0 <= index < w * h,
                w >= 0,
        ;
        let q = index / w;
        let r = index % w;
        assert(index == w * q + r && 0 <= r < w) by (nonlinear_arith)
            requires
                w > 0,
                q == index / w,
                r == index % w,
        ;
        assert(0 <= q < h) by (nonlinear_arith)
            requires
                w > 0,
                0 <= index < w * h,
                index == w * q + r,
                0 <= r < w,
        ;
        assert(q * w + r == index) by (nonlinear_arith)
            requires
                index == w * q + r,
        ;
    }

    /// A pixel on the screen has a place in the walk, and the pixel at that
    /// place is the pixel itself.
    pub proof fn lemma_index_of(self, coord: Point2Int)
        requires
            self.spec_contains(coord),
        ensures
            0 <= self.spec_index_of(coord) < self.spec_pixel_count(),
            self.spec_coordinate_at(self.spec_index_of(coord)) == coord,
    {
        let w = self.horizontal_resolution as int;
        let h = self.vertical_resolution as int;
        let x = coord.x as int;
        let y = coord.y as int;
        let index = y * w + x;
        assert(0 <= index < w * h) by (nonlinear_arith)
            requires
                0 <= x < w,
                0 <= y < h,
                index == y * w + x,
        ;
        assert(index / w == y && index % w == x) by (nonlinear_arith)
            requires
                0 <= x < w,
                0 <= y,
                index == y * w + x,
        ;
    }

    /// The walk of a screen holds every pixel of the screen exactly once: its
    /// length is the product of the two resolutions, no pixel occurs twice, and
    /// a pixel occurs in it if and only if it lies on the screen. The walk
    /// depends on the screen alone, so any two walks of one screen are equal.
    pub proof fn lemma_sequence_visits_each_pixel_once(self)
        ensures
            self.spec_sequence().len() == self.horizontal_resolution * self.vertical_resolution,
            self.spec_sequence().no_duplicates(),
            forall|coord: Point2Int|
                self.spec_contains(coord) <==> #[trigger] self.spec_sequence().contains(coord),
    {
        let walk = self.spec_sequence();
        assert forall|i: int, j: int| 0 <= i < walk.len() && 0 <= j < walk.len() && i != j implies walk[i]
            != walk[j] by {
            self.lemma_coordinate_at(i);
            self.lemma_coordinate_at(j);
        }
        assert forall|coord: Point2Int| self.spec_contains(coord) <==> #[trigger] walk.contains(
            coord,
        ) by {
            if self.spec_contains(coord) {
                self.lemma_index_of(coord);
                assert(walk[self.spec_index_of(coord)] == coord);
            }
            if walk.contains(coord) {
                let i = choose|i: int| 0 <= i < walk.len() && walk[i] == coord;
                self.lemma_coordinate_at(i);
            }
        }
    }
}

/// What the puller `puller` has got after the first `count` pulls from one shared
/// walk of `screen`, where `pullers[i]` is the one whose pull came `i`-th: every
/// pull gives the next pixel of the walk to the one who pulled.
pub open spec fn spec_pulled(screen: Screen, pullers: Seq<nat>, puller: nat, count: nat) -> Seq<
    Point2Int,
>
    decreases count,
{
    if count == 0 {
        Seq::empty()
    } else {
        let earlier = spec_pulled(screen, pullers, puller, (count - 1) as nat);
        if pullers[count - 1] == puller {
            earlier.push(screen.spec_coordinate_at(count - 1))
        } else {
            earlier
        }
    }
}

/// A puller holds a pixel if and only if one of its pulls gave it.
pub proof fn lemma_pulled_contains(
    screen: Screen,
    pullers: Seq<nat>,
    puller: nat,
    count: nat,
    coord: Point2Int,
)
    requires
        count <= screen.spec_pixel_count(),
        count <= pullers.len(),
    ensures
        spec_pulled(screen, pullers, puller, count).contains(coord) <==> (screen.spec_contains(coord)
            && screen.spec_index_of(coord) < count && pullers[screen.spec_index_of(coord)]
            == puller),
        spec_pulled(screen, pullers, puller, count).no_duplicates(),
    decreases count,
{
    if count > 0 {
        let earlier = spec_pulled(screen, pullers, puller, (count - 1) as nat);
        let last = screen.spec_coordinate_at(count - 1);
        lemma_pulled_contains(screen, pullers, puller, (count - 1) as nat, coord);
        lemma_pulled_contains(screen, pullers, puller, (count - 1) as nat, last);
        screen.lemma_coordinate_at(count - 1);
        if screen.spec_contains(coord) {
            screen.lemma_index_of(coord);
        }
        if pullers[count - 1] == puller {
            let now = earlier.push(last);
            assert(now.contains(coord) <==> earlier.contains(coord) || coord == last) by {
                if earlier.contains(coord) {
                    let place = choose|place: int| 0 <= place < earlier.len() && earlier[place] == coord;
                    assert(now[place] == coord);
                }
                if coord == last {
                    assert(now[earlier.len() as int] == coord);
                }
            }
            assert(!earlier.contains(last));
            assert forall|first: int, second: int|
                0 <= first < now.len() && 0 <= second < now.len() && first != second implies now[first]
                != now[second] by {
                if first < earlier.len() {
                    assert(earlier.contains(now[first]));
                }
                if second < earlier.len() {
                    assert(earlier.contains(now[second]));
                }
            }
        }
    }
}

/// Pulling from one shared walk. Let any number of pullers pull from a single
/// walk of a screen until it is exhausted, in any order, each pull giving the next
/// pixel to the one who pulled. Then every pixel of the screen is held by exactly
/// one puller, the one whose pull came at the pixel's place in the walk, and no
/// puller holds a pixel twice: nothing is left out and nothing is given twice.
pub proof fn lemma_shared_pulls_partition(screen: Screen, pullers: Seq<nat>)
    requires
        pullers.len() >= screen.spec_pixel_count(),
    ensures
        forall|puller: nat| #[trigger]
            spec_pulled(screen, pullers, puller, screen.spec_pixel_count()).no_duplicates(),
        forall|puller: nat, coord: Point2Int| #[trigger]
            spec_pulled(screen, pullers, puller, screen.spec_pixel_count()).contains(coord) <==> (
            screen.spec_contains(coord) && pullers[screen.spec_index_of(coord)] == puller),
{
    assert forall|puller: nat| #[trigger]
        spec_pulled(screen, pullers, puller, screen.spec_pixel_count()).no_duplicates() by {
        lemma_pulled_contains(
            screen,
            pullers,
            puller,
            screen.spec_pixel_count(),
            Point2Int { x: 0, y: 0 },
        );
    }
    assert forall|puller: nat, coord: Point2Int| #[trigger]
        spec_pulled(screen, pullers, puller, screen.spec_pixel_count()).contains(coord) <==> (
        screen.spec_contains(coord) && pullers[screen.spec_index_of(coord)] == puller) by {
        lemma_pulled_contains(screen, pullers, puller, screen.spec_pixel_count(), coord);
        if screen.spec_contains(coord) {
            screen.lemma_index_of(coord);
        }
    }
}

/// A walk over the pixels of a screen that remembers how far it has come.
#[derive(Clone, Copy, Debug)]
pub struct ScreenIterator {
    pub screen: Screen,
    pub position: u64,
}

impl ScreenIterator {
    /// A walk that starts at the first pixel of `screen`.
    pub fn new(screen: &Screen) -> (walk: ScreenIterator)
        ensures
            walk == (ScreenIterator { screen: *screen, position: 0 }),
    {
        ScreenIterator { screen: *screen, position: 0 }
    }

    /// The pixels that the walk has still to give, in order.
    pub open spec fn spec_remaining(self) -> Seq<Point2Int> {
        if self.position <= self.screen.spec_pixel_count() {
            self.screen.spec_sequence().skip(self.position as int)
        } else {
            Seq::empty()
        }
    }

    /// Gives the next pixel of the walk and steps past it; `None`, with
    /// nothing changed, once every pixel has been given.
    pub fn next(&mut self) -> (item: Option<Point2Int>)
        ensures
            final(self).screen == old(self).screen,
            old(self).position < old(self).screen.spec_pixel_count() ==> {
                &&& item == Some(old(self).screen.spec_coordinate_at(old(self).position as int))
                &&& final(self).position == old(self).position + 1
            },
            old(self).position >= old(self).screen.spec_pixel_count() ==> {
                &&& item.is_none()
                &&& final(self).position == old(self).position
            },
            item == (if old(self).spec_remaining().len() > 0 {
                Some(old(self).spec_remaining()[0])
            } else {
                None
            }),
            item.is_some() ==> final(self).spec_remaining() == old(self).spec_remaining().skip(1),
    {
        if self.position < self.screen.pixel_count() {
            let coord = self.screen.coordinate_at(self.position);
            self.position = self.position + 1;
            assert(final(self).spec_remaining() =~= old(self).spec_remaining().skip(1));
            Some(coord)
        } else {
            None
        }
    }
}

} // verus!
