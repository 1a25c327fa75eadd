//! The camera: where it stands, where it looks, and the rays that it sends through
//! the pixels of its screen.

use crate::defs::{Point2Int, Point3, Vector3};
use crate::fixed::{Fixed, SCALE};
use crate::ray::Ray;
use crate::screen::{Screen, ScreenIterator};
use vstd::prelude::*;

verus! {

/// A camera at `origin` that looks along `direction` at a screen one unit away.
/// The screen is `width` wide and `height` high; `right` runs along its rows and
/// `up` against its columns.
#[derive(Clone, Copy, Debug)]
pub struct View {
    pub origin: Point3,
    pub direction: Vector3,
    pub right: Vector3,
    pub up: Vector3,
    pub width: Fixed,
    pub height: Fixed,
    pub screen: Screen,
}

/// The number of rows of a screen with `columns` columns and the given ratio of
/// width to height: the integer part of their quotient, and none where the ratio
/// is not positive.
pub open spec fn spec_rows(columns: u32, aspect_ratio: Fixed) -> u32 {
    if aspect_ratio.raw <= 0 {
        0
    } else {
        let rows = (columns * SCALE) / (aspect_ratio.raw as int);
        if rows > u32::MAX {
            u32::MAX
        } else {
            rows as u32
        }
    }
}

/// The number of rows of a screen with `columns` columns and the given ratio of
/// width to height.
pub fn rows(columns: u32, aspect_ratio: Fixed) -> (count: u32)
    ensures
        count == spec_rows(columns, aspect_ratio),
{
    if aspect_ratio.raw <= 0 {
        0
    } else {
        assert(columns * SCALE <= 0xFFFF_FFFF * 1_000_000) by (nonlinear_arith)
            requires
                0 <= columns <= 0xFFFF_FFFF,
                SCALE == 1_000_000,
        ;
        let scaled: u64 = (columns as u64) * (SCALE as u64);
        let quotient: u64 = scaled / (aspect_ratio.raw as u64);
        if quotient > u32::MAX as u64 {
            u32::MAX
        } else {
            quotient as u32
        }
    }
}

impl View {
    /// The view that `new_unit` builds.
    pub open spec fn spec_new_unit(
        origin: Point3,
        direction: Vector3,
        up: Vector3,
        aspect_ratio: Fixed,
        width: Fixed,
        horizontal_resolution: u32,
    ) -> View {
        let forward = direction.spec_normalized();
        let right = forward.cross(up).spec_normalized();
        View {
            origin,
            direction: forward,
            right,
            up: right.cross(forward),
            width,
            height: width.over(aspect_ratio),
            screen: Screen {
                horizontal_resolution,
                vertical_resolution: spec_rows(horizontal_resolution, aspect_ratio),
            },
        }
    }

    /// A camera at `origin` looking along `direction`, with `up` fixing its roll,
    /// onto a screen at unit distance that is `width` wide, has the given ratio of
    /// width to height and `horizontal_resolution` columns.
    pub fn new_unit(
        origin: Point3,
        direction: Vector3,
        up: Vector3,
        aspect_ratio: Fixed,
        width: Fixed,
        horizontal_resolution: u32,
    ) -> (view: View)
        ensures
            view == Self::spec_new_unit(
                origin,
                direction,
                up,
                aspect_ratio,
                width,
                horizontal_resolution,
            ),
    {
        let forward = direction.normalized();
        let right = forward.cross(up).normalized();
        View {
            origin,
            direction: forward,
            right,
            up: right.cross(forward),
            width,
            height: width.over(aspect_ratio),
            screen: Screen::new(horizontal_resolution, rows(horizontal_resolution, aspect_ratio)),
        }
    }

    pub fn get_screen(&self) -> (screen: &Screen)
        ensures
            *screen == self.screen,
    {
        &self.screen
    }

    /// How far the centre of a pixel lies from the centre of the screen, as a
    /// fraction of the screen's extent: `place` is the pixel's column or row and
    /// `count` the number of columns or rows.
    pub open spec fn spec_offset(place: u32, count: u32) -> Fixed {
        Fixed::from_ratio((2 * place + 1 - count) as i64, (2 * count) as i64)
    }

    /// The ray from the camera through the centre of the pixel `coord`.
    pub open spec fn spec_ray_through(self, coord: Point2Int) -> Ray {
        let across = self.width.times(
            Self::spec_offset(coord.x, self.screen.horizontal_resolution),
        );
        let down = self.height.times(Self::spec_offset(coord.y, self.screen.vertical_resolution));
        let toward = self.direction.plus(self.right.scaled(across)).minus(self.up.scaled(down));
        Ray { origin: self.origin, direction: toward.spec_normalized() }
    }

    /// The ray and the pixel at place `index` of the screen's walk.
    pub open spec fn spec_task(self, index: int) -> (Ray, Point2Int) {
        let coord = self.screen.spec_coordinate_at(index);
        (self.spec_ray_through(coord), coord)
    }

    /// The ray from the camera through the centre of the pixel `coord`.
    pub fn ray_through(&self, coord: Point2Int) -> (ray: Ray)
        ensures
            ray == self.spec_ray_through(coord),
    {
        let across = self.width.times(Self::offset(coord.x, self.screen.horizontal_resolution));
        let down = self.height.times(Self::offset(coord.y, self.screen.vertical_resolution));
        let toward = self.direction.plus(self.right.scaled(across)).minus(self.up.scaled(down));
        Ray::new(self.origin, toward.normalized())
    }

    fn offset(place: u32, count: u32) -> (fraction: Fixed)
        ensures
            fraction == Self::spec_offset(place, count),
    {
        let numerator: i64 = 2 * (place as i64) + 1 - (count as i64);
        let denominator: i64 = 2 * (count as i64);
        Fixed::from_ratio(numerator, denominator)
    }
}

/// A walk over the rays of a view, one for each pixel of its screen.
#[derive(Clone, Copy, Debug)]
pub struct ViewIterator {
    pub view: View,
    pub pixels: ScreenIterator,
}

impl ViewIterator {
    /// A walk over `view` that starts at the first pixel of its screen.
    pub fn new(view: &View) -> (walk: ViewIterator)
        ensures
            walk.spec_fresh(*view),
    {
        ViewIterator { view: *view, pixels: ScreenIterator::new(&view.screen) }
    }

    /// The walk is over `view` and stands at its first pixel.
    pub open spec fn spec_fresh(self, view: View) -> bool {
        self == (ViewIterator {
            view,
            pixels: ScreenIterator { screen: view.screen, position: 0 },
        })
    }

    /// The walk is over the screen of its own view.
    pub open spec fn spec_well_formed(self) -> bool {
        self.pixels.screen == self.view.screen
    }

    /// How many pixels the walk has given.
    pub open spec fn spec_position(self) -> nat {
        self.pixels.position as nat
    }

    /// Whether the walk has given every pixel.
    pub open spec fn spec_exhausted(self) -> bool {
        self.pixels.position >= self.pixels.screen.spec_pixel_count()
    }

    /// Gives the next pixel with the ray through it and steps past it; `None`,
    /// with nothing changed, once every pixel has been given.
    pub fn next(&mut self) -> (item: Option<(Ray, Point2Int)>)
        ensures
            final(self).view == old(self).view,
            final(self).pixels.screen == old(self).pixels.screen,
            !old(self).spec_exhausted() ==> {
                let coord = old(self).pixels.screen.spec_coordinate_at(old(self).pixels.position as int);
                &&& item == Some((old(self).view.spec_ray_through(coord), coord))
                &&& final(self).pixels.position == old(self).pixels.position + 1
            },
            old(self).spec_exhausted() ==> item.is_none() && *final(self) == *old(self),
    {
        match self.pixels.next() {
            Some(coord) => Some((self.view.ray_through(coord), coord)),
            None => None,
        }
    }
}

} // verus!
