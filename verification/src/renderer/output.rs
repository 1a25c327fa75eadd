//! The sink of a renderer, and what a finished rendering has put into it.

use crate::color::Color;
use crate::defs::Point2Int;
use crate::view::View;
use crate::world::RayCaster;
use vstd::prelude::*;

verus! {

/// A sink for the colours of pixels. For every coordinate it either takes
/// colours or refuses them, once and for all; of those it takes, it keeps the
/// last one.
pub trait RendererOutput {
    /// The invariant of the sink. A sink that does not say leaves it open, as
    /// it does what it accepts and what it has taken.
    open spec fn spec_valid(&self) -> bool {
        arbitrary()
    }

    /// Whether the sink takes colours for `coord`.
    open spec fn spec_accepts(&self, coord: Point2Int) -> bool {
        arbitrary()
    }

    /// The colour last taken at each coordinate.
    open spec fn spec_written(&self) -> Map<Point2Int, Color> {
        arbitrary()
    }

    /// Hands the sink the colour of a pixel and says whether it took it.
    fn set_output(&mut self, coord: Point2Int, color: Color) -> (accepted: bool)
        requires
            old(self).spec_valid(),
        ensures
            final(self).spec_valid(),
            accepted == old(self).spec_accepts(coord),
            final(self).spec_written() == (if accepted {
                old(self).spec_written().insert(coord, color)
            } else {
                old(self).spec_written()
            }),
            forall|other: Point2Int| #[trigger]
                final(self).spec_accepts(other) == old(self).spec_accepts(other),
    ;
}

/// The colour that a sink holds at `coord`, if it holds one.
pub open spec fn spec_held(written: Map<Point2Int, Color>, coord: Point2Int) -> Option<Color> {
    if written.contains_key(coord) {
        Some(written[coord])
    } else {
        None
    }
}

/// What a sink that started as `before` holds at `coord` once the pixel at
/// `coord` has been rendered: the colour that `world` shows along the ray through
/// that pixel, where the pixel lies on the screen of `view`, the sink takes it
/// and the ray meets something; what the sink held before, otherwise.
pub open spec fn spec_rendered_pixel<W: RayCaster, O: RendererOutput>(
    world: W,
    view: View,
    before: O,
    coord: Point2Int,
) -> Option<Color> {
    let seen = world.spec_cast_ray(view.spec_ray_through(coord));
    if view.screen.spec_contains(coord) && before.spec_accepts(coord) && seen.is_some() {
        seen
    } else {
        spec_held(before.spec_written(), coord)
    }
}

/// What a sink that started as `before` holds once exactly the pixels in
/// `settled` have been rendered.
pub open spec fn spec_partial_render<W: RayCaster, O: RendererOutput>(
    world: W,
    view: View,
    before: O,
    settled: Set<Point2Int>,
) -> Map<Point2Int, Color> {
    Map::new(
        |coord: Point2Int|
            if settled.contains(coord) {
                spec_rendered_pixel(world, view, before, coord).is_some()
            } else {
                before.spec_written().contains_key(coord)
            },
        |coord: Point2Int|
            if settled.contains(coord) {
                spec_rendered_pixel(world, view, before, coord).unwrap()
            } else {
                before.spec_written()[coord]
            },
    )
}

/// What a sink that started as `before` holds once `view` of `world` has been
/// rendered in full.
pub open spec fn spec_render<W: RayCaster, O: RendererOutput>(
    world: W,
    view: View,
    before: O,
) -> Map<Point2Int, Color> {
    Map::new(
        |coord: Point2Int| spec_rendered_pixel(world, view, before, coord).is_some(),
        |coord: Point2Int| spec_rendered_pixel(world, view, before, coord).unwrap(),
    )
}

/// The pixels of the screen of `view` that come before place `count` of its walk.
pub open spec fn spec_dispatched(view: View, count: nat) -> Set<Point2Int> {
    Set::new(
        |coord: Point2Int|
            view.screen.spec_contains(coord) && view.screen.spec_index_of(coord) < count,
    )
}

/// Once every pixel of the screen is settled, the rendering is complete.
pub proof fn lemma_partial_render_complete<W: RayCaster, O: RendererOutput>(
    world: W,
    view: View,
    before: O,
    settled: Set<Point2Int>,
)
    requires
        forall|coord: Point2Int| view.screen.spec_contains(coord) ==> settled.contains(coord),
    ensures
        spec_partial_render(world, view, before, settled) == spec_render(world, view, before),
{
    assert(spec_partial_render(world, view, before, settled) =~= spec_render(world, view, before));
}

/// Rendering one more pixel: the sink after the write that the pixel calls for
/// is the sink with that pixel settled too.
pub proof fn lemma_partial_render_step<W: RayCaster, O: RendererOutput>(
    world: W,
    view: View,
    before: O,
    settled: Set<Point2Int>,
    coord: Point2Int,
)
    requires
        view.screen.spec_contains(coord),
        !settled.contains(coord),
    ensures
        spec_partial_render(world, view, before, settled.insert(coord)) == (match world.spec_cast_ray(
            view.spec_ray_through(coord),
        ) {
            Some(color) if before.spec_accepts(coord) => spec_partial_render(
                world,
                view,
                before,
                settled,
            ).insert(coord, color),
            _ => spec_partial_render(world, view, before, settled),
        }),
{
    let target = spec_partial_render(world, view, before, settled.insert(coord));
    let source = spec_partial_render(world, view, before, settled);
    match world.spec_cast_ray(view.spec_ray_through(coord)) {
        Some(color) if before.spec_accepts(coord) => {
            assert(target =~= source.insert(coord, color));
        },
        _ => {
            assert(target =~= source);
        },
    }
}

} // verus!
