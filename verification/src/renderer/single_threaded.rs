//! The renderer that casts every ray itself, one after the other.

use crate::defs::Point2Int;
use crate::renderer::output::{
    lemma_partial_render_complete, lemma_partial_render_step, spec_dispatched,
    spec_partial_render, spec_render, RendererOutput,
};
use crate::view::{View, ViewIterator};
use crate::world::RayCaster;
use vstd::prelude::*;

verus! {

/// A world, a view of it and the output that the rendering goes to.
pub struct SingleThreadedRenderer<WorldType, OutputType> {
    pub world: WorldType,
    pub view: View,
    pub output: OutputType,
}

impl<WorldType: RayCaster, OutputType: RendererOutput> SingleThreadedRenderer<
    WorldType,
    OutputType,
> {
    pub fn new(world: WorldType, view: View, output: OutputType) -> (renderer: Self)
        ensures
            renderer.world == world,
            renderer.view == view,
            renderer.output == output,
    {
        Self { world, view, output }
    }

    /// Casts the ray of every pixel of the view, in the order of the screen's
    /// walk, and hands each colour that comes back to the output.
    pub fn execute(&mut self)
        requires
            old(self).output.spec_valid(),
        ensures
            final(self).world == old(self).world,
            final(self).view == old(self).view,
            final(self).output.spec_valid(),
            forall|coord: Point2Int| #[trigger]
                final(self).output.spec_accepts(coord) == old(self).output.spec_accepts(coord),
            final(self).output.spec_written() == spec_render(
                old(self).world,
                old(self).view,
                old(self).output,
            ),
    {
        let ghost before = self.output;
        let mut tasks = ViewIterator::new(&self.view);
        proof {
            assert(spec_partial_render(self.world, self.view, before, spec_dispatched(self.view, 0))
                =~= before.spec_written());
        }
        loop
            invariant
                self.world == old(self).world,
                self.view == old(self).view,
                before == old(self).output,
                tasks.view == self.view,
                tasks.pixels.screen == self.view.screen,
                tasks.pixels.position <= self.view.screen.spec_pixel_count(),
                self.output.spec_valid(),
                forall|coord: Point2Int| #[trigger]
                    self.output.spec_accepts(coord) == before.spec_accepts(coord),
                self.output.spec_written() == spec_partial_render(
                    self.world,
                    self.view,
                    before,
                    spec_dispatched(self.view, tasks.spec_position()),
                ),
            ensures
                tasks.spec_exhausted(),
            decreases self.view.screen.spec_pixel_count() - tasks.pixels.position,
        {
            let ghost place = tasks.spec_position();
            match tasks.next() {
                Some((ray, coord)) => {
                    proof {
                        self.view.screen.lemma_coordinate_at(place as int);
                        lemma_partial_render_step(
                            self.world,
                            self.view,
                            before,
                            spec_dispatched(self.view, place),
                            coord,
                        );
                        assert(spec_dispatched(self.view, place).insert(coord) =~= spec_dispatched(
                            self.view,
                            place + 1,
                        )) by {
                            assert forall|other: Point2Int|
                                self.view.screen.spec_contains(other)
                                    && self.view.screen.spec_index_of(other) == place implies other
                                == coord by {
                                self.view.screen.lemma_index_of(other);
                            }
                        }
                    }
                    match self.world.cast_ray(&ray) {
                        Some(color) => {
                            self.output.set_output(coord, color);
                        },
                        None => (),
                    }
                },
                None => {
                    break ;
                },
            }
        }
        proof {
            assert forall|coord: Point2Int| self.view.screen.spec_contains(coord) implies spec_dispatched(
                self.view,
                tasks.spec_position(),
            ).contains(coord) by {
                self.view.screen.lemma_index_of(coord);
            }
            lemma_partial_render_complete(
                self.world,
                self.view,
                before,
                spec_dispatched(self.view, tasks.spec_position()),
            );
        }
    }

    pub fn get_renderer_output(&self) -> (output: &OutputType)
        ensures
            *output == self.output,
    {
        &self.output
    }
}

} // verus!
