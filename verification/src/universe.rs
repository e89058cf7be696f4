//! The universe: a grid, its generation counter, and the detector that
//! decides when stepping it further is pointless.

use crate::detector::{Detector, DetectorView};
use crate::digest::{fingerprint, fingerprint_of};
use crate::grid::{lemma_count_alive_bounded, Grid, GridView};
use vstd::prelude::*;

verus! {

/// The mathematical content of a [`Universe`].
pub struct UniverseView {
    /// The present generation of cells.
    pub grid: GridView,
    /// The number of steps taken so far.
    pub generation: nat,
    /// The number of cells that were alive before the last step.
    pub live_count: nat,
    /// The state of the stagnation detector.
    pub detector: DetectorView,
}

impl UniverseView {
    /// The grid and the detector are well formed, and the live-cell count
    /// is at most the number of cells.
    pub open spec fn wf(self) -> bool {
        &&& self.grid.wf()
        &&& self.detector.wf()
        &&& self.live_count <= self.grid.width * self.grid.height
    }

    /// The universe before its first step.
    pub open spec fn initial(
        width: nat,
        height: nat,
        seed_a: nat,
        seed_b: nat,
        retention: nat,
    ) -> UniverseView {
        UniverseView {
            grid: GridView::seeded(width, height, seed_a, seed_b),
            generation: 0,
            live_count: 0,
            detector: DetectorView::empty(retention),
        }
    }

    /// The universe after one step: the grid is replaced by its next
    /// generation, the count is that of the grid left behind, and the
    /// detector has observed the fingerprint of the new grid.
    pub open spec fn tick(self) -> UniverseView {
        let next = self.grid.successor();
        UniverseView {
            grid: next,
            generation: self.generation + 1,
            live_count: self.grid.live_count(),
            detector: self.detector.observe(fingerprint_of(next.rendering())),
        }
    }

    /// The universe after `steps` steps.
    pub open spec fn after(self, steps: nat) -> UniverseView
        decreases steps,
    {
        if steps == 0 {
            self
        } else {
            self.after((steps - 1) as nat).tick()
        }
    }

    /// The fingerprints observed in the first `steps` steps, in order.
    pub open spec fn fingerprint_trace(self, steps: nat) -> Seq<Seq<char>> {
        Seq::new(steps, |i: int| fingerprint_of(self.after((i + 1) as nat).grid.rendering()))
    }

    /// The verdicts of the first `steps` steps, in order.
    pub open spec fn verdict_trace(self, steps: nat) -> Seq<bool> {
        Seq::new(steps, |i: int| self.after((i + 1) as nat).detector.verdict())
    }
}

/// The text of a verdict.
pub open spec fn verdict_text(stop: bool) -> Seq<char> {
    if stop {
        "stop"@
    } else {
        "continue"@
    }
}

/// A step keeps a universe well formed; in particular the live-cell count
/// it reports is at most the number of cells, and the window stays within
/// its bound.
pub proof fn lemma_tick_preserves_wf(universe: UniverseView)
    requires
        universe.wf(),
    ensures
        universe.tick().wf(),
        universe.tick().live_count <= universe.grid.width * universe.grid.height,
        universe.tick().detector.window.len() <= universe.detector.retention,
{
    lemma_count_alive_bounded(universe.grid.cells);
}

/// However many steps are taken, the universe stays well formed: the
/// live-cell count never exceeds the number of cells, and the dimensions
/// and the retention bound never change.
pub proof fn lemma_after_preserves_wf(universe: UniverseView, steps: nat)
    requires
        universe.wf(),
    ensures
        universe.after(steps).wf(),
        universe.after(steps).grid.width == universe.grid.width,
        universe.after(steps).grid.height == universe.grid.height,
        universe.after(steps).detector.retention == universe.detector.retention,
        universe.after(steps).generation == universe.generation + steps,
        universe.after(steps).live_count <= universe.grid.width * universe.grid.height,
    decreases steps,
{
    if steps > 0 {
        lemma_after_preserves_wf(universe, (steps - 1) as nat);
        lemma_tick_preserves_wf(universe.after((steps - 1) as nat));
    }
}

/// Two universes built from the same parameters observe the same
/// fingerprints and reach the same verdicts, step for step.
pub proof fn lemma_same_parameters_same_run(
    width: nat,
    height: nat,
    seed_a: nat,
    seed_b: nat,
    retention: nat,
    first: UniverseView,
    second: UniverseView,
    steps: nat,
)
    requires
        first == UniverseView::initial(width, height, seed_a, seed_b, retention),
        second == UniverseView::initial(width, height, seed_a, seed_b, retention),
    ensures
        first.after(steps) == second.after(steps),
        first.fingerprint_trace(steps) == second.fingerprint_trace(steps),
        first.verdict_trace(steps) == second.verdict_trace(steps),
{
}

/// The simulation state: the grid, the generation counter, the live-cell
/// count of the generation just completed, and the stagnation detector.
pub struct Universe {
    run: u32,
    count: u32,
    grid: Grid,
    detector: Detector,
}

impl View for Universe {
    type V = UniverseView;

    closed spec fn view(&self) -> UniverseView {
        UniverseView {
            grid: self.grid@,
            generation: self.run as nat,
            live_count: self.count as nat,
            detector: self.detector@,
        }
    }
}

impl Universe {
    /// The invariant of a universe.
    pub open spec fn wf(&self) -> bool {
        self@.wf()
    }

    /// Builds a universe of `width` by `height` cells in which cell `i` is
    /// alive iff `i` is a multiple of `m1` or of `m2`, with a detector that
    /// retains up to `digest_history_retention` fingerprints.
    pub fn new(width: u32, height: u32, m1: u32, m2: u32, digest_history_retention: usize) -> (universe:
        Universe)
        requires
            width > 0,
            height > 0,
            m1 != 0,
            m2 != 0,
            digest_history_retention > 0,
            width * height <= u32::MAX,
        ensures
            universe.wf(),
            universe@ == UniverseView::initial(
                width as nat,
                height as nat,
                m1 as nat,
                m2 as nat,
                digest_history_retention as nat,
            ),
    {
        Universe {
            run: 0,
            count: 0,
            grid: Grid::new(width, height, m1, m2),
            detector: Detector::new(digest_history_retention),
        }
    }

    /// Performs one generation step and returns the verdict of the
    /// detector on the new grid: `"stop"` or `"continue"`.
    pub fn tick(&mut self) -> (verdict: String)
        requires
            old(self).wf(),
            old(self)@.generation < u32::MAX,
        ensures
            final(self).wf(),
            final(self)@ == old(self)@.tick(),
            final(self)@.live_count <= old(self)@.grid.width * old(self)@.grid.height,
            final(self)@.detector.window.len() <= old(self)@.detector.retention,
            verdict@ == verdict_text(final(self)@.detector.verdict()),
    {
        let total_alive = self.grid.advance();
        let text = self.grid.render();
        let digest = fingerprint(text.as_str());
        let stop = self.detector.recurring_pattern_present(digest.as_str());
        self.run = self.run + 1;
        self.count = total_alive;
        if stop {
            "stop".to_owned()
        } else {
            "continue".to_owned()
        }
    }

    /// Renders the present grid as text.
    pub fn render(&self) -> (text: String)
        requires
            self.wf(),
        ensures
            text@ == self@.grid.rendering(),
    {
        self.grid.render()
    }

    /// The fingerprint of the present grid.
    pub fn get_md5_sum(&self) -> (digest: String)
        requires
            self.wf(),
        ensures
            digest@ == fingerprint_of(self@.grid.rendering()),
    {
        let text = self.grid.render();
        fingerprint(text.as_str())
    }

    /// The number of steps taken so far.
    pub fn generation(&self) -> (generation: u32)
        ensures
            generation == self@.generation,
    {
        self.run
    }

    /// The number of cells that were alive before the last step.
    pub fn live_count(&self) -> (count: u32)
        ensures
            count == self@.live_count,
    {
        self.count
    }

    /// The present grid.
    pub fn grid(&self) -> (grid: &Grid)
        ensures
            grid@ == self@.grid,
    {
        &self.grid
    }

    /// The stagnation detector.
    pub fn detector(&self) -> (detector: &Detector)
        ensures
            detector@ == self@.detector,
    {
        &self.detector
    }
}

} // verus!
