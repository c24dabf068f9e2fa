//! The per-frame state that sweeps a visible window along one traced path.

use vstd::prelude::*;

verus! {

use crate::math::{s_add, s_sub, fx_add, fx_sub};
use crate::path::{Line, Path};

/// Walks a window of fixed length `line_len` along `path`, driven by
/// per-frame `step` calls. Conceptually a two-state machine: running while
/// `beginning < total length + line_len`, finished once it has passed that
/// point, and back to running only through `reset`.
#[derive(Clone, Debug)]
pub struct RayAnimation {
    pub path: Path,
    pub line_len: i64,
    pub beginning: i64,
}

impl RayAnimation {
    /// The running state: the window has not yet swept past the end of the
    /// path plus its own length. Its complement is the finished state.
    pub open spec fn running(self) -> bool {
        self.beginning < s_add(self.path.length, self.line_len)
    }

    /// What one `step` by `distance` does to the state: a running
    /// animation advances, a finished one stays put.
    pub open spec fn step_state(self, distance: i64) -> RayAnimation {
        if self.running() {
            RayAnimation {
                path: self.path,
                line_len: self.line_len,
                beginning: s_add(self.beginning, distance),
            }
        } else {
            self
        }
    }

    /// A fresh animation starts running at the beginning of its path.
    pub fn new(path: Path, line_len: i64) -> (r: RayAnimation)
        ensures
            r.path == path,
            r.line_len == line_len,
            r.beginning == 0,
    {
        RayAnimation { path, line_len, beginning: 0 }
    }

    /// Advance the window by `distance` and report whether the animation is
    /// still running. A finished animation stays unchanged and reports
    /// false; the step that crosses the finish line still completes and
    /// reports true, and only the next call reports false.
    pub fn step(&mut self, distance: i64) -> (r: bool)
        ensures
            r == old(self).running(),
            *final(self) == old(self).step_state(distance),
    {
        if self.beginning >= fx_add(self.path.length, self.line_len) {
            false
        } else {
            self.beginning = fx_add(self.beginning, distance);
            true
        }
    }

    /// Once finished, an animation stays finished and unchanged under any
    /// number of further steps of any distance; only `reset` leaves the
    /// state.
    pub proof fn lemma_finished_is_stable(self, distance: i64)
        requires
            !self.running(),
        ensures
            self.step_state(distance) == self,
            !self.step_state(distance).running(),
    {
    }

    /// A rewound animation is running again, as long as the path and its
    /// window give it any distance at all to cover.
    pub proof fn lemma_reset_restarts(self)
        requires
            self.beginning == 0,
            s_add(self.path.length, self.line_len) > 0,
        ensures
            self.running(),
    {
    }

    /// Rewind the window to the beginning of the path, back to running.
    pub fn reset(&mut self)
        ensures
            final(self).path == old(self).path,
            final(self).line_len == old(self).line_len,
            final(self).beginning == 0,
    {
        self.beginning = 0;
    }

    /// The line segments of the currently visible window, for the renderer
    /// to draw: the part of the path between `beginning - line_len` and
    /// `beginning`, both clamped to `[0, total length]`. Nothing to draw
    /// when the window is degenerate or the path has no lines.
    pub fn draw(&self) -> (r: Option<Vec<Line>>)
        requires
            self.path.wf(),
        ensures
            ({
                let hi = if self.beginning > self.path.length {
                    self.path.length
                } else {
                    self.beginning
                };
                let lo = if s_sub(self.beginning, self.line_len) < 0 {
                    0i64
                } else {
                    s_sub(self.beginning, self.line_len)
                };
                &&& (r.is_some() <==> (self.path.lines@.len() > 0 && 0 <= lo <= hi
                    <= self.path.length))
                &&& (r.is_some() ==> self.path.lines_between_spec(lo, hi).is_some()
                    && r.unwrap()@ == self.path.lines_between_spec(lo, hi).unwrap())
            }),
    {
        let hi: i64 = if self.beginning > self.path.length {
            self.path.length
        } else {
            self.beginning
        };
        let candidate: i64 = fx_sub(self.beginning, self.line_len);
        let lo: i64 = if candidate < 0 {
            0
        } else {
            candidate
        };
        self.path.lines_between(lo, hi)
    }
}

} // verus!
