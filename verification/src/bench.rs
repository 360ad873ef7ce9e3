use vstd::prelude::*;
use crate::points::GeoPoint;
use crate::points::POINT_SEED;
use crate::points::make_points;
use crate::points::points_generated;
use crate::ring::RollingAvg;
use crate::ring::spec_mean;
use crate::ring::spec_push;

verus! {

/// How many points the benchmark dataset holds.
pub const BENCH_POINT_COUNT: usize = 2000;

/// How many of the most recent frame times the rolling average keeps.
pub const FRAME_WINDOW: usize = 120;

/// What one frame hands the driver: whether the reset control was clicked,
/// whether the mode-toggle key was pressed, whether the repaint modifier is
/// held, and the measured duration of this frame's render, in microseconds.
pub struct FrameInput {
    pub reset_clicked: bool,
    pub toggle_pressed: bool,
    pub alt_held: bool,
    pub frame_micros: u64,
}

/// What the driver hands back for the overlay and the scheduler: which mode
/// was measured this frame, the rolling mean right after this frame's
/// sample, and whether the next repaint must be requested at once.
pub struct FrameReport {
    pub grouped: bool,
    pub mean_micros: u64,
    pub continuous_repaint: bool,
}

/// The rolling average as the overlay reads it, mid-frame: an optional
/// clear by the reset control, then this frame's sample appended.
pub open spec fn spec_frame_avg_mid(avg: Seq<u64>, cap: nat, input: FrameInput) -> Seq<u64> {
    spec_push(
        if input.reset_clicked {
            Seq::<u64>::empty()
        } else {
            avg
        },
        cap,
        input.frame_micros,
    )
}

/// The rolling average as the frame leaves it: cleared whenever the mode
/// was toggled, so the other mode's samples never bias the new mode.
pub open spec fn spec_frame_avg_end(avg: Seq<u64>, cap: nat, input: FrameInput) -> Seq<u64> {
    if input.toggle_pressed {
        Seq::<u64>::empty()
    } else {
        spec_frame_avg_mid(avg, cap, input)
    }
}

/// The benchmark's whole state: the immutable dataset, the mode flag, and
/// the rolling frame-time average.
pub struct BenchState {
    points: Vec<GeoPoint>,
    use_grouped: bool,
    avg: RollingAvg,
}

impl BenchState {
    pub closed spec fn wf(self) -> bool {
        self.avg.wf()
    }

    /// The generated dataset.
    pub closed spec fn points_view(self) -> Seq<GeoPoint> {
        self.points@
    }

    /// Whether the grouped (clustered) rendering path is selected.
    pub closed spec fn grouped(self) -> bool {
        self.use_grouped
    }

    /// The samples the rolling average currently holds, oldest first.
    pub closed spec fn avg_samples(self) -> Seq<u64> {
        self.avg.samples()
    }

    pub closed spec fn avg_capacity(self) -> nat {
        self.avg.capacity()
    }

    /// Construct the benchmark: the dataset is generated here, once, and is
    /// never regenerated, so both modes observe identical input data.
    pub fn new(point_count: usize, window: usize) -> (st: BenchState)
        requires
            window >= 1,
            2 * (point_count as int) < u64::MAX,
        ensures
            st.wf(),
            points_generated(st.points_view(), POINT_SEED, point_count as nat),
            !st.grouped(),
            st.avg_samples() == Seq::<u64>::empty(),
            st.avg_capacity() == window,
    {
        BenchState {
            points: make_points(point_count),
            use_grouped: false,
            avg: RollingAvg::new(window),
        }
    }

    /// The dataset, for the caller that renders it.
    pub fn points(&self) -> (r: &Vec<GeoPoint>)
        ensures
            r@ == self.points_view(),
    {
        &self.points
    }

    /// Whether the next frame must render the grouped path.
    pub fn is_grouped(&self) -> (r: bool)
        ensures
            r == self.grouped(),
    {
        self.use_grouped
    }

    /// The rolling mean over the samples held right now, in microseconds.
    pub fn current_mean(&self) -> (r: u64)
        requires
            self.wf(),
        ensures
            r == spec_mean(self.avg_samples()),
    {
        self.avg.mean()
    }

    /// One frame of the benchmark driver. The caller has rendered one frame
    /// in the current mode and measured it; this orders the frame's effects:
    /// an explicit reset clears the average, the measured duration is
    /// pushed, the overlay mean is read, and a mode toggle then flips the
    /// mode and clears the average again. The dataset is untouched.
    pub fn frame_update(&mut self, input: FrameInput) -> (report: FrameReport)
        requires
            old(self).wf(),
        ensures
            final(self).wf(),
            final(self).points_view() == old(self).points_view(),
            final(self).avg_capacity() == old(self).avg_capacity(),
            final(self).grouped() == (if input.toggle_pressed {
                !old(self).grouped()
            } else {
                old(self).grouped()
            }),
            final(self).avg_samples() == spec_frame_avg_end(
                old(self).avg_samples(),
                old(self).avg_capacity(),
                input,
            ),
            report.grouped == old(self).grouped(),
            report.mean_micros == spec_mean(
                spec_frame_avg_mid(old(self).avg_samples(), old(self).avg_capacity(), input),
            ),
            report.continuous_repaint == input.alt_held,
    {
        if input.reset_clicked {
            self.avg.reset();
        }
        self.avg.push(input.frame_micros);
        let mean_now = self.avg.mean();
        let was_grouped = self.use_grouped;
        if input.toggle_pressed {
            self.use_grouped = !self.use_grouped;
            self.avg.reset();
        }
        FrameReport {
            grouped: was_grouped,
            mean_micros: mean_now,
            continuous_repaint: input.alt_held,
        }
    }
}

/// Law: a mode toggle always leaves the rolling average empty, so right
/// after a toggle the mean is the fresh-state mean 0, whatever was pushed
/// before.
pub proof fn lemma_toggle_resets_average(avg: Seq<u64>, cap: nat, input: FrameInput)
    requires
        input.toggle_pressed,
    ensures
        spec_frame_avg_end(avg, cap, input) == Seq::<u64>::empty(),
        spec_mean(spec_frame_avg_end(avg, cap, input)) == 0,
{
}

} // verus!
