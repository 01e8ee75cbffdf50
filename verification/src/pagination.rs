use vstd::prelude::*;
use crate::text::{spec_contains, contains_str};

verus! {

/// The JSON value type of the script-evaluation result.
#[verifier::external_type_specification]
#[verifier::external_body]
pub struct ExValue(serde_json::Value);

/// Relies on `serde_json::Value::as_i64`: `Some` exactly for integer JSON
/// numbers representable as `i64`. The value is opaque here, so nothing more
/// is assumed of the result.
pub assume_specification[ serde_json::Value::as_i64 ](v: &serde_json::Value) -> (r: Option<i64>);

/// The observed feed height encoded in a script-evaluation result: the
/// number itself, or zero when the result is not an integer number.
pub open spec fn spec_height_from(v: Option<i64>) -> i64 {
    match v {
        Some(h) => h,
        None => 0,
    }
}

/// Executable height decoding, equal to `spec_height_from`.
pub fn height_from(v: Option<i64>) -> (h: i64)
    ensures
        h == spec_height_from(v),
{
    match v {
        Some(h) => h,
        None => 0,
    }
}

/// The observed feed height of a raw script-evaluation result. The result
/// of `as_i64` on an opaque value cannot be pinned here; `height_from`
/// carries the exact contract for every value it may take.
pub fn height_of_value(v: &serde_json::Value) -> i64 {
    height_from(v.as_i64())
}

/// The driver's phases: still scrolling, finished on the sentinel, or
/// stopped by the iteration cap.
#[derive(Debug, Clone, Copy, PartialEq, Eq, Structural)]
pub enum DriverPhase {
    Scrolling,
    Done,
    Failed,
}

/// The pagination driver's state across iterations.
#[derive(Debug, Clone)]
pub struct ScrollState {
    /// The feed height read in the latest iteration.
    pub last_observed_height: i64,
    /// How many consecutive iterations the height failed to grow.
    pub stable_iterations: u64,
    /// Iterations completed so far.
    pub iterations_run: u64,
    /// The configured safety cap on iterations.
    pub max_iterations: u64,
    /// The current phase.
    pub phase: DriverPhase,
}

impl ScrollState {
    /// Well-formedness: while scrolling, the cap has not been reached.
    pub open spec fn wf(self) -> bool {
        self.phase is Scrolling ==> self.iterations_run < self.max_iterations
    }

    /// A fresh driver; it fails at once when the cap is zero.
    pub fn new(max_iterations: u64) -> (s: ScrollState)
        ensures
            s.wf(),
            s == spec_initial(max_iterations),
    {
        ScrollState {
            last_observed_height: 0,
            stable_iterations: 0,
            iterations_run: 0,
            max_iterations,
            phase: if max_iterations == 0 {
                DriverPhase::Failed
            } else {
                DriverPhase::Scrolling
            },
        }
    }

    /// The driver is still running.
    pub fn active(&self) -> (r: bool)
        ensures
            r == (self.phase is Scrolling),
    {
        match self.phase {
            DriverPhase::Scrolling => true,
            _ => false,
        }
    }

    /// Record the height read this iteration. Returns whether the page
    /// deserves the long heuristic wait: exactly when the height did not
    /// strictly grow. The height is recorded unconditionally, so stagnation
    /// is measured against the latest truth.
    pub fn observe_height(&mut self, h: i64) -> (long_wait: bool)
        requires
            old(self).phase is Scrolling,
            old(self).wf(),
        ensures
            final(self).wf(),
            long_wait == (h <= old(self).last_observed_height),
            final(self).last_observed_height == h,
            final(self).stable_iterations == if h <= old(self).last_observed_height {
                if old(self).stable_iterations == u64::MAX {
                    u64::MAX as int
                } else {
                    old(self).stable_iterations + 1
                }
            } else {
                0
            },
            final(self).iterations_run == old(self).iterations_run,
            final(self).max_iterations == old(self).max_iterations,
            final(self).phase == old(self).phase,
    {
        let long_wait = h <= self.last_observed_height;
        if long_wait {
            if self.stable_iterations < u64::MAX {
                self.stable_iterations = self.stable_iterations + 1;
            }
        } else {
            self.stable_iterations = 0;
        }
        self.last_observed_height = h;
        long_wait
    }

    /// Close one iteration: decide on the sentinel text, then enforce the
    /// cap. `Done` exactly when the sentinel text was found and contains the
    /// stop phrase; otherwise `Failed` exactly when the cap is reached.
    pub fn finish_iteration(&mut self, sentinel_text: Option<&str>, stop_text: &str)
        requires
            old(self).phase is Scrolling,
            old(self).wf(),
        ensures
            final(self).wf(),
            final(self).iterations_run == old(self).iterations_run + 1,
            final(self).last_observed_height == old(self).last_observed_height,
            final(self).stable_iterations == old(self).stable_iterations,
            final(self).max_iterations == old(self).max_iterations,
            final(self).phase == (match sentinel_text {
                Some(t) if spec_contains(t@, stop_text@) => DriverPhase::Done,
                _ => {
                    if old(self).iterations_run + 1 >= old(self).max_iterations {
                        DriverPhase::Failed
                    } else {
                        DriverPhase::Scrolling
                    }
                },
            }),
    {
        self.iterations_run = self.iterations_run + 1;
        let matched = match sentinel_text {
            Some(t) => contains_str(t, stop_text),
            None => false,
        };
        if matched {
            self.phase = DriverPhase::Done;
        } else if self.iterations_run >= self.max_iterations {
            self.phase = DriverPhase::Failed;
        }
    }
}

/// The state a fresh driver starts from, as `new` builds it.
pub open spec fn spec_initial(max_iterations: u64) -> ScrollState {
    ScrollState {
        last_observed_height: 0,
        stable_iterations: 0,
        iterations_run: 0,
        max_iterations,
        phase: if max_iterations == 0 {
            DriverPhase::Failed
        } else {
            DriverPhase::Scrolling
        },
    }
}

/// A sentinel read contains the stop phrase.
pub open spec fn sentinel_matches(sentinel: Option<Seq<char>>, stop: Seq<char>) -> bool {
    match sentinel {
        Some(t) => spec_contains(t, stop),
        None => false,
    }
}

/// One driver iteration over scripted inputs: the height observation, then
/// the sentinel decision, as `observe_height` followed by `finish_iteration`
/// leaves the state.
pub open spec fn spec_step(s: ScrollState, h: i64, sentinel: Option<Seq<char>>, stop: Seq<char>)
    -> ScrollState
    recommends
        s.wf(),
        s.phase is Scrolling,
{
    ScrollState {
        last_observed_height: h,
        stable_iterations: if h <= s.last_observed_height {
            if s.stable_iterations == u64::MAX {
                u64::MAX
            } else {
                (s.stable_iterations + 1) as u64
            }
        } else {
            0
        },
        iterations_run: (s.iterations_run + 1) as u64,
        max_iterations: s.max_iterations,
        phase: if sentinel_matches(sentinel, stop) {
            DriverPhase::Done
        } else if s.iterations_run + 1 >= s.max_iterations {
            DriverPhase::Failed
        } else {
            DriverPhase::Scrolling
        },
    }
}

/// The text views of scripted sentinel reads.
pub open spec fn opt_views(v: Seq<Option<String>>) -> Seq<Option<Seq<char>>> {
    v.map_values(
        |o: Option<String>|
            match o {
                Some(t) => Some(t@),
                None => None,
            },
    )
}

/// The driver state after the script from entry `i` on: one `spec_step` per
/// entry, stopping as soon as the driver leaves `Scrolling`.
pub open spec fn spec_run(
    s: ScrollState,
    heights: Seq<i64>,
    sentinels: Seq<Option<Seq<char>>>,
    stop: Seq<char>,
    i: int,
) -> ScrollState
    decreases heights.len() - i,
{
    if i < 0 || i >= heights.len() || !(s.phase is Scrolling) {
        s
    } else {
        spec_run(spec_step(s, heights[i], sentinels[i], stop), heights, sentinels, stop, i + 1)
    }
}

/// Drive a whole scripted run, one iteration per script entry, stopping on
/// the driver's own verdict; the height read and the sentinel read of each
/// iteration come from the script, as a fake collaborator would hand them
/// back. The result is exactly the fold of the step relation over the
/// script, and with a script at least as long as the cap the driver never
/// leaves the run scrolling.
pub fn run_scripted(
    heights: &Vec<i64>,
    sentinels: &Vec<Option<String>>,
    stop_text: &str,
    max_iterations: u64,
) -> (s: ScrollState)
    requires
        heights@.len() == sentinels@.len(),
    ensures
        s == spec_run(
            spec_initial(max_iterations),
            heights@,
            opt_views(sentinels@),
            stop_text@,
            0,
        ),
        s.wf(),
        heights@.len() >= max_iterations ==> !(s.phase is Scrolling),
{
    let ghost init = spec_initial(max_iterations);
    let ghost osent = opt_views(sentinels@);
    let mut state = ScrollState::new(max_iterations);
    let mut i: usize = 0;
    while i < heights.len() && state.active()
        invariant
            heights@.len() == sentinels@.len(),
            i <= heights@.len(),
            state.wf(),
            state.max_iterations == max_iterations,
            state.phase is Scrolling ==> state.iterations_run == i,
            osent == opt_views(sentinels@),
            spec_run(state, heights@, osent, stop_text@, i as int) == spec_run(
                init,
                heights@,
                osent,
                stop_text@,
                0,
            ),
        decreases heights@.len() - i,
    {
        let ghost pre = state;
        let _ = state.observe_height(heights[i]);
        let sentinel = match &sentinels[i] {
            Some(t) => Some(t.as_str()),
            None => None,
        };
        state.finish_iteration(sentinel, stop_text);
        proof {
            assert(osent[i as int] == match sentinels@[i as int] {
                Some(t) => Some(t@),
                None => None,
            });
            assert(state == spec_step(pre, heights@[i as int], osent[i as int], stop_text@));
        }
        i += 1;
    }
    state
}

/// No scripted sentinel read from entry `i` on contains the stop phrase.
pub open spec fn no_sentinel_match(
    sentinels: Seq<Option<Seq<char>>>,
    stop: Seq<char>,
    i: int,
) -> bool {
    forall|k: int| i <= k < sentinels.len() ==> !sentinel_matches(#[trigger] sentinels[k], stop)
}

/// A scrolling driver with no sentinel match ahead, and at least as many
/// script entries left as iterations below the cap, ends `Failed` with
/// exactly the cap many iterations run.
pub proof fn lemma_spec_run_fails(
    s: ScrollState,
    heights: Seq<i64>,
    sentinels: Seq<Option<Seq<char>>>,
    stop: Seq<char>,
    i: int,
)
    requires
        s.wf(),
        s.phase is Scrolling,
        heights.len() == sentinels.len(),
        no_sentinel_match(sentinels, stop, i),
        0 <= i,
        heights.len() - i >= s.max_iterations - s.iterations_run,
    ensures
        spec_run(s, heights, sentinels, stop, i).phase is Failed,
        spec_run(s, heights, sentinels, stop, i).iterations_run == s.max_iterations,
    decreases heights.len() - i,
{
    let s2 = spec_step(s, heights[i], sentinels[i], stop);
    if s2.phase is Scrolling {
        lemma_spec_run_fails(s2, heights, sentinels, stop, i + 1);
    }
}

/// The bounded-driver law: when the feed height never grows past the
/// sentinel's appearance -- indeed whatever the heights -- and no sentinel
/// read ever contains the stop phrase, a run over a script at least as long
/// as the cap terminates in `Failed`, after exactly the configured cap of
/// iterations (at once, for a cap of zero).
pub proof fn lemma_run_fails_at_cap(
    heights: Seq<i64>,
    sentinels: Seq<Option<Seq<char>>>,
    stop: Seq<char>,
    max_iterations: u64,
)
    requires
        heights.len() == sentinels.len(),
        heights.len() >= max_iterations,
        no_sentinel_match(sentinels, stop, 0),
    ensures
        spec_run(spec_initial(max_iterations), heights, sentinels, stop, 0).phase is Failed,
        spec_run(spec_initial(max_iterations), heights, sentinels, stop, 0).iterations_run
            == max_iterations,
{
    if max_iterations > 0 {
        lemma_spec_run_fails(spec_initial(max_iterations), heights, sentinels, stop, 0);
    }
}

/// While the driver still scrolls, fewer iterations than the cap have run:
/// with `finish_iteration` adding one per iteration, a bounded driver stops,
/// at the latest in `Failed`, after at most the configured cap.
pub proof fn lemma_iterations_bounded(s: ScrollState)
    requires
        s.wf(),
        s.phase is Scrolling,
    ensures
        s.iterations_run < s.max_iterations,
{
}

} // verus!
