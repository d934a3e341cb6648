use vstd::prelude::*;

verus! {

/// What the scene reported for the ray that a path traced last.
#[derive(Clone, Copy, Debug, PartialEq, Eq, Structural)]
pub enum PathEvent {
    /// The ray hit nothing: the sky is seen along it.
    Missed,
    /// The ray hit a surface whose material absorbed it.
    Absorbed,
    /// The ray hit a surface whose material sent a new ray on.
    Scattered,
}

/// How a finished path is shaded.
#[derive(Clone, Copy, Debug, PartialEq, Eq, Structural)]
pub enum PathShade {
    /// No light reaches the camera along the path.
    Black,
    /// The sky gradient, seen along the last ray and weighted by the
    /// attenuations gathered on the way.
    Sky,
}

/// The state of one camera path in the radiance estimator.
///
/// `Tracing { depth }` asks for the current ray to be traced, with `depth`
/// the number of rays that the path may still trace, this one included.
#[derive(Clone, Copy, Debug, PartialEq, Eq, Structural)]
pub enum PathState {
    Tracing { depth: u8 },
    Done { shade: PathShade },
}

/// The state of a path that may still trace `depth` rays.
pub open spec fn at_depth(depth: nat) -> PathState {
    if depth == 0 {
        PathState::Done { shade: PathShade::Black }
    } else {
        PathState::Tracing { depth: depth as u8 }
    }
}

/// One step of the estimator: a finished path stays as it is, an exhausted
/// depth is black, a miss shows the sky, an absorption is black, and a
/// scattered ray is traced with one ray fewer left.
pub open spec fn step(s: PathState, event: PathEvent) -> PathState {
    match s {
        PathState::Done { .. } => s,
        PathState::Tracing { depth } => {
            if depth == 0 {
                PathState::Done { shade: PathShade::Black }
            } else {
                match event {
                    PathEvent::Missed => PathState::Done { shade: PathShade::Sky },
                    PathEvent::Absorbed => PathState::Done { shade: PathShade::Black },
                    PathEvent::Scattered => at_depth((depth - 1) as nat),
                }
            }
        },
    }
}

/// The state reached from `s` after the scene reported `events`, in order.
pub open spec fn run(s: PathState, events: Seq<PathEvent>) -> PathState
    decreases events.len(),
{
    if events.len() == 0 {
        s
    } else {
        run(step(s, events[0]), events.drop_first())
    }
}

impl PathState {
    /// The state of a path that starts with `max_depth` rays to trace.
    pub fn start(max_depth: u8) -> (s: PathState)
        ensures
            s == at_depth(max_depth as nat),
    {
        if max_depth == 0 {
            PathState::Done { shade: PathShade::Black }
        } else {
            PathState::Tracing { depth: max_depth }
        }
    }

    /// Whether the path has finished.
    pub fn is_done(&self) -> (r: bool)
        ensures
            r == (*self is Done),
    {
        match self {
            PathState::Done { .. } => true,
            PathState::Tracing { .. } => false,
        }
    }

    /// The state after the scene reported `event` for the current ray.
    pub fn advance(self, event: PathEvent) -> (s: PathState)
        ensures
            s == step(self, event),
    {
        match self {
            PathState::Done { .. } => self,
            PathState::Tracing { depth } => {
                if depth == 0 {
                    PathState::Done { shade: PathShade::Black }
                } else {
                    match event {
                        PathEvent::Missed => PathState::Done { shade: PathShade::Sky },
                        PathEvent::Absorbed => PathState::Done { shade: PathShade::Black },
                        PathEvent::Scattered => PathState::start(depth - 1),
                    }
                }
            },
        }
    }
}

/// A finished path stays finished, whatever the scene reports next.
pub proof fn lemma_done_is_final(shade: PathShade, events: Seq<PathEvent>)
    ensures
        run(PathState::Done { shade }, events) == (PathState::Done { shade }),
    decreases events.len(),
{
    if events.len() > 0 {
        lemma_done_is_final(shade, events.drop_first());
    }
}

/// A path started with no depth left is black, for every ray and every scene.
pub proof fn lemma_depth_zero_is_black(events: Seq<PathEvent>)
    ensures
        run(at_depth(0), events) == (PathState::Done { shade: PathShade::Black }),
{
    lemma_done_is_final(PathShade::Black, events);
}

/// A path started with `max_depth` rays to trace has finished once the
/// scene has reported `max_depth` events: the estimator never traces more
/// rays than its depth allows.
pub proof fn lemma_path_ends_within_depth(max_depth: u8, events: Seq<PathEvent>)
    requires
        events.len() >= max_depth,
    ensures
        run(at_depth(max_depth as nat), events) is Done,
    decreases events.len(),
{
    if max_depth == 0 {
        lemma_done_is_final(PathShade::Black, events);
    } else {
        let next = step(at_depth(max_depth as nat), events[0]);
        match next {
            PathState::Done { shade } => {
                lemma_done_is_final(shade, events.drop_first());
            },
            PathState::Tracing { depth } => {
                lemma_path_ends_within_depth((max_depth - 1) as u8, events.drop_first());
            },
        }
    }
}

/// Whether the scene reported `k` scatters in a row and then a miss.
pub open spec fn misses_after_scatters(events: Seq<PathEvent>, k: int) -> bool {
    &&& 0 <= k < events.len()
    &&& forall|i: int| 0 <= i < k ==> events[i] == PathEvent::Scattered
    &&& events[k] == PathEvent::Missed
}

/// A path started with `max_depth` rays to trace shows the sky exactly when
/// the scene reports fewer than `max_depth` scatters in a row and then a
/// miss; every other finished path is black.
pub proof fn lemma_sky_iff_miss_within_depth(max_depth: u8, events: Seq<PathEvent>)
    ensures
        run(at_depth(max_depth as nat), events) == (PathState::Done { shade: PathShade::Sky })
            <==> exists|k: int| k < max_depth && misses_after_scatters(events, k),
    decreases max_depth,
{
    let s = at_depth(max_depth as nat);
    if max_depth == 0 {
        lemma_done_is_final(PathShade::Black, events);
    } else if events.len() == 0 {
    } else {
        let rest = events.drop_first();
        match events[0] {
            PathEvent::Missed => {
                lemma_done_is_final(PathShade::Sky, rest);
                assert(misses_after_scatters(events, 0));
            },
            PathEvent::Absorbed => {
                lemma_done_is_final(PathShade::Black, rest);
                assert forall|k: int| k < max_depth implies !misses_after_scatters(events, k) by {
                    if k > 0 && misses_after_scatters(events, k) {
                        assert(events[0] == PathEvent::Scattered);
                    }
                }
            },
            PathEvent::Scattered => {
                let d = (max_depth - 1) as u8;
                assert(step(s, events[0]) == at_depth(d as nat));
                lemma_sky_iff_miss_within_depth(d, rest);
                if exists|k: int| k < d && misses_after_scatters(rest, k) {
                    let k = choose|k: int| k < d && misses_after_scatters(rest, k);
                    assert forall|i: int| 0 <= i < k + 1 implies events[i] == PathEvent::Scattered by {
                        if i > 0 {
                            assert(events[i] == rest[i - 1]);
                        }
                    }
                    assert(misses_after_scatters(events, k + 1));
                }
                if exists|k: int| k < max_depth && misses_after_scatters(events, k) {
                    let k = choose|k: int| k < max_depth && misses_after_scatters(events, k);
                    assert(k != 0);
                    assert forall|i: int| 0 <= i < k - 1 implies rest[i] == PathEvent::Scattered by {
                        assert(rest[i] == events[i + 1]);
                    }
                    assert(misses_after_scatters(rest, k - 1));
                }
            },
        }
    }
}

} // verus!
