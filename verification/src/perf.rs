//! Per-frame timing figures kept for the debug overlay and the throttled log.

use vstd::prelude::*;

verus! {

/// Nanoseconds in a second.
pub const NANOS_PER_SEC: u64 = 1_000_000_000;

/// The largest span, in nanoseconds: `u64::MAX` seconds and 999_999_999
/// nanoseconds.
pub open spec fn max_span_nanos() -> int {
    (u64::MAX as int + 1) * (NANOS_PER_SEC as int) - 1
}

/// A length of time in whole seconds and nanoseconds, like
/// `std::time::Duration`.
#[derive(Clone, Copy, Debug, PartialEq, Eq, Structural)]
pub struct TimeSpan {
    secs: u64,
    nanos: u32,
}

impl TimeSpan {
    /// The nanoseconds part is below one second.
    pub open spec fn wf(&self) -> bool {
        self.spec_subsec_nanos() < NANOS_PER_SEC
    }

    pub closed spec fn spec_secs(&self) -> u64 {
        self.secs
    }

    pub closed spec fn spec_subsec_nanos(&self) -> u32 {
        self.nanos
    }

    /// The whole length in nanoseconds.
    pub open spec fn total_nanos(&self) -> int {
        self.spec_secs() * (NANOS_PER_SEC as int) + self.spec_subsec_nanos()
    }

    pub fn zero() -> (r: Self)
        ensures
            r.wf(),
            r.total_nanos() == 0,
    {
        TimeSpan { secs: 0, nanos: 0 }
    }

    /// A span of whole seconds and extra nanoseconds (carried into seconds).
    pub fn new(secs: u64, nanos: u32) -> (r: Self)
        requires
            secs * (NANOS_PER_SEC as int) + nanos <= max_span_nanos(),
        ensures
            r.wf(),
            r.total_nanos() == secs * (NANOS_PER_SEC as int) + nanos,
    {
        let extra = (nanos / 1_000_000_000) as u64;
        let rest = nanos % 1_000_000_000;
        proof {
            assert(extra <= 4);
            assert(secs * 1_000_000_000 + nanos == (secs + extra) * 1_000_000_000 + rest) by (nonlinear_arith)
                requires
                    extra == nanos / 1_000_000_000,
                    rest == nanos % 1_000_000_000,
            ;
            assert(secs + extra <= u64::MAX) by (nonlinear_arith)
                requires
                    secs * 1_000_000_000 + nanos <= (u64::MAX as int + 1) * 1_000_000_000 - 1,
                    secs * 1_000_000_000 + nanos == (secs + extra) * 1_000_000_000 + rest,
                    rest >= 0,
            ;
        }
        TimeSpan { secs: secs + extra, nanos: rest }
    }

    /// A span of whole milliseconds.
    pub fn from_millis(millis: u64) -> (r: Self)
        ensures
            r.wf(),
            r.total_nanos() == millis * 1_000_000,
    {
        let secs = millis / 1000;
        let ms = millis % 1000;
        let nanos = (ms * 1_000_000) as u32;
        proof {
            assert(secs * 1_000_000_000 + ms * 1_000_000 == millis * 1_000_000) by (nonlinear_arith)
                requires
                    secs == millis / 1000,
                    ms == millis % 1000,
            ;
        }
        TimeSpan { secs, nanos }
    }

    pub fn as_secs(&self) -> (r: u64)
        ensures
            r == self.spec_secs(),
    {
        self.secs
    }

    pub fn subsec_nanos(&self) -> (r: u32)
        ensures
            r == self.spec_subsec_nanos(),
    {
        self.nanos
    }

    pub fn as_nanos(&self) -> (r: u128)
        requires
            self.wf(),
        ensures
            r == self.total_nanos(),
    {
        proof {
            assert(self.secs * 1_000_000_000 + self.nanos < 0x1_0000_0000_0000_0000_0000_0000_0000_0000) by (nonlinear_arith)
                requires
                    self.secs <= u64::MAX,
                    self.nanos < 1_000_000_000,
            ;
        }
        (self.secs as u128) * 1_000_000_000 + (self.nanos as u128)
    }

    /// The sum of two spans, or `None` when it exceeds the largest span.
    pub fn checked_add(&self, other: &TimeSpan) -> (r: Option<TimeSpan>)
        requires
            self.wf(),
            other.wf(),
        ensures
            match r {
                Some(s) => s.wf() && s.total_nanos() == self.total_nanos() + other.total_nanos(),
                None => self.total_nanos() + other.total_nanos() > max_span_nanos(),
            },
    {
        let secs = match self.secs.checked_add(other.secs) {
            Some(s) => s,
            None => {
                proof {
                    assert(self.secs * 1_000_000_000 + self.nanos + other.secs * 1_000_000_000 + other.nanos
                        > (u64::MAX as int + 1) * 1_000_000_000 - 1) by (nonlinear_arith)
                        requires
                            self.secs + other.secs > u64::MAX,
                            self.nanos >= 0,
                            other.nanos >= 0,
                    ;
                }
                return None;
            },
        };
        let nanos = self.nanos + other.nanos;
        if nanos >= 1_000_000_000 {
            match secs.checked_add(1) {
                Some(s) => {
                    let r = TimeSpan { secs: s, nanos: nanos - 1_000_000_000 };
                    proof {
                        assert(s * 1_000_000_000 + (nanos - 1_000_000_000) == secs * 1_000_000_000 + nanos) by (nonlinear_arith)
                            requires
                                s == secs + 1,
                        ;
                        assert(secs * 1_000_000_000 == self.secs * 1_000_000_000 + other.secs * 1_000_000_000) by (nonlinear_arith)
                            requires
                                secs == self.secs + other.secs,
                        ;
                    }
                    Some(r)
                },
                None => {
                    proof {
                        assert(secs * 1_000_000_000 + nanos > (u64::MAX as int + 1) * 1_000_000_000 - 1) by (nonlinear_arith)
                            requires
                                secs == u64::MAX,
                                nanos >= 1_000_000_000,
                        ;
                        assert(secs * 1_000_000_000 == self.secs * 1_000_000_000 + other.secs * 1_000_000_000) by (nonlinear_arith)
                            requires
                                secs == self.secs + other.secs,
                        ;
                    }
                    None
                },
            }
        } else {
            proof {
                assert(secs * 1_000_000_000 == self.secs * 1_000_000_000 + other.secs * 1_000_000_000) by (nonlinear_arith)
                    requires
                        secs == self.secs + other.secs,
                ;
            }
            Some(TimeSpan { secs, nanos })
        }
    }

    /// The sum of two spans; the sum must not exceed the largest span.
    pub fn add(&self, other: &TimeSpan) -> (r: TimeSpan)
        requires
            self.wf(),
            other.wf(),
            self.total_nanos() + other.total_nanos() <= max_span_nanos(),
        ensures
            r.wf(),
            r.total_nanos() == self.total_nanos() + other.total_nanos(),
    {
        match self.checked_add(other) {
            Some(s) => s,
            None => TimeSpan { secs: 0, nanos: 0 },
        }
    }

    /// Whether this span is at least as long as `other`.
    pub fn at_least(&self, other: &TimeSpan) -> (r: bool)
        requires
            self.wf(),
            other.wf(),
        ensures
            r == (self.total_nanos() >= other.total_nanos()),
    {
        proof {
            lemma_span_order(*self, *other);
        }
        self.secs > other.secs || (self.secs == other.secs && self.nanos >= other.nanos)
    }
}

/// Spans compare by seconds first, then by nanoseconds.
proof fn lemma_span_order(a: TimeSpan, b: TimeSpan)
    requires
        a.wf(),
        b.wf(),
    ensures
        (a.total_nanos() >= b.total_nanos()) == (a.spec_secs() > b.spec_secs() || (a.spec_secs() == b.spec_secs()
            && a.spec_subsec_nanos() >= b.spec_subsec_nanos())),
{
    let (sa, na, sb, nb) = (a.spec_secs() as int, a.spec_subsec_nanos() as int, b.spec_secs() as int, b.spec_subsec_nanos() as int);
    assert((sa * 1_000_000_000 + na >= sb * 1_000_000_000 + nb) == (sa > sb || (sa == sb && na >= nb))) by (nonlinear_arith)
        requires
            0 <= na < 1_000_000_000,
            0 <= nb < 1_000_000_000,
            sa >= 0,
            sb >= 0,
    ;
}

/// The timings of one frame.
#[derive(Clone, Copy, Debug, PartialEq, Eq, Structural)]
pub struct FrameTimings {
    pub styles: TimeSpan,
    pub layout_children: TimeSpan,
    pub layout: TimeSpan,
    pub hit_tree: TimeSpan,
    pub paint: TimeSpan,
    pub node_count: usize,
}

impl FrameTimings {
    pub open spec fn wf(&self) -> bool {
        self.styles.wf() && self.layout_children.wf() && self.layout.wf() && self.hit_tree.wf() && self.paint.wf()
    }

    /// The sum of the five phases, in nanoseconds.
    pub open spec fn spec_total_nanos(&self) -> int {
        self.styles.total_nanos() + self.layout_children.total_nanos() + self.layout.total_nanos()
            + self.hit_tree.total_nanos() + self.paint.total_nanos()
    }

    /// All phases zero, no nodes.
    pub fn zero() -> (r: Self)
        ensures
            r.wf(),
            r.spec_total_nanos() == 0,
            r.node_count == 0,
    {
        FrameTimings {
            styles: TimeSpan::zero(),
            layout_children: TimeSpan::zero(),
            layout: TimeSpan::zero(),
            hit_tree: TimeSpan::zero(),
            paint: TimeSpan::zero(),
            node_count: 0,
        }
    }

    /// The whole frame: styles + children + layout + hit tree + paint. The
    /// sum must not exceed the largest span.
    pub fn total(&self) -> (r: TimeSpan)
        requires
            self.wf(),
            self.spec_total_nanos() <= max_span_nanos(),
        ensures
            r.wf(),
            r.total_nanos() == self.spec_total_nanos(),
    {
        let a = self.styles.add(&self.layout_children);
        let b = a.add(&self.layout);
        let c = b.add(&self.hit_tree);
        c.add(&self.paint)
    }
}

impl Default for FrameTimings {
    fn default() -> (r: Self)
        ensures
            r.wf(),
            r.spec_total_nanos() == 0,
            r.node_count == 0,
    {
        FrameTimings::zero()
    }
}

/// Stores a frame's layout-pass timings as the latest ones (paint is
/// recorded separately, after the scene is built).
pub fn record_layout_passes(latest: &mut FrameTimings, timings: FrameTimings)
    ensures
        *final(latest) == timings,
{
    *latest = timings;
}

/// Fills in the paint time of the latest frame and returns the completed
/// timings (which the caller logs, throttled).
pub fn record_paint(latest: &mut FrameTimings, paint: TimeSpan) -> (r: FrameTimings)
    ensures
        *final(latest) == (FrameTimings { paint, ..*old(latest) }),
        r == *final(latest),
{
    latest.paint = paint;
    *latest
}

/// The latest recorded timings, or zero timings when they cannot be read.
pub fn latest(recorded: Option<&FrameTimings>) -> (r: FrameTimings)
    ensures
        match recorded {
            Some(t) => r == *t,
            None => r.wf() && r.spec_total_nanos() == 0 && r.node_count == 0,
        },
{
    match recorded {
        Some(t) => *t,
        None => FrameTimings::zero(),
    }
}

/// The timing log is written at most every 500 ms: it is due when nothing
/// was logged yet or when at least that long has passed since.
pub fn log_due(since_last: Option<TimeSpan>) -> (r: bool)
    requires
        since_last matches Some(s) ==> s.wf(),
    ensures
        r == match since_last {
            None => true,
            Some(s) => s.total_nanos() >= 500_000_000,
        },
{
    match since_last {
        None => true,
        Some(s) => s.at_least(&TimeSpan::from_millis(500)),
    }
}

} // verus!
