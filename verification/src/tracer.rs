//! The trace ledger: an ordered, append-only log of timestamped gas
//! consumption spans, owned by one execution context and moved out whole
//! when the context finishes.
//!
//! Recording is pure logging: it charges nothing and nothing in execution
//! may branch on the recorded times, which exist for diagnostics alone.
//! Durations are held as plain nanosecond counts.

use vstd::prelude::*;

use crate::types::{Cid, MethodNum};

verus! {

/// The recording points an execution context can pass through.
#[derive(Clone, Copy, PartialEq, Eq, Structural, Debug, Hash)]
pub enum Event {
    Started,
    EnterCall,
    PreSyscall,
    PostSyscall,
    PreExtern,
    PostExtern,
    ExitCall,
    Finished,
}

/// The location from which a span was emitted.
#[derive(Debug)]
pub struct Point {
    pub event: Event,
    /// Free-text annotation.
    pub label: String,
}

/// Resource figures at the moment of a span.  Each figure is optional: a
/// recording point may have no access to it, and `None` is distinct from a
/// recorded zero.
#[derive(Clone, Copy, PartialEq, Eq, Debug)]
pub struct Consumption {
    /// Sandbox fuel consumed up to this point, if known.
    pub fuel_consumed: Option<u64>,
    /// Gas consumed up to this point, if known.
    pub gas_consumed: Option<i64>,
}

impl Default for Consumption {
    /// No figure was available.
    fn default() -> (r: Consumption)
        ensures
            r.fuel_consumed is None,
            r.gas_consumed is None,
    {
        Consumption { fuel_consumed: None, gas_consumed: None }
    }
}

/// Timing of a span, in nanoseconds.
#[derive(Clone, Copy, PartialEq, Eq, Structural, Debug)]
pub struct Timing {
    /// Time elapsed since the trace was started: the running sum of the
    /// relative times of all spans recorded so far.
    pub elapsed_cum: u128,
    /// Time elapsed since the previous span was recorded, or since the
    /// trace was started for the first span.
    pub elapsed_rel: u64,
}

/// The source context a span annotates.
#[derive(Clone, Copy, PartialEq, Eq, Structural, Debug)]
pub struct Context {
    /// Code identifier of the actor executing at the recording point.
    pub code_cid: Cid,
    pub method_num: MethodNum,
}

impl Default for Context {
    /// The zero identifier and method 0, for spans recorded before any
    /// actor context is bound.
    fn default() -> (r: Context)
        ensures
            r.code_cid.value == 0,
            r.method_num == 0,
    {
        Context { code_cid: Cid { value: 0 }, method_num: 0 }
    }
}

/// One recorded consumption event.
#[derive(Debug)]
pub struct GasSpan {
    /// Context annotates the span with the source context.
    pub context: Context,
    /// The location from which the span was emitted.
    pub point: Point,
    /// The consumption at the moment of the span.
    pub consumption: Consumption,
    /// Timing information.
    pub timing: Timing,
}

/// The sum of the relative elapsed times of a span log.
pub open spec fn sum_rels(s: Seq<GasSpan>) -> int
    decreases s.len(),
{
    if s.len() == 0 {
        0
    } else {
        sum_rels(s.drop_last()) + s.last().timing.elapsed_rel
    }
}

/// The trace ledger.  Spans stand in strict insertion order; the log is
/// append-only and is handed off whole by `finish`.
#[derive(Debug)]
pub struct GasTrace {
    /// The clock reading taken when the previous span was recorded, or when
    /// the trace was started.
    pub previous: minstant::Instant,
    /// Nanoseconds elapsed over all recorded spans.
    pub cum: u128,
    /// The recorded spans, oldest first.
    pub spans: Vec<GasSpan>,
}

impl GasTrace {
    /// A trace is well formed when its running total equals the sum of the
    /// relative times of its spans, and each span's cumulative time is the
    /// sum of the relative times up to and including it.
    pub open spec fn wf(self) -> bool {
        &&& self.cum == sum_rels(self.spans@)
        &&& forall|i: int|
            0 <= i < self.spans@.len() ==> #[trigger] self.spans@[i].timing.elapsed_cum == sum_rels(
                self.spans@.take(i + 1),
            )
    }

    /// A new trace with an empty span log, zero cumulative elapsed time and
    /// a fresh reading of the monotonic clock.
    pub fn start() -> (r: GasTrace)
        ensures
            r.wf(),
            r.spans@.len() == 0,
            r.cum == 0,
    {
        GasTrace { previous: monotonic_now(), cum: 0, spans: Vec::new() }
    }

    /// Append a span whose relative elapsed time is `elapsed_rel`
    /// nanoseconds; the span's cumulative time extends the running sum.
    /// This is the whole effect of recording once the clock has been read.
    pub fn record_elapsed(
        &mut self,
        context: Context,
        point: Point,
        consumption: Consumption,
        elapsed_rel: u64,
    )
        requires
            old(self).wf(),
        ensures
            final(self).wf(),
            final(self).cum == old(self).cum + elapsed_rel,
            final(self).spans@ == old(self).spans@.push(
                (GasSpan {
                    context,
                    point,
                    consumption,
                    timing: (Timing {
                        elapsed_cum: (old(self).cum + elapsed_rel) as u128,
                        elapsed_rel,
                    }),
                }),
            ),
    {
        let n = self.spans.len();
        proof {
            lemma_sum_rels_bound(self.spans@);
            assert(self.cum + elapsed_rel < 0x100000000000000000000000000000000int)
                by (nonlinear_arith)
                requires
                    self.cum <= self.spans@.len() * 0xffffffffffffffffint,
                    self.spans@.len() <= 0xffffffffffffffffint,
                    elapsed_rel <= 0xffffffffffffffffint,
            ;
        }
        let cum = self.cum + (elapsed_rel as u128);
        let timing = Timing { elapsed_cum: cum, elapsed_rel };
        let span = GasSpan { context, point, consumption, timing };
        self.cum = cum;
        self.spans.push(span);
        proof {
            let s = old(self).spans@;
            let t = self.spans@;
            assert(t.drop_last() =~= s);
            assert(sum_rels(t) == sum_rels(s) + elapsed_rel);
            assert forall|i: int|
                0 <= i < t.len() implies #[trigger] t[i].timing.elapsed_cum == sum_rels(
                t.take(i + 1),
            ) by {
                if i < s.len() {
                    assert(t.take(i + 1) =~= s.take(i + 1));
                } else {
                    assert(t.take(i + 1) =~= t);
                }
            }
        }
    }

    /// Record a consumption event now: read the monotonic clock, compute the
    /// time elapsed since the previous recording, and append a span.  The
    /// appended span holds the given context, point and consumption; its
    /// cumulative time extends the running sum by whatever the clock showed.
    pub fn record(&mut self, context: Context, point: Point, consumption: Consumption)
        requires
            old(self).wf(),
        ensures
            final(self).wf(),
            final(self).spans@.len() == old(self).spans@.len() + 1,
            final(self).spans@.subrange(0, old(self).spans@.len() as int) == old(self).spans@,
            final(self).spans@.last().context == context,
            final(self).spans@.last().point == point,
            final(self).spans@.last().consumption == consumption,
            final(self).spans@.last().timing.elapsed_cum == old(self).cum
                + final(self).spans@.last().timing.elapsed_rel,
            final(self).cum == final(self).spans@.last().timing.elapsed_cum,
    {
        let now = monotonic_now();
        let nanos = nanos_between(&self.previous, &now);
        self.previous = now;
        let rel: u64 = if nanos > 0xffffffffffffffffu128 {
            0xffffffffffffffffu64
        } else {
            nanos as u64
        };
        let ghost before = self.spans@;
        self.record_elapsed(context, point, consumption, rel);
        proof {
            assert(self.spans@.subrange(0, before.len() as int) =~= before);
        }
    }

    /// Move the accumulated span log out; the trace is consumed and cannot
    /// record again.
    pub fn finish(self) -> (r: Vec<GasSpan>)
        ensures
            r@ == self.spans@,
    {
        self.spans
    }
}

proof fn lemma_sum_rels_bound(s: Seq<GasSpan>)
    ensures
        0 <= sum_rels(s) <= s.len() * 0xffffffffffffffffint,
    decreases s.len(),
{
    if s.len() > 0 {
        lemma_sum_rels_bound(s.drop_last());
    }
}

proof fn lemma_sum_rels_take_succ(s: Seq<GasSpan>, i: int)
    requires
        0 <= i < s.len(),
    ensures
        sum_rels(s.take(i + 1)) == sum_rels(s.take(i)) + s[i].timing.elapsed_rel,
{
    let t = s.take(i + 1);
    assert(t.drop_last() =~= s.take(i));
    assert(t.last() == s[i]);
}

proof fn lemma_sum_rels_take_mono(s: Seq<GasSpan>, i: int, j: int)
    requires
        0 <= i <= j <= s.len(),
    ensures
        sum_rels(s.take(i)) <= sum_rels(s.take(j)),
    decreases j - i,
{
    if i < j {
        lemma_sum_rels_take_mono(s, i, j - 1);
        lemma_sum_rels_take_succ(s, j - 1);
    }
}

/// Being a prefix of a span log is carried along extensions: the log is
/// append-only, so what was recorded once stays, in place and unchanged.
pub proof fn lemma_prefix_trans(a: Seq<GasSpan>, b: Seq<GasSpan>, c: Seq<GasSpan>)
    requires
        a.len() <= b.len() <= c.len(),
        b.subrange(0, a.len() as int) == a,
        c.subrange(0, b.len() as int) == b,
    ensures
        c.subrange(0, a.len() as int) == a,
{
    assert forall|i: int| 0 <= i < a.len() implies c[i] == a[i] by {
        assert(b.subrange(0, a.len() as int)[i] == b[i]);
        assert(c.subrange(0, b.len() as int)[i] == c[i]);
    }
    assert(c.subrange(0, a.len() as int) =~= a);
}

/// Law: in a well-formed trace, the cumulative elapsed time of span `i`
/// equals the sum of the relative elapsed times of spans `0..=i`, and the
/// cumulative times never decrease along the log.
pub proof fn lemma_cum_is_running_sum(t: GasTrace)
    requires
        t.wf(),
    ensures
        forall|i: int|
            0 <= i < t.spans@.len() ==> #[trigger] t.spans@[i].timing.elapsed_cum == sum_rels(
                t.spans@.take(i + 1),
            ),
        forall|i: int, j: int|
            0 <= i <= j < t.spans@.len() ==> #[trigger] t.spans@[i].timing.elapsed_cum
                <= #[trigger] t.spans@[j].timing.elapsed_cum,
{
    assert forall|i: int, j: int|
        0 <= i <= j < t.spans@.len() implies #[trigger] t.spans@[i].timing.elapsed_cum
        <= #[trigger] t.spans@[j].timing.elapsed_cum by {
        lemma_sum_rels_take_mono(t.spans@, i + 1, j + 1);
    }
}

#[verifier::external_type_specification]
#[verifier::external_body]
pub struct ExInstant(minstant::Instant);

/// Relies on minstant::Instant::now: a reading of the monotonic clock.
/// Nothing is assumed of the reading; elapsed times are taken between two
/// readings and observed for diagnostics alone.
#[verifier::external_body]
fn monotonic_now() -> minstant::Instant {
    minstant::Instant::now()
}

/// Relies on minstant::Instant::duration_since: the time from `earlier` to
/// `later` in nanoseconds, zero when `earlier` is the later reading.
/// Nothing is assumed of the value.
#[verifier::external_body]
fn nanos_between(earlier: &minstant::Instant, later: &minstant::Instant) -> u128 {
    later.duration_since(*earlier).as_nanos()
}

} // verus!
