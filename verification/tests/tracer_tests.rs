//! Tests of the trace ledger: running sums, ordering, and the move-out
//! finish.

use fvm::tracer::{Consumption, Context, Event, GasTrace, Point};
use fvm::types::Cid;

fn point(event: Event) -> Point {
    Point { event, label: String::new() }
}

fn no_consumption() -> Consumption {
    Consumption { fuel_consumed: None, gas_consumed: None }
}

#[test]
fn cum_is_running_sum_of_rels() {
    let mut trace = GasTrace::start();
    let ctx = Context { code_cid: Cid { value: 7 }, method_num: 3 };
    trace.record_elapsed(ctx, point(Event::Started), no_consumption(), 5);
    trace.record_elapsed(ctx, point(Event::PreSyscall), no_consumption(), 11);
    trace.record_elapsed(ctx, point(Event::Finished), no_consumption(), 0);
    let spans = trace.finish();
    assert_eq!(spans.len(), 3);
    assert_eq!(spans[0].timing.elapsed_rel, 5);
    assert_eq!(spans[0].timing.elapsed_cum, 5);
    assert_eq!(spans[1].timing.elapsed_rel, 11);
    assert_eq!(spans[1].timing.elapsed_cum, 16);
    assert_eq!(spans[2].timing.elapsed_rel, 0);
    assert_eq!(spans[2].timing.elapsed_cum, 16);
}

#[test]
fn two_records_a_second_apart() {
    // two recordings whose clock readings lie 1000 ms apart: the first span
    // has no elapsed time, the second shows the full second, relatively and
    // cumulatively
    let mut trace = GasTrace::start();
    let ctx = Context { code_cid: Cid { value: 0 }, method_num: 0 };
    trace.record_elapsed(ctx, point(Event::Started), no_consumption(), 0);
    trace.record_elapsed(ctx, point(Event::Started), no_consumption(), 1_000_000_000);
    let spans = trace.finish();
    assert_eq!(spans.len(), 2);
    assert_eq!(spans[0].timing.elapsed_rel, 0);
    assert_eq!(spans[0].timing.elapsed_cum, 0);
    assert_eq!(spans[1].timing.elapsed_rel, 1_000_000_000);
    assert_eq!(spans[1].timing.elapsed_cum, 1_000_000_000);
}

#[test]
fn live_clock_records_in_order() {
    let mut trace = GasTrace::start();
    let ctx = Context::default();
    trace.record(
        ctx,
        point(Event::Started),
        Consumption { fuel_consumed: Some(1), gas_consumed: Some(2) },
    );
    trace.record(ctx, point(Event::Finished), no_consumption());
    let spans = trace.finish();
    assert_eq!(spans.len(), 2);
    assert!(matches!(spans[0].point.event, Event::Started));
    assert!(matches!(spans[1].point.event, Event::Finished));
    assert_eq!(spans[0].consumption.fuel_consumed, Some(1));
    assert_eq!(spans[0].consumption.gas_consumed, Some(2));
    assert!(spans[0].timing.elapsed_cum <= spans[1].timing.elapsed_cum);
}

#[test]
fn default_context_and_consumption_are_unset() {
    let ctx = Context::default();
    assert_eq!(ctx.code_cid, Cid { value: 0 });
    assert_eq!(ctx.method_num, 0);
    let c = Consumption::default();
    assert_eq!(c.fuel_consumed, None);
    assert_eq!(c.gas_consumed, None);
}
