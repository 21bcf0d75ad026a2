use hunt_bot::hunt4::context::HuntContext;
use hunt_bot::time::{Duration, Instant};

/// A moment with time before and after it.
fn start() -> Instant {
    Instant::from_nanos(1_000_000_000_000_000)
}

#[test]
fn report_carries_observed_position_and_target_progress() {
    let now = start();
    let mut ctx = HuntContext::new(now);
    ctx.memory.last_position_change = Some(now - Duration::from_secs(2));
    ctx.last_target_progress = Some(now - Duration::from_millis(500));

    let report = ctx.report();

    assert_eq!(
        report.last_position_change,
        Some(now - Duration::from_secs(2))
    );
    assert_eq!(
        report.last_target_progress,
        Some(now - Duration::from_millis(500))
    );
}
