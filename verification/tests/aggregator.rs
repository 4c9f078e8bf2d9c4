use mouse_rate_checker::aggregator::RateAggregator;
use mouse_rate_checker::event::InstantWrap;

const MS: u64 = 1_000_000;

#[test]
fn tick_appends_trims_and_samples() {
    let mut agg = RateAggregator::new();
    let drained: Vec<InstantWrap> = [0, 100, 250, 900, 1100]
        .iter()
        .map(|&t| InstantWrap(t * MS))
        .collect();
    let rate = agg.tick(&drained, InstantWrap(1100 * MS), true, true);
    // The 0 ms entry is older than one second at 1100 ms: rate is 4.
    assert_eq!(rate, 4);
    assert_eq!(agg.current_rate(), 4);
    assert_eq!(agg.history(), &vec![4]);
}

#[test]
fn tick_with_nothing_drained_still_shrinks_the_window() {
    let mut agg = RateAggregator::new();
    let drained: Vec<InstantWrap> = vec![InstantWrap(100 * MS), InstantWrap(200 * MS)];
    assert_eq!(agg.tick(&drained, InstantWrap(300 * MS), false, false), 2);
    let empty: Vec<InstantWrap> = Vec::new();
    assert_eq!(agg.tick(&empty, InstantWrap(1150 * MS), false, false), 1);
    assert_eq!(agg.tick(&empty, InstantWrap(2000 * MS), false, false), 0);
}

#[test]
fn disengaged_ticks_leave_ring_and_log_alone() {
    let mut agg = RateAggregator::new();
    let drained = vec![InstantWrap(100 * MS)];
    agg.tick(&drained, InstantWrap(200 * MS), false, true);
    assert_eq!(agg.trailing_average(), 0);
    assert!(agg.history().is_empty());
}

#[test]
fn engaged_ticks_feed_the_trailing_average() {
    let mut agg = RateAggregator::new();
    // Ten engaged ticks, each with five events inside the window.
    let mut now = 0u64;
    for _ in 0..10 {
        let drained: Vec<InstantWrap> = (0..5).map(|k| InstantWrap(now + k)).collect();
        now += 5;
        let rate = agg.tick(&drained, InstantWrap(now), true, false);
        assert_eq!(rate, now as usize);
    }
    // All events still sit inside the first second, so the samples were
    // 5, 10, ..., 50 and the average is their tenth.
    assert_eq!(agg.trailing_average(), (5 + 10 + 15 + 20 + 25 + 30 + 35 + 40 + 45 + 50) / 10);
    assert!(agg.history().is_empty());
}

#[test]
fn engaged_shown_ticks_log_each_sample() {
    let mut agg = RateAggregator::new();
    agg.tick(&vec![InstantWrap(1)], InstantWrap(2), true, true);
    agg.tick(&vec![InstantWrap(3)], InstantWrap(4), true, true);
    assert_eq!(agg.history(), &vec![1, 2]);
}
