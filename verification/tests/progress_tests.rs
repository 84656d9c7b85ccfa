use rzstd::aggregate::{Aggregator, PollAction};
use rzstd::Progress;
use tokio::sync::broadcast;

#[test]
fn progress_counter_is_cumulative_and_published() {
    let (tx, mut rx) = broadcast::channel::<usize>(1);
    let mut p = Progress::new(tx);
    assert_eq!(p.bytes_read(), 0);
    p.record_read(3);
    assert_eq!(p.bytes_read(), 3);
    assert_eq!(rx.try_recv().unwrap(), 3);
    p.record_read(4);
    assert_eq!(p.bytes_read(), 7);
    assert_eq!(rx.try_recv().unwrap(), 7);
    p.record_read(0);
    assert_eq!(p.bytes_read(), 7);
}

#[test]
fn progress_counter_saturates_instead_of_wrapping() {
    let (tx, _rx) = broadcast::channel::<usize>(1);
    let mut p = Progress::new(tx);
    p.record_read(usize::MAX);
    p.record_read(5);
    assert_eq!(p.bytes_read(), usize::MAX);
}

#[test]
fn aggregator_reports_monotonically_and_finishes_at_total() {
    let (ttx, trx) = broadcast::channel::<usize>(1);
    let (ptx, prx) = broadcast::channel::<usize>(1);
    let mut agg = Aggregator::new(vec![trx], vec![prx]);

    // No total yet: nothing to report.
    assert_eq!(agg.poll(), PollAction::Quiet);

    ttx.send(200).unwrap();
    ptx.send(50).unwrap();
    assert_eq!(agg.poll(), PollAction::Report(2500));

    ptx.send(120).unwrap();
    assert_eq!(agg.poll(), PollAction::Report(6000));

    // A repeated cumulative value adds nothing and nothing goes backwards.
    ptx.send(120).unwrap();
    assert_eq!(agg.poll(), PollAction::Report(6000));

    ptx.send(200).unwrap();
    assert_eq!(agg.poll(), PollAction::Done);
}

#[test]
fn aggregator_counts_each_total_once() {
    let (ttx, trx) = broadcast::channel::<usize>(1);
    let (_ptx, prx) = broadcast::channel::<usize>(1);
    let mut agg = Aggregator::new(vec![trx], vec![prx]);

    ttx.send(100).unwrap();
    assert_eq!(agg.poll(), PollAction::Report(0));
    // The same file announcing again must not enlarge the total.
    ttx.send(100).unwrap();
    agg.note_read(0, 100);
    assert_eq!(agg.poll(), PollAction::Done);
}

#[test]
fn aggregator_sums_across_files() {
    let (ttx1, trx1) = broadcast::channel::<usize>(1);
    let (ttx2, trx2) = broadcast::channel::<usize>(1);
    let (ptx1, prx1) = broadcast::channel::<usize>(1);
    let (ptx2, prx2) = broadcast::channel::<usize>(1);
    let mut agg = Aggregator::new(vec![trx1, trx2], vec![prx1, prx2]);

    ttx1.send(100).unwrap();
    ttx2.send(300).unwrap();
    ptx1.send(100).unwrap();
    assert_eq!(agg.poll(), PollAction::Report(2500));
    ptx2.send(300).unwrap();
    assert_eq!(agg.poll(), PollAction::Done);
}

#[test]
fn stale_delivery_never_decreases_the_sum() {
    let (ttx, trx) = broadcast::channel::<usize>(1);
    let (_ptx, prx) = broadcast::channel::<usize>(1);
    let mut agg = Aggregator::new(vec![trx], vec![prx]);
    ttx.send(1000).unwrap();
    agg.note_read(0, 400);
    assert_eq!(agg.poll(), PollAction::Report(4000));
    // A stale, smaller cumulative value arrives late: it must not count.
    agg.note_read(0, 100);
    assert_eq!(agg.poll(), PollAction::Report(4000));
    agg.note_read(0, 500);
    assert_eq!(agg.poll(), PollAction::Report(5000));
}
