use std::collections::HashMap;

use kqr::assign::{
    clamp_resolved_offset, resolve_offset_based, resolve_time_based, retain_nonempty,
    topic_partitions, Assignment,
};
use kqr::consume::ConsumePlan;
use kqr::error::Error;
use kqr::window::OffsetStart;

fn wm(parts: &[(i32, i64, i64)]) -> HashMap<i32, (i64, i64)> {
    parts.iter().map(|(p, l, h)| (*p, (*l, *h))).collect()
}

#[test]
fn offset_earliest_distributes_limit() {
    let parts = vec![0, 1, 2];
    let watermarks = wm(&[(0, 0, 100), (1, 0, 100), (2, 0, 100)]);
    let a = resolve_offset_based(OffsetStart::Earliest, 30, &parts, &watermarks);
    assert_eq!(a.len(), 3);
    for asg in &a {
        assert_eq!(asg.start_offset, 0);
        assert_eq!(asg.end_offset, 10); // 30 / 3 partitions
    }
}

#[test]
fn offset_latest_picks_tail() {
    let parts = vec![0, 1];
    let watermarks = wm(&[(0, 0, 100), (1, 0, 100)]);
    let a = resolve_offset_based(OffsetStart::Latest, 10, &parts, &watermarks);
    for asg in &a {
        assert_eq!(asg.end_offset, 100);
        assert_eq!(asg.start_offset, 95); // 100 - 10/2
    }
}

#[test]
fn offset_clamps_to_low_watermark() {
    let parts = vec![0];
    let watermarks = wm(&[(0, 50, 60)]);
    let a = resolve_offset_based(OffsetStart::Latest, 1000, &parts, &watermarks);
    assert_eq!(a[0].start_offset, 50); // clamped, not negative
    assert_eq!(a[0].end_offset, 60);
}

#[test]
fn empty_window_filters_out_zero_range() {
    let parts = vec![0];
    let watermarks = wm(&[(0, 5, 5)]); // empty partition
    let a = resolve_offset_based(OffsetStart::Earliest, 10, &parts, &watermarks);
    assert_eq!(a[0].start_offset, 5);
    assert_eq!(a[0].end_offset, 5);
}

// Further cases.

#[test]
fn offset_unknown_partition_and_tiny_limit() {
    let parts = vec![0, 7];
    let watermarks = wm(&[(0, 0, 100)]);
    let a = resolve_offset_based(OffsetStart::Earliest, 1, &parts, &watermarks);
    assert_eq!(a[0], Assignment { partition: 0, start_offset: 0, end_offset: 1 });
    assert_eq!(a[1], Assignment { partition: 7, start_offset: 0, end_offset: 0 });
}

#[test]
fn clamp_rules() {
    assert_eq!(clamp_resolved_offset(Some(5), 10, 20), 10);
    assert_eq!(clamp_resolved_offset(Some(15), 10, 20), 15);
    assert_eq!(clamp_resolved_offset(Some(25), 10, 20), 20);
    assert_eq!(clamp_resolved_offset(Some(-1), 10, 20), 20);
    assert_eq!(clamp_resolved_offset(None, 10, 20), 20);
}

#[test]
fn time_based_with_and_without_upper_bound() {
    let parts = vec![0, 1];
    let watermarks = wm(&[(0, 0, 100), (1, 10, 50)]);
    let open = resolve_time_based(&parts, &watermarks, &[Some(40), None], None);
    assert_eq!(open[0], Assignment { partition: 0, start_offset: 40, end_offset: 100 });
    assert_eq!(open[1], Assignment { partition: 1, start_offset: 50, end_offset: 50 });
    let upper = [Some(60), Some(5)];
    let closed = resolve_time_based(&parts, &watermarks, &[Some(40), Some(20)], Some(&upper));
    assert_eq!(closed[0], Assignment { partition: 0, start_offset: 40, end_offset: 60 });
    assert_eq!(closed[1], Assignment { partition: 1, start_offset: 20, end_offset: 10 });
}

#[test]
fn nonempty_ranges_are_kept_in_order() {
    let v = vec![
        Assignment { partition: 0, start_offset: 5, end_offset: 5 },
        Assignment { partition: 1, start_offset: 0, end_offset: 3 },
        Assignment { partition: 2, start_offset: 9, end_offset: 4 },
        Assignment { partition: 3, start_offset: 1, end_offset: 2 },
    ];
    let kept = retain_nonempty(v);
    assert_eq!(kept.iter().map(|a| a.partition).collect::<Vec<_>>(), vec![1, 3]);
}

#[test]
fn missing_topic_errors() {
    assert_eq!(topic_partitions("t", Some(vec![0, 1])).unwrap(), vec![0, 1]);
    assert!(matches!(topic_partitions("t", Some(vec![])), Err(Error::KafkaTopicMissing(ref n)) if n == "t"));
    assert!(matches!(topic_partitions("t", None), Err(Error::KafkaTopicMissing(_))));
}

#[test]
fn plan_stops_at_limit_and_at_end_offsets() {
    let assigns = vec![
        Assignment { partition: 0, start_offset: 0, end_offset: 3 },
        Assignment { partition: 1, start_offset: 10, end_offset: 12 },
    ];
    let mut plan = ConsumePlan::new(&assigns, Some(4)).unwrap();
    assert_eq!(plan.left_to_send, 4);
    assert!(plan.should_continue());
    // a message past the end of partition 1 closes it
    assert!(!plan.accept_message(1, 12));
    // partition 9 is not assigned
    assert!(!plan.accept_message(9, 0));
    let mut sent = 0;
    for off in 0..3 {
        assert!(plan.accept_message(0, off));
        plan.record_sent(0, 10);
        sent += 1;
    }
    // partition 0 is exhausted
    assert!(!plan.accept_message(0, 3));
    assert!(!plan.should_continue());
    assert_eq!(plan.stats().messages, sent);
    assert_eq!(plan.stats().bytes, 30);
}

#[test]
fn plan_limit_caps_messages() {
    let assigns = vec![Assignment { partition: 0, start_offset: 0, end_offset: 100 }];
    let mut plan = ConsumePlan::new(&assigns, Some(2)).unwrap();
    for off in 0..2 {
        assert!(plan.accept_message(0, off));
        plan.record_sent(0, 1);
    }
    assert!(!plan.should_continue());
    assert_eq!(plan.stats().messages, 2);
}

#[test]
fn plan_needs_assignments() {
    assert!(matches!(ConsumePlan::new(&vec![], None), Err(Error::KafkaEmptyWindow)));
}

#[test]
fn plan_later_assignment_of_a_partition_replaces_count() {
    let assigns = vec![
        Assignment { partition: 0, start_offset: 0, end_offset: 10 },
        Assignment { partition: 0, start_offset: 0, end_offset: 2 },
    ];
    let plan = ConsumePlan::new(&assigns, None).unwrap();
    assert_eq!(plan.slots.len(), 1);
    assert_eq!(plan.slots[0].remaining, 2);
    assert_eq!(plan.slots[0].end_offset, 10);
    assert_eq!(plan.left_to_send, 2);
}

#[test]
fn offset_window_never_plans_more_than_its_limit() {
    let parts = vec![0, 1, 2];
    let watermarks = wm(&[(0, 0, 100), (1, 0, 100), (2, 0, 100)]);
    let a = resolve_offset_based(OffsetStart::Earliest, 1, &parts, &watermarks);
    let total: i64 = a.iter().map(|x| x.end_offset - x.start_offset).sum();
    assert_eq!(total, 1);
    assert_eq!((a[0].start_offset, a[0].end_offset), (0, 1));
    assert_eq!((a[1].start_offset, a[1].end_offset), (0, 0));

    let b = resolve_offset_based(OffsetStart::Latest, 8, &parts, &watermarks);
    let shares: Vec<i64> = b.iter().map(|x| x.end_offset - x.start_offset).collect();
    assert_eq!(shares, vec![3, 3, 2]);
}

#[test]
fn windows_before_retention_are_reported() {
    let parts = vec![0, 1, 2, 3];
    let watermarks = wm(&[(0, 40, 100), (1, 0, 100), (2, 40, 100), (3, 40, 100)]);
    let from = vec![Some(40), Some(0), Some(55), None];
    assert_eq!(
        kqr::assign::partitions_before_retention(&parts, &watermarks, &from),
        vec![0]
    );
}
