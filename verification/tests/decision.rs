use gitea_autoscaler::decision::{
    decide_after, decide_scale_action, desired_replicas, track_surplus, ScaleDecision,
};
use std::time::{Duration, Instant};

#[test]
fn scales_up_immediately_and_clears_cooldown() {
    let mut scale_down_since = Some(Instant::now() - Duration::from_secs(120));

    let decision = decide_scale_action(2, 4, 300, &mut scale_down_since);

    assert_eq!(decision, ScaleDecision::ScaleUp);
    assert!(scale_down_since.is_none());
}

#[test]
fn waits_for_cooldown_when_surplus_first_appears() {
    let mut scale_down_since = None;

    let decision = decide_scale_action(6, 2, 300, &mut scale_down_since);

    assert_eq!(decision, ScaleDecision::WaitCooldown { remaining: 300 });
    assert!(scale_down_since.is_some());
}

#[test]
fn scales_down_after_cooldown_expires() {
    let mut scale_down_since = Some(Instant::now() - Duration::from_secs(301));

    let decision = decide_scale_action(6, 2, 300, &mut scale_down_since);

    assert_eq!(decision, ScaleDecision::ScaleDown);
    assert!(scale_down_since.is_some());
}

#[test]
fn equal_replicas_clear_cooldown_state() {
    let mut scale_down_since = Some(Instant::now() - Duration::from_secs(301));

    let decision = decide_scale_action(2, 2, 300, &mut scale_down_since);

    assert_eq!(decision, ScaleDecision::Noop);
    assert!(scale_down_since.is_none());
}

#[test]
fn a_running_cooldown_keeps_its_start() {
    let start = Instant::now() - Duration::from_secs(100);
    let mut scale_down_since = Some(start);

    let decision = decide_scale_action(6, 2, 300, &mut scale_down_since);

    assert_eq!(scale_down_since, Some(start));
    match decision {
        ScaleDecision::WaitCooldown { remaining } => assert!(remaining <= 200 && remaining > 180),
        other => panic!("unexpected decision: {:?}", other),
    }
}

#[test]
fn a_cycle_without_surplus_starts_the_cooldown_anew() {
    let mut scale_down_since = Some(Instant::now() - Duration::from_secs(301));
    assert_eq!(decide_scale_action(2, 2, 300, &mut scale_down_since), ScaleDecision::Noop);
    assert_eq!(
        decide_scale_action(6, 2, 300, &mut scale_down_since),
        ScaleDecision::WaitCooldown { remaining: 300 }
    );
}

#[test]
fn no_cooldown_scales_down_at_once() {
    let mut scale_down_since = None;
    assert_eq!(decide_scale_action(1, 0, 0, &mut scale_down_since), ScaleDecision::ScaleDown);
    assert!(scale_down_since.is_some());
}

#[test]
fn decisions_for_given_times() {
    assert_eq!(decide_after(2, 3, 300, 0), ScaleDecision::ScaleUp);
    assert_eq!(decide_after(3, 3, 300, 1000), ScaleDecision::Noop);
    assert_eq!(decide_after(4, 3, 300, 299), ScaleDecision::WaitCooldown { remaining: 1 });
    assert_eq!(decide_after(4, 3, 300, 300), ScaleDecision::ScaleDown);
    assert_eq!(decide_after(4, 3, u64::MAX, 1), ScaleDecision::WaitCooldown { remaining: u64::MAX - 1 });
}

#[test]
fn wanted_count_is_clamped() {
    assert_eq!(desired_replicas(0, 0, 1, 3), 1);
    assert_eq!(desired_replicas(1, 1, 1, 3), 2);
    assert_eq!(desired_replicas(2, 2, 1, 3), 3);
    assert_eq!(desired_replicas(0, 0, 0, 0), 0);
    assert_eq!(desired_replicas(u64::MAX, usize::MAX, 1, 3), 3);
    assert_eq!(desired_replicas(3_000_000_000, 0, 1, i32::MAX), i32::MAX);
}

#[test]
fn the_start_of_a_surplus_is_tracked() {
    let mut since = None;
    let start = track_surplus(3, 1, &mut since);
    assert!(start.is_some());
    assert_eq!(start, since);
    assert_eq!(track_surplus(2, 1, &mut since), start);
    assert_eq!(track_surplus(1, 1, &mut since), None);
    assert_eq!(since, None);
}

#[test]
fn full_capacity_wants_the_ceiling_whatever_is_queued() {
    for queued in [0, 1, 498, u64::MAX] {
        assert_eq!(desired_replicas(queued, 2, 1, 2), 2);
        assert_eq!(desired_replicas(queued, 5, 1, 2), 2);
    }
}

#[test]
fn waiting_gets_shorter_while_a_surplus_lasts() {
    let start = Instant::now() - Duration::from_secs(100);
    let mut since = Some(start);
    let mut remaining = u64::MAX;
    for (current, desired) in [(6, 2), (6, 3), (4, 2)] {
        match decide_scale_action(current, desired, 300, &mut since) {
            ScaleDecision::WaitCooldown { remaining: now } => {
                assert!(now <= remaining);
                remaining = now;
            }
            other => panic!("unexpected decision: {:?}", other),
        }
        assert_eq!(since, Some(start));
    }
    assert!(remaining <= 200);
    for desired in [2, 3, 4] {
        assert_eq!(decide_scale_action(6, desired, 50, &mut since), ScaleDecision::ScaleDown);
    }
}
