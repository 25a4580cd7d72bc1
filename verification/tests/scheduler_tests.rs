use wallrotate::scheduler::{plan_cycle, starts_rotation, CycleAction, RotationState, WaitEvent};

fn v(s: &str) -> Vec<u8> {
    s.as_bytes().to_vec()
}

#[test]
fn cycle_applies_an_image_other_than_current() {
    let images = vec![v("a.jpg"), v("b.jpg"), v("c.jpg")];
    let cur = v("a.jpg");
    for _ in 0..500 {
        match plan_cycle(&images, Some(&cur)) {
            CycleAction::Apply(img) => {
                assert!(img == v("b.jpg") || img == v("c.jpg"));
            },
            other => panic!("expected an apply, got {:?}", other),
        }
    }
}

#[test]
fn cycle_with_unknown_current_applies_some_image() {
    let images = vec![v("a.jpg"), v("b.jpg")];
    match plan_cycle(&images, None) {
        CycleAction::Apply(img) => assert!(images.contains(&img)),
        other => panic!("expected an apply, got {:?}", other),
    }
}

#[test]
fn empty_catalog_reports_no_images() {
    let images: Vec<Vec<u8>> = Vec::new();
    assert!(matches!(plan_cycle(&images, None), CycleAction::NoImages));
}

#[test]
fn indistinguishable_catalog_skips() {
    let images = vec![v("same.jpg"), v("same.jpg")];
    let cur = v("same.jpg");
    assert!(matches!(plan_cycle(&images, Some(&cur)), CycleAction::SkipUnchanged));
}

#[test]
fn failed_apply_leaves_belief_unchanged() {
    let mut state = RotationState::new();
    state.record_probe(Some(v("old.jpg")));
    state.record_apply(&v("new.jpg"), false);
    assert_eq!(state.current, Some(v("old.jpg")));
}

#[test]
fn successful_apply_updates_belief() {
    let mut state = RotationState::new();
    state.record_probe(Some(v("old.jpg")));
    state.record_apply(&v("new.jpg"), true);
    assert_eq!(state.current, Some(v("new.jpg")));
}

#[test]
fn probe_report_replaces_belief() {
    let mut state = RotationState::new();
    assert_eq!(state.current, None);
    state.record_probe(Some(v("seen.jpg")));
    assert_eq!(state.current, Some(v("seen.jpg")));
    state.record_probe(None);
    assert_eq!(state.current, None);
}

#[test]
fn both_wait_events_start_a_rotation() {
    assert!(starts_rotation(&WaitEvent::TimerExpired));
    assert!(starts_rotation(&WaitEvent::TriggerReceived));
}
