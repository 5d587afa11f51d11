use freezeit_daemon::app::scheduler::FreezeScheduler;

#[test]
fn due_freezes_come_out_by_package_name_then_uid() {
    let mut scheduler = FreezeScheduler::default();
    scheduler.schedule_background("com.b", 1, 0, 10);
    scheduler.schedule_background("com.a", 2, 0, 10);
    scheduler.schedule_background("com.a", 1, 0, 10);
    scheduler.schedule_background("com.c", 1, 0, 500);

    let due = scheduler.due_at(10);
    let keys: Vec<(String, u32, u128)> = due
        .iter()
        .map(|p| (p.package_name.clone(), p.uid, p.due_at_ms))
        .collect();
    assert_eq!(
        keys,
        vec![
            ("com.a".to_owned(), 1, 10),
            ("com.a".to_owned(), 2, 10),
            ("com.b".to_owned(), 1, 10),
        ]
    );
}

#[test]
fn scheduling_again_replaces_the_due_time() {
    let mut scheduler = FreezeScheduler::default();
    scheduler.schedule_background("com.example.app", 10_123, 1_000, 60_000);
    scheduler.schedule_background("com.example.app", 10_123, 1_000, 5);

    let due = scheduler.due_at(1_005);
    assert_eq!(due.len(), 1);
    assert_eq!(due[0].due_at_ms, 1_005);
    assert!(scheduler.due_at(1_004).is_empty());
}

#[test]
fn cancelling_returns_the_pending_freeze_once() {
    let mut scheduler = FreezeScheduler::default();
    assert!(scheduler.cancel_foreground("com.example.app", 10_123).is_none());

    scheduler.schedule_background("com.example.app", 10_123, 100, 900);
    scheduler.schedule_background("com.example.other", 10_124, 100, 900);
    let pending = scheduler
        .cancel_foreground("com.example.app", 10_123)
        .expect("pending freeze");
    assert_eq!(pending.package_name, "com.example.app");
    assert_eq!(pending.uid, 10_123);
    assert_eq!(pending.due_at_ms, 1_000);

    assert!(scheduler.cancel_foreground("com.example.app", 10_123).is_none());
    let due = scheduler.due_at(1_000);
    assert_eq!(due.len(), 1);
    assert_eq!(due[0].package_name, "com.example.other");
}

#[test]
fn a_scheduled_freeze_falls_due_exactly_after_its_delay() {
    let mut scheduler = FreezeScheduler::default();
    scheduler.schedule_background("com.example.app", 10_123, 250, 0);
    assert_eq!(scheduler.due_at(250).len(), 1);
    assert!(scheduler.due_at(249).is_empty());
}
