use watchfs::scheduler::DebounceScheduler;

fn sorted(mut v: Vec<String>) -> Vec<String> {
    v.sort();
    v
}

#[test]
fn burst_coalesces_into_one_firing() {
    // delay = 1s; touches at t=0.2s and t=0.9s on paths a, b.
    let mut s = DebounceScheduler::new(1000);
    let d1 = s.touch("a".to_string(), 200);
    assert_eq!(d1, 1200);
    let d2 = s.touch("b".to_string(), 900);
    assert_eq!(d2, 1900);
    // The first timer (generation 1) was superseded before its deadline.
    assert_eq!(s.fire(1), None);
    // The second timer fires at 1900 >= 900 + 1000 with the union {a, b}.
    let snap = s.fire(2).expect("current firing yields the snapshot");
    assert_eq!(sorted(snap), vec!["a".to_string(), "b".to_string()]);
    // Everything was cleared: a second firing is a no-op.
    assert_eq!(s.fire(2), None);
    assert_eq!(s.pending_len(), 0);
    assert_eq!(s.current_deadline(), None);
}

#[test]
fn touch_resets_the_deadline() {
    let mut s = DebounceScheduler::new(500);
    let d1 = s.touch("x".to_string(), 100);
    assert_eq!(d1, 600);
    assert_eq!(s.current_deadline(), Some(600));
    // A later touch strictly extends the next firing time.
    let d2 = s.touch("y".to_string(), 400);
    assert_eq!(d2, 900);
    assert!(d2 > d1);
    assert_eq!(s.current_deadline(), Some(900));
}

#[test]
fn repeated_touches_of_one_path_dedup() {
    let mut s = DebounceScheduler::new(1000);
    s.touch("same".to_string(), 10);
    s.touch("same".to_string(), 20);
    s.touch("same".to_string(), 30);
    assert_eq!(s.pending_len(), 1);
    let snap = s.fire(3).expect("nonempty snapshot");
    assert_eq!(snap, vec!["same".to_string()]);
}

#[test]
fn empty_firing_is_a_no_op() {
    let mut s = DebounceScheduler::new(1000);
    assert_eq!(s.fire(0), None);
    assert_eq!(s.pending_len(), 0);
}

#[test]
fn stale_firing_changes_nothing() {
    let mut s = DebounceScheduler::new(1000);
    s.touch("a".to_string(), 0);
    s.touch("b".to_string(), 1);
    // A firing armed for generation 1 was superseded by generation 2.
    assert_eq!(s.fire(1), None);
    assert_eq!(s.pending_len(), 2);
    // The current generation still fires.
    let snap = s.fire(2).expect("current firing yields the snapshot");
    assert_eq!(snap.len(), 2);
}

#[test]
fn generation_counts_every_accepted_touch() {
    let mut s = DebounceScheduler::new(100);
    assert_eq!(s.current_generation(), 0);
    s.touch("p".to_string(), 0);
    s.touch("p".to_string(), 1);
    assert_eq!(s.current_generation(), 2);
}
