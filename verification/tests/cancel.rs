use recur64::cancel::CancelToken;

#[test]
fn cancel_is_shared_between_clones() {
    let t = CancelToken::new();
    let seen_by_worker = t.clone();
    assert!(!seen_by_worker.is_cancelled());
    t.cancel();
    assert!(seen_by_worker.is_cancelled());
    assert!(t.is_cancelled());
}
