use theme_sync::server::ShutdownLatch;

#[test]
fn the_cleanup_is_handed_out_once() {
    let mut latch = ShutdownLatch::new();
    assert!(latch.claim());
    assert!(!latch.claim());
    assert!(!latch.claim());
}
