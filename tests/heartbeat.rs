use tuxphones::heartbeat::{first_delay_from, HeartbeatCtx};

#[test]
fn unit_interval_first_beat_at_zero() {
    for r in [0u64, 1, 1 << 63, u64::MAX] {
        assert_eq!(first_delay_from(1, r), 0);
    }
    let ctx = HeartbeatCtx::new(1);
    assert_eq!(ctx.next_delay(), 0);
}

#[test]
fn first_delay_scales_the_draw() {
    assert_eq!(first_delay_from(1000, 0), 0);
    assert_eq!(first_delay_from(1000, 1 << 63), 500);
    assert_eq!(first_delay_from(1000, u64::MAX), 999);
    assert_eq!(first_delay_from(0, u64::MAX), 0);
}

#[test]
fn later_beats_wait_the_interval() {
    let mut ctx = HeartbeatCtx::new(41250);
    assert!(ctx.next_delay() < 41250);
    let f = ctx.beat_with(0xA);
    assert_eq!(f.d, 0xA);
    assert_eq!(ctx.last_nonce, Some(0xA));
    assert!(ctx.first_beat_sent);
    assert_eq!(ctx.next_delay(), 41250);
    assert_eq!(ctx.next_delay_from(0), 41250);
}

#[test]
fn ack_matching() {
    let mut ctx = HeartbeatCtx::new(1000);
    assert!(ctx.ack_matches(5));
    ctx.beat_with(0xA);
    assert!(ctx.ack_matches(10));
    assert!(!ctx.ack_matches(17));
    let f = ctx.beat();
    assert_eq!(ctx.last_nonce, Some(f.d));
    assert!(ctx.ack_matches(f.d));
}
