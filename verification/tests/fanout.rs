use shred_listener::channel::BoundedChannel;
use shred_listener::channel::CHANNEL_BOUND;
use shred_listener::router::Router;

#[test]
fn channel_accepts_exactly_its_bound() {
    let mut c: BoundedChannel<u64> = BoundedChannel::new(4);
    for i in 0..4u64 {
        assert!(c.try_send(i));
    }
    assert!(!c.try_send(99));
    assert_eq!(c.len(), 4);
    assert_eq!(c.try_recv(), Some(0));
    assert!(c.try_send(100));
    assert!(!c.try_send(101));
}

#[test]
fn channel_delivers_in_arrival_order() {
    let mut c: BoundedChannel<u64> = BoundedChannel::new(8);
    for i in [3u64, 1, 4, 1, 5] {
        assert!(c.try_send(i));
    }
    for i in [3u64, 1, 4, 1, 5] {
        assert_eq!(c.try_recv(), Some(i));
    }
    assert_eq!(c.try_recv(), None);
}

#[test]
fn replicated_single_batch_lands_once_per_pipeline() {
    let mut r: Router<u64> = Router::new(CHANNEL_BOUND);
    let d = r.route(7);
    assert!(d.arb && d.pump && d.grad);
    assert_eq!(r.arb.len(), 1);
    assert_eq!(r.pump.len(), 1);
    assert_eq!(r.grad.len(), 1);
    assert_eq!(r.arb.try_recv(), Some(7));
    assert_eq!(r.pump.try_recv(), Some(7));
    assert_eq!(r.grad.try_recv(), Some(7));
    assert_eq!(r.arb.try_recv(), None);
    assert_eq!(r.pump.try_recv(), None);
    assert_eq!(r.grad.try_recv(), None);
}

#[test]
fn fanout_keeps_order_and_never_duplicates() {
    let mut r: Router<u64> = Router::new(2);
    let d1 = r.route(10);
    let d2 = r.route(20);
    let d3 = r.route(30);
    assert!(d1.arb && d2.arb);
    assert!(!d3.arb && !d3.pump && !d3.grad);
    for c in [&mut r.arb, &mut r.pump, &mut r.grad] {
        assert_eq!(c.try_recv(), Some(10));
        assert_eq!(c.try_recv(), Some(20));
        assert_eq!(c.try_recv(), None);
    }
}

#[test]
fn saturated_pipeline_never_blocks_the_others() {
    let mut r: Router<u64> = Router::new(1);
    assert!(r.route(1).arb);
    // The arbitrage channel is now full; its copy is dropped while the
    // other two pipelines drain and keep receiving.
    assert_eq!(r.pump.try_recv(), Some(1));
    assert_eq!(r.grad.try_recv(), Some(1));
    let d = r.route(2);
    assert!(!d.arb);
    assert!(d.pump && d.grad);
    assert_eq!(r.arb.len(), 1);
    assert_eq!(r.pump.try_recv(), Some(2));
    assert_eq!(r.grad.try_recv(), Some(2));
}
