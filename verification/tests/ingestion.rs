use shred_listener::adapter::ReconstructionAdapter;
use shred_listener::adapter::render_metrics;
use shred_listener::packet::MAX_PACKET_LEN;
use shred_listener::packet::packet_from_datagram;

fn ascending_buf() -> Vec<u8> {
    let mut buf: Vec<u8> = Vec::new();
    for i in 0..MAX_PACKET_LEN {
        buf.push((i % 256) as u8);
    }
    buf
}

#[test]
fn forwards_exact_copy_of_received_length() {
    let buf = ascending_buf();
    for len in [0usize, 1, 10, 500, 1231, 1232] {
        let p = packet_from_datagram(&buf, len);
        assert_eq!(p.len(), len);
        assert_eq!(&p[..], &buf[..len]);
    }
}

#[test]
fn single_strategy_three_datagrams_counter_reads_three() {
    let buf = ascending_buf();
    let mut adapter = ReconstructionAdapter::new();
    for len in [10usize, 500, 1232] {
        let p = adapter.ingest_datagram(&buf, len);
        assert_eq!(&p[..], &buf[..len]);
    }
    let snapshot = adapter.snapshot_metrics();
    assert_eq!(snapshot.packets, 3);
    assert_eq!(snapshot.bytes, 10 + 500 + 1232);
}

#[test]
fn metrics_reads_are_read_only_and_idempotent() {
    let buf = ascending_buf();
    let mut adapter = ReconstructionAdapter::new();
    let p = packet_from_datagram(&buf, 42);
    adapter.accept(&p);
    let first = adapter.snapshot_metrics();
    let second = adapter.snapshot_metrics();
    assert_eq!(first, second);
    assert_eq!(adapter.packets_received(), 1);
    let _ = render_metrics(&first);
    assert_eq!(adapter.snapshot_metrics(), first);
}

#[test]
fn metrics_line_renders_exactly() {
    let buf = ascending_buf();
    let mut adapter = ReconstructionAdapter::new();
    for len in [10usize, 500, 1232] {
        let p = packet_from_datagram(&buf, len);
        adapter.accept(&p);
    }
    let line = render_metrics(&adapter.snapshot_metrics());
    assert_eq!(&line[..], b"packets: 3 bytes: 1742");
}

#[test]
fn metrics_line_of_fresh_stage() {
    let adapter = ReconstructionAdapter::new();
    let line = render_metrics(&adapter.snapshot_metrics());
    assert_eq!(&line[..], b"packets: 0 bytes: 0");
}
