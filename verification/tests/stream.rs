//! The tasks that move bytes between a pair of rings and a socket.

use buffex::ring_buffer::ring::{RecvSlices, RingBuffer, SendSlices};
use buffex::stream::{
    fill_done, fill_next, flush_done, flush_next, FillStep, FlushStep, StreamRings, TaskFlow,
};

/// What a socket may report.
#[derive(Debug, PartialEq, Eq)]
struct Broken(u8);

fn write_user(rings: &mut StreamRings, data: &[u8]) -> usize {
    match rings.tx.try_write_at_most(&rings.write_ring, data.len()) {
        Ok(mut segm) => {
            let n = segm.move_items_from_buff(&mut rings.write_ring, data);
            segm.commit(&mut rings.write_ring);
            n
        }
        Err(_) => 0,
    }
}

fn read_user(rings: &mut StreamRings, out: &mut Vec<u8>) {
    while let Ok(mut segm) = rings.rx.try_read_at_most(&rings.read_ring, 64) {
        let n = segm.least_count();
        if n == 0 {
            break;
        }
        let mut got = vec![0u8; n];
        assert_eq!(segm.move_items_to_buff(&rings.read_ring, &mut got), n);
        segm.commit(&mut rings.read_ring);
        out.extend_from_slice(&got);
    }
}

/// One turn of the flush task on a socket that takes at most `limit` bytes.
fn flush_turn(ring: &mut RingBuffer<u8>, socket: &mut Vec<u8>, limit: usize) -> TaskFlow<Broken> {
    let n = match flush_next(ring) {
        FlushStep::Submit(SendSlices(a, b)) => {
            let mut all = a.to_vec();
            all.extend_from_slice(b);
            all.truncate(limit);
            socket.extend_from_slice(&all);
            all.len()
        }
        FlushStep::Wait => return TaskFlow::Continue,
        FlushStep::Stop => return TaskFlow::Stop,
    };
    flush_done(ring, Ok(n)).0
}

/// One turn of the fill task on a socket that gives at most `limit` bytes.
fn fill_turn(ring: &mut RingBuffer<u8>, socket: &mut Vec<u8>, limit: usize) -> TaskFlow<Broken> {
    let n = match fill_next(ring) {
        FillStep::Submit(RecvSlices(a, b)) => {
            let n = std::cmp::min(std::cmp::min(a.len() + b.len(), limit), socket.len());
            for (slot, byte) in a.iter_mut().chain(b.iter_mut()).zip(socket.drain(..n)) {
                *slot = byte;
            }
            n
        }
        FillStep::Wait => return TaskFlow::Continue,
        FillStep::Stop => return TaskFlow::Stop,
    };
    fill_done(ring, Ok(n)).0
}

/// One turn of the fill task on a socket that gives the bytes.
fn fill_with(ring: &mut RingBuffer<u8>, bytes: &[u8]) -> TaskFlow<Broken> {
    let mut socket = bytes.to_vec();
    fill_turn(ring, &mut socket, bytes.len())
}

#[test]
fn bytes_cross_the_socket_in_order() {
    const TOTAL: usize = 5000;
    let data: Vec<u8> = (0..TOTAL).map(|i| (i * 31 % 251) as u8).collect();
    let mut client = StreamRings::try_new(64).unwrap();
    let mut server = StreamRings::try_new(32).unwrap();
    let mut socket: Vec<u8> = Vec::new();
    let mut got: Vec<u8> = Vec::new();
    let mut sent = 0usize;
    let mut turn = 0usize;
    while got.len() < TOTAL {
        turn += 1;
        assert!(turn < 10000, "stuck");
        sent += write_user(&mut client, &data[sent..]);
        flush_turn(&mut client.write_ring, &mut socket, 1 + turn % 17);
        if !socket.is_empty() {
            fill_turn(&mut server.read_ring, &mut socket, 1 + turn % 13);
        }
        read_user(&mut server, &mut got);
    }
    assert_eq!(got, data);
}

#[test]
fn closing_flushes_what_is_buffered() {
    let mut rings = StreamRings::try_new(16).unwrap();
    assert_eq!(write_user(&mut rings, &[1, 2, 3, 4, 5]), 5);
    rings.close();
    let mut socket = Vec::new();
    assert_eq!(flush_turn(&mut rings.write_ring, &mut socket, 3), TaskFlow::Continue);
    assert_eq!(flush_turn(&mut rings.write_ring, &mut socket, 3), TaskFlow::Continue);
    assert_eq!(flush_turn(&mut rings.write_ring, &mut socket, 3), TaskFlow::Stop);
    assert_eq!(socket, vec![1, 2, 3, 4, 5]);
}

#[test]
fn failed_write_returns_the_region_and_closes() {
    let mut rings = StreamRings::try_new(16).unwrap();
    assert_eq!(write_user(&mut rings, &[7, 8]), 2);
    assert!(matches!(flush_next(&mut rings.write_ring), FlushStep::Submit(_)));
    // while the region is out, there is nothing else to submit
    assert!(matches!(flush_next(&mut rings.write_ring), FlushStep::Wait));
    let (flow, _) = flush_done(&mut rings.write_ring, Err(Broken(32)));
    assert_eq!(flow, TaskFlow::Failed(Broken(32)));
    assert!(rings.write_ring.is_tx_closed());
    assert_eq!(rings.write_ring.data_size(), 2);
    assert!(rings.write_ring.has_tx_data());
}

#[test]
fn end_of_the_peer_closes_the_read_ring() {
    let mut rings = StreamRings::try_new(16).unwrap();
    assert_eq!(fill_with(&mut rings.read_ring, &[9, 9]), TaskFlow::Continue);
    assert_eq!(fill_with(&mut rings.read_ring, &[]), TaskFlow::Stop);
    assert!(rings.read_ring.is_rx_closed());
    let mut got = Vec::new();
    read_user(&mut rings, &mut got);
    assert_eq!(got, vec![9, 9]);
}

#[test]
fn failed_read_closes_the_read_ring() {
    let mut rings = StreamRings::try_new(16).unwrap();
    assert!(matches!(fill_next(&mut rings.read_ring), FillStep::Submit(_)));
    let (flow, _) = fill_done(&mut rings.read_ring, Err(Broken(104)));
    assert_eq!(flow, TaskFlow::Failed(Broken(104)));
    assert!(rings.read_ring.is_rx_closed());
    assert_eq!(rings.read_ring.data_size(), 0);
}

#[test]
fn full_and_empty_rings_wait() {
    let mut rings = StreamRings::try_new(4).unwrap();
    assert!(matches!(flush_next(&mut rings.write_ring), FlushStep::Wait));
    assert_eq!(fill_with(&mut rings.read_ring, &[1, 2, 3]), TaskFlow::Continue);
    assert!(matches!(fill_next(&mut rings.read_ring), FillStep::Wait));
    rings.close();
    assert!(matches!(flush_next(&mut rings.write_ring), FlushStep::Stop));
    assert!(matches!(fill_next(&mut rings.read_ring), FillStep::Stop));
}

#[test]
fn stream_of_no_capacity_is_refused() {
    assert!(matches!(StreamRings::try_new(0), Err(0)));
    assert!(matches!(StreamRings::try_new(1), Err(1)));
    let rings = StreamRings::try_new(2).unwrap();
    // the halves that nobody holds are closed
    assert!(rings.write_ring.is_rx_closed());
    assert!(!rings.write_ring.is_tx_closed());
    assert!(rings.read_ring.is_tx_closed());
    assert!(!rings.read_ring.is_rx_closed());
}
