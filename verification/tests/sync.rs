//! Segments, wrap-around, errors, the vectored handoff to the kernel, and splitting.

use std::sync::{Arc, Mutex};

use buffex::ring_buffer::amount::Demand;
use buffex::ring_buffer::errors::{RxError, TxError};
use buffex::ring_buffer::futures::{ReadAsync, WriteAsync};
use buffex::ring_buffer::park::Poll;
use buffex::ring_buffer::ring::{RecvSlices, RingBuffer, SendSlices};
use buffex::ring_buffer::rx::RingRx;
use buffex::ring_buffer::segment::{ReclSliceMut, ReclSliceRef};
use buffex::ring_buffer::tx::RingTx;

const RING_CAP: usize = 16;

type SharedRing = Arc<Mutex<RingBuffer<u8>>>;

fn seq_byte(i: usize) -> u8 {
    (i % 256) as u8
}

fn pat_byte(i: usize) -> u8 {
    ((i * 7) % 256) as u8
}

fn make_ring() -> (RingBuffer<u8>, RingTx<()>, RingRx<()>) {
    let mut ring = RingBuffer::try_new(vec![0u8; RING_CAP]).unwrap();
    let (tx, rx) = ring.split();
    (ring, tx, rx)
}

fn shared(cap: usize) -> SharedRing {
    Arc::new(Mutex::new(RingBuffer::try_new(vec![0u8; cap]).unwrap()))
}

fn fill_segm(ring: &mut RingBuffer<u8>, segm: &mut ReclSliceMut, data: &[u8]) {
    assert!(data.len() <= segm.least_count());
    let moved = segm.move_items_from_buff(ring, data);
    assert_eq!(moved, data.len());
}

fn take_segm(ring: &RingBuffer<u8>, segm: &mut ReclSliceRef, len: usize) -> Vec<u8> {
    assert!(len <= segm.least_count());
    let mut dst = vec![0u8; len];
    let moved = segm.move_items_to_buff(ring, &mut dst);
    assert_eq!(moved, len);
    dst
}

fn write_bytes(ring: &mut RingBuffer<u8>, tx: &mut RingTx<()>, data: &[u8]) {
    let mut segm = tx.try_write_at_most(ring, data.len()).expect("write");
    fill_segm(ring, &mut segm, data);
    segm.commit(ring);
}

/// Partial borrows and reads, across the wrap-around.
#[test]
fn segm_borrow_roundtrip_and_wrap() {
    let (mut ring, mut tx, mut rx) = make_ring();

    // partial writes: 3, then 5
    let mut segm = tx.try_write_at_most(&ring, 3).expect("write 3");
    assert_eq!(segm.least_count(), 3);
    fill_segm(&mut ring, &mut segm, &(0..3).map(seq_byte).collect::<Vec<_>>());
    segm.commit(&mut ring);
    assert_eq!(tx.data_size(&ring), 3);

    let mut segm = tx.try_write_at_most(&ring, 5).expect("write 5");
    assert_eq!(segm.least_count(), 5);
    fill_segm(&mut ring, &mut segm, &(3..8).map(seq_byte).collect::<Vec<_>>());
    segm.commit(&mut ring);
    assert_eq!(tx.data_size(&ring), 8);

    // partial reads: 4, then 4
    let mut segm = rx.try_read_at_most(&ring, 4).expect("read 4");
    assert_eq!(segm.least_count(), 4);
    let got = take_segm(&ring, &mut segm, 4);
    for (i, b) in got.iter().enumerate() {
        assert_eq!(*b, seq_byte(i));
    }
    segm.commit(&mut ring);

    let mut segm = rx.try_read_at_most(&ring, 4).expect("read 4 more");
    assert_eq!(segm.least_count(), 4);
    let got = take_segm(&ring, &mut segm, 4);
    for (i, b) in got.iter().enumerate() {
        assert_eq!(*b, seq_byte(4 + i));
    }
    segm.commit(&mut ring);
    assert_eq!(tx.data_size(&ring), 0);

    // fill the ring, so that the writer position wraps
    let mut total = 0usize;
    while total < RING_CAP - 1 {
        let mut segm = tx.try_write_at_most(&ring, RING_CAP - 1 - total).expect("fill");
        assert!(segm.least_count() > 0);
        let len = segm.least_count();
        let data: Vec<u8> = (0..len).map(|i| seq_byte(100 + total + i)).collect();
        fill_segm(&mut ring, &mut segm, &data);
        segm.commit(&mut ring);
        total += len;
    }
    assert!(ring.writer_pos() < RING_CAP);
    assert_eq!(tx.data_size(&ring), RING_CAP - 1);
    assert!(matches!(tx.try_write_at_most(&ring, 1), Err(TxError::Stuffed(_))));

    let mut off = 0usize;
    loop {
        let mut segm = match rx.try_read_at_most(&ring, 7) {
            Ok(s) => s,
            Err(RxError::Drained(_)) => break,
            Err(e) => panic!("read failed: {e:?}"),
        };
        let len = segm.least_count();
        let got = take_segm(&ring, &mut segm, len);
        for (i, b) in got.iter().enumerate() {
            assert_eq!(*b, seq_byte(100 + off + i));
        }
        segm.commit(&mut ring);
        off += len;
    }
    assert_eq!(off, RING_CAP - 1);
}

/// `try_peek` borrows data without consuming it.
#[test]
fn peek_does_not_consume() {
    let (mut ring, mut tx, mut rx) = make_ring();
    let mut segm = tx.try_write_at_most(&ring, 4).expect("write");
    fill_segm(&mut ring, &mut segm, &[10, 11, 12, 13]);
    segm.commit(&mut ring);

    let segm = rx.try_peek(&ring).expect("peek");
    let slices: Vec<&[u8]> = segm.iter_slices(&ring);
    assert_eq!(slices, vec![&[10u8, 11, 12, 13][..]]);
    assert!(segm.commit(&mut ring).is_none());

    // still fully readable
    let segm = rx.try_peek(&ring).expect("peek again");
    assert_eq!(segm.least_count(), 4);
    assert!(segm.commit(&mut ring).is_none());

    let mut segm = rx.try_read_at_most(&ring, 16).expect("read all");
    assert_eq!(segm.least_count(), 4);
    let got = take_segm(&ring, &mut segm, 4);
    assert_eq!(got, vec![10, 11, 12, 13]);
    segm.commit(&mut ring);

    // now drained
    assert!(matches!(rx.try_read_at_most(&ring, 1), Err(RxError::Drained(_))));
}

/// A read that asks for at least 4 stays pending on 2 bytes and is ready on 5.
#[test]
fn read_async_honours_at_least() {
    let (mut ring, mut tx, mut rx) = make_ring();
    let mut ws = tx.try_write_at_most(&ring, 2).expect("write 2");
    fill_segm(&mut ring, &mut ws, &[1, 2]);
    ws.commit(&mut ring);

    let mut fut = rx.read_async(&Demand::at_least(4)).into_future(1);
    assert!(matches!(fut.poll(&mut ring, 0, false), Poll::Pending));

    let mut ws = tx.try_write_at_most(&ring, 3).expect("write 3 more");
    fill_segm(&mut ring, &mut ws, &[3, 4, 5]);
    ws.commit(&mut ring);

    match fut.poll(&mut ring, 0, false) {
        Poll::Ready(Ok(mut segm)) => {
            assert!(segm.least_count() >= 4);
            let n = segm.least_count();
            let got = take_segm(&ring, &mut segm, n);
            segm.commit(&mut ring);
            assert_eq!(got, vec![1, 2, 3, 4, 5]);
        }
        other => panic!("not ready: {}", matches!(other, Poll::Pending)),
    }
}

/// A write that asks for at least 5 stays pending on 3 free slots and is ready on 6.
#[test]
fn write_async_honours_at_least() {
    let (mut ring, mut tx, mut rx) = make_ring();
    let mut off = 0usize;
    while off < 12 {
        let mut ws = tx.try_write_at_most(&ring, 12 - off).expect("write");
        let len = ws.least_count();
        fill_segm(&mut ring, &mut ws, &(off..off + len).map(seq_byte).collect::<Vec<_>>());
        ws.commit(&mut ring);
        off += len;
    }
    assert_eq!(tx.free_size(&ring), 3);

    let mut fut = tx.write_async(&Demand::at_least(5)).into_future(1);
    assert!(matches!(fut.poll(&mut ring, 0, false), Poll::Pending));

    let mut rs = rx.try_read_at_most(&ring, 3).expect("read 3");
    let _ = take_segm(&ring, &mut rs, 3);
    rs.commit(&mut ring);

    match fut.poll(&mut ring, 0, false) {
        Poll::Ready(Ok(segm)) => assert!(segm.least_count() >= 5),
        _ => panic!("6 >= 5 must be ready"),
    }
}

/// `try_read` of at least 4 fails on 2 bytes rather than give less.
#[test]
fn try_read_honours_at_least() {
    let (mut ring, mut tx, mut rx) = make_ring();
    let mut ws = tx.try_write_at_most(&ring, 2).expect("write 2");
    fill_segm(&mut ring, &mut ws, &[1, 2]);
    ws.commit(&mut ring);
    assert!(matches!(rx.try_read(&ring, &Demand::at_least(4)), Err(RxError::Drained(_))));
}

/// `try_write` of at least 4 fails on 3 free slots rather than give less.
#[test]
fn try_write_honours_at_least() {
    let (mut ring, mut tx, _rx) = make_ring();
    let mut off = 0usize;
    while off < 12 {
        let mut ws = tx.try_write_at_most(&ring, 12 - off).expect("write");
        let len = ws.least_count();
        fill_segm(&mut ring, &mut ws, &(0..len).map(seq_byte).collect::<Vec<_>>());
        ws.commit(&mut ring);
        off += len;
    }
    assert_eq!(tx.free_size(&ring), 3);
    assert!(matches!(tx.try_write(&ring, &Demand::at_least(4)), Err(TxError::Stuffed(_))));
}

/// Once the rx end is closed nothing more will come: the read gives what there is.
#[test]
fn read_async_at_least_returns_partial_on_eof() {
    let (mut ring, mut tx, _rx) = make_ring();
    let mut ws = tx.try_write_at_most(&ring, 2).expect("write 2");
    fill_segm(&mut ring, &mut ws, &[7, 8]);
    ws.commit(&mut ring);
    tx.release(&mut ring);
    ring.close_rx();

    let mut fut = ReadAsync::new(4, usize::MAX).into_future(1);
    match fut.poll(&mut ring, 0, false) {
        Poll::Ready(Ok(mut segm)) => {
            assert_eq!(segm.least_count(), 2);
            let got = take_segm(&ring, &mut segm, 2);
            segm.commit(&mut ring);
            assert_eq!(got, vec![7, 8]);
        }
        _ => panic!("the rx end is closed: no waiting"),
    }
}

/// Without a lower bound a read gives what there is.
#[test]
fn read_async_less_than_still_partial() {
    let (mut ring, mut tx, _rx) = make_ring();
    let mut ws = tx.try_write_at_most(&ring, 2).expect("write 2");
    fill_segm(&mut ring, &mut ws, &[1, 2]);
    ws.commit(&mut ring);

    let mut fut = ReadAsync::new(0, 8).into_future(1);
    match fut.poll(&mut ring, 0, false) {
        Poll::Ready(Ok(segm)) => assert_eq!(segm.least_count(), 2),
        _ => panic!("2 > 0 must be ready"),
    }
}

/// Free space in two pieces, at the end and at the beginning of the storage, is given
/// out as one segment.
#[test]
fn write_one_shot_satisfies_wrapped_free_space() {
    let ring = shared(10);
    let (mut tx, mut rx) = RingBuffer::<u8>::try_split_shared(
        ring,
        Arc::strong_count,
        Arc::weak_count,
    )
    .expect("the sole owner may split");
    let shared = tx.shared().clone();
    let mut ring = shared.lock().unwrap();

    let mut off = 0usize;
    while off < 8 {
        let mut segm = tx.try_write_at_most(&ring, 8 - off).expect("write");
        let len = segm.least_count();
        fill_segm(&mut ring, &mut segm, &(off..off + len).map(seq_byte).collect::<Vec<_>>());
        segm.commit(&mut ring);
        off += len;
    }
    assert_eq!(tx.data_size(&ring), 8);

    let mut segm = rx.try_read_at_most(&ring, 3).expect("read 3");
    let _ = take_segm(&ring, &mut segm, 3);
    segm.commit(&mut ring);
    assert_eq!(tx.data_size(&ring), 5);

    assert_eq!(ring.writer_pos(), 8);
    assert_eq!(ring.reader_pos(), 3);
    assert_eq!(ring.free_size(), 4);

    let mut segm = tx.try_write_at_most(&ring, 4).expect("four slots at once");
    assert_eq!(segm.least_count(), 4);

    fill_segm(&mut ring, &mut segm, &[100u8, 101, 102, 103]);
    segm.commit(&mut ring);
    assert_eq!(tx.data_size(&ring), 9);

    let mut expected: Vec<u8> = (3..8).map(seq_byte).collect();
    expected.extend_from_slice(&[100, 101, 102, 103]);
    let mut got = Vec::new();
    while let Ok(mut segm) = rx.try_read_at_most(&ring, 5) {
        let len = segm.least_count();
        got.extend_from_slice(&take_segm(&ring, &mut segm, len));
        segm.commit(&mut ring);
    }
    assert_eq!(got, expected);
}

/// `Stuffed` when full, `Drained` when empty, `Closing` after close.
#[test]
fn error_semantics() {
    let (mut ring, mut tx, mut rx) = make_ring();

    // empty
    assert!(matches!(rx.try_read_at_most(&ring, 1), Err(RxError::Drained(_))));

    // fill to capacity - 1
    let mut segm = tx.try_write_at_most(&ring, RING_CAP).expect("fill");
    let n = segm.least_count();
    assert_eq!(n, RING_CAP - 1, "one slot is always unused");
    fill_segm(&mut ring, &mut segm, &vec![0u8; n]);
    segm.commit(&mut ring);
    assert!(matches!(tx.try_write_at_most(&ring, 1), Err(TxError::Stuffed(_))));

    // drain
    let mut segm = rx.try_read_at_most(&ring, RING_CAP).expect("read all");
    let n = segm.least_count();
    assert_eq!(n, RING_CAP - 1);
    take_segm(&ring, &mut segm, n);
    segm.commit(&mut ring);
    assert!(matches!(rx.try_read_at_most(&ring, 1), Err(RxError::Drained(_))));

    // closing
    rx.close(&mut ring);
    assert!(matches!(rx.try_read_at_most(&ring, 1), Err(RxError::Closing)));
    assert!(matches!(rx.try_peek(&ring), Err(RxError::Closing)));

    tx.close(&mut ring);
    // `Closing` is reported only when the ring is full as well.
    let mut segm = tx
        .try_write_at_most(&ring, 1)
        .expect("write while closing still has space");
    fill_segm(&mut ring, &mut segm, &[0u8]);
    segm.commit(&mut ring);
}

/// The ring is a direct pipe: demands in, segments out.
#[test]
fn tr_ring_buffer_trait() {
    let mut ring = RingBuffer::try_new(vec![0u8; RING_CAP]).unwrap();
    assert_eq!(ring.capacity(), RING_CAP);
    assert_eq!(ring.data_size(), 0);
    let (mut tx, mut rx) = ring.split();

    let mut segm = tx.try_write(&ring, &Demand::less_than(4)).expect("try_write failed");
    fill_segm(&mut ring, &mut segm, &(0..4).map(seq_byte).collect::<Vec<_>>());
    segm.commit(&mut ring);
    assert_eq!(tx.data_size(&ring), 4);

    let mut segm = rx.try_read(&ring, &Demand::less_than(16)).expect("try_read failed");
    let n = segm.least_count();
    let got: Vec<u8> = take_segm(&ring, &mut segm, n);
    segm.commit(&mut ring);
    assert_eq!(got, vec![0, 1, 2, 3]);

    let mut segm = tx.try_write(&ring, &Demand::less_than(4)).expect("write 4 more failed");
    fill_segm(&mut ring, &mut segm, &[4, 5, 6, 7]);
    segm.commit(&mut ring);
    let segm = rx.try_peek(&ring).expect("try_peek failed");
    let slices: Vec<&[u8]> = segm.iter_slices(&ring);
    assert_eq!(slices[0][0], 4);

    tx.release(&mut ring);
    rx.release(&mut ring);
    assert_eq!(ring.capacity(), RING_CAP);
}

/// The handoff to the kernel: regions in one piece and in two.
#[test]
fn iovec_take_put() {
    let mut ring = RingBuffer::try_new(vec![0u8; RING_CAP]).unwrap();

    // write 6 bytes
    let (s, t) = ring.try_write_at(6).unwrap();
    let mut segm = ring.write_segm(s, t);
    let n = segm.least_count();
    fill_segm(&mut ring, &mut segm, &(0..n).map(|i| (10 + i) as u8).collect::<Vec<_>>());
    segm.commit(&mut ring);

    // in one piece
    let SendSlices(a, b) = ring.take_send_iovecs().expect("send iovecs");
    assert_eq!(a, &[10, 11, 12, 13, 14, 15]);
    assert!(b.is_empty());
    ring.put_back_send(6);
    assert_eq!(ring.data_size(), 0);

    // in two pieces
    let mut off = 0usize;
    while off < RING_CAP - 1 {
        let (s, t) = ring.try_write_at(RING_CAP - off).unwrap();
        let mut segm = ring.write_segm(s, t);
        let len = segm.least_count();
        let data: Vec<u8> = (0..len).map(|i| (20 + off + i) as u8).collect();
        fill_segm(&mut ring, &mut segm, &data);
        segm.commit(&mut ring);
        off += len;
    }
    let SendSlices(a, b) = ring.take_send_iovecs().expect("wrapped send iovecs");
    assert!(!a.is_empty() && !b.is_empty(), "the region must wrap");
    let mut all = Vec::new();
    all.extend_from_slice(a);
    all.extend_from_slice(b);
    assert_eq!(all.len(), RING_CAP - 1);
    for (i, x) in all.iter().enumerate() {
        assert_eq!(*x, 20 + i as u8);
    }
    ring.put_back_send(all.len());

    // the writable region, filled by the kernel
    let RecvSlices(a, b) = ring.take_recv_iovecs().expect("recv iovecs");
    let n = a.len() + b.len();
    assert_eq!(n, RING_CAP - 1);
    for (i, slot) in a.iter_mut().enumerate() {
        *slot = pat_byte(i);
    }
    let a_len = a.len();
    for (i, slot) in b.iter_mut().enumerate() {
        *slot = pat_byte(a_len + i);
    }
    ring.put_back_recv(n);
    assert_eq!(ring.data_size(), n);
    let SendSlices(c, _) = ring.take_send_iovecs().unwrap();
    assert_eq!(&c[..4], &[0, 7, 14, 21]);
    ring.put_back_send(0);
}

/// A reservation by the runtime blocks the user at the same end.
#[test]
fn kernel_reservation_blocks_user() {
    let (mut ring, mut tx, mut rx) = make_ring();

    let mut segm = tx.try_write_at_most(&ring, 4).unwrap();
    fill_segm(&mut ring, &mut segm, &[1, 2, 3, 4]);
    segm.commit(&mut ring);

    assert!(ring.take_send_iovecs().is_some());
    assert!(matches!(rx.try_read_at_most(&ring, 1), Err(RxError::Drained(_))));
    ring.put_back_send(4);
    assert!(matches!(rx.try_read_at_most(&ring, 1), Err(RxError::Drained(_))));

    let RecvSlices(a, _b) = ring.take_recv_iovecs().unwrap();
    a[0] = 42;
    a[1] = 43;
    a[2] = 44;
    assert!(matches!(tx.try_write_at_most(&ring, 1), Err(TxError::Stuffed(_))));
    ring.put_back_recv(3);

    let mut segm = rx.try_read_at_most(&ring, 3).unwrap();
    let got = take_segm(&ring, &mut segm, 3);
    assert_eq!(got, vec![42, 43, 44]);
    segm.commit(&mut ring);
}

/// The two halves of one ring.
#[test]
fn split_borrowed_halves() {
    let mut ring = RingBuffer::try_new(vec![0u8; RING_CAP]).unwrap();
    let (mut tx, mut rx) = ring.split();
    let mut segm = tx.try_write_at_most(&ring, 2).unwrap();
    fill_segm(&mut ring, &mut segm, &[1, 2]);
    segm.commit(&mut ring);
    let mut segm = rx.try_read_at_most(&ring, 2).unwrap();
    let got = take_segm(&ring, &mut segm, 2);
    assert_eq!(got, vec![1, 2]);
    segm.commit(&mut ring);
}

/// The ring is `Send + Sync` when its items are.
#[test]
fn ring_is_send_sync() {
    fn assert_send_sync<T: Send + Sync>() {}
    assert_send_sync::<Arc<RingBuffer<u8>>>();
}

/// One writer and one reader that take turns.
#[test]
fn spsc_multithread() {
    const TOTAL: usize = 500;
    let (mut ring, mut tx, mut rx) = make_ring();
    let mut written = 0usize;
    let mut read = 0usize;
    while read < TOTAL {
        if written < TOTAL {
            if let Ok(mut segm) = tx.try_write_at_most(&ring, 5) {
                let len = segm.least_count();
                let data: Vec<u8> = (0..len).map(|i| seq_byte(written + i)).collect();
                fill_segm(&mut ring, &mut segm, &data);
                segm.commit(&mut ring);
                written += len;
            }
        }
        if let Ok(mut segm) = rx.try_read_at_most(&ring, 9) {
            let len = segm.least_count();
            let got = take_segm(&ring, &mut segm, len);
            for (i, b) in got.iter().enumerate() {
                assert_eq!(*b, seq_byte(read + i), "reader mismatch at {read}+{i}");
            }
            segm.commit(&mut ring);
            read += len;
        }
    }
    tx.close(&mut ring);
    rx.close(&mut ring);
    assert_eq!(read, TOTAL);
}

/// The sole owner of a shared ring may split it, and the halves work.
#[test]
fn split_shared_succeeds_for_sole_owner() {
    let ring = shared(RING_CAP);
    let (mut tx, mut rx) = RingBuffer::<u8>::try_split_shared(
        ring,
        Arc::strong_count,
        Arc::weak_count,
    )
    .expect("the sole owner may split");

    let shared = tx.shared().clone();
    let mut ring = shared.lock().unwrap();
    let mut segm = tx.try_write_at_most(&ring, 2).expect("write 2");
    fill_segm(&mut ring, &mut segm, &[1u8, 2]);
    segm.commit(&mut ring);
    let mut segm = rx.try_read_at_most(&ring, 2).expect("read 2");
    let got = take_segm(&ring, &mut segm, 2);
    assert_eq!(got, vec![1, 2]);
    segm.commit(&mut ring);
}

/// With another owner about, splitting is refused and the handle comes back.
#[test]
fn split_shared_rejects_non_sole_owner() {
    let ring = shared(RING_CAP);
    let clone = ring.clone();

    let err = match RingBuffer::<u8>::try_split_shared(ring, Arc::strong_count, Arc::weak_count) {
        Result::Err(e) => e,
        Result::Ok(_) => panic!("must be refused"),
    };
    assert!(Arc::ptr_eq(&err, &clone));
    assert_eq!(err.lock().unwrap().capacity(), RING_CAP);
}

/// A ring that was split gives no second pair until both halves are gone.
#[test]
fn split_shared_rejects_second_pair_until_halves_dropped() {
    let ring = shared(RING_CAP);
    let (tx, rx) = RingBuffer::<u8>::try_split_shared(ring, Arc::strong_count, Arc::weak_count)
        .expect("the sole owner may split");

    let driver = tx.shared().clone();
    let err = match RingBuffer::<u8>::try_split_shared(driver, Arc::strong_count, Arc::weak_count) {
        Result::Err(e) => e,
        Result::Ok(_) => panic!("no second pair"),
    };
    assert!(Arc::strong_count(&err) >= 2);

    let given = tx.release(&mut err.lock().unwrap());
    drop(given);
    let given = rx.release(&mut err.lock().unwrap());
    drop(given);
    let (mut tx2, mut rx2) =
        RingBuffer::<u8>::try_split_shared(err, Arc::strong_count, Arc::weak_count)
            .expect("may split again");
    let shared = tx2.shared().clone();
    let mut ring = shared.lock().unwrap();
    let mut segm = tx2.try_write_at_most(&ring, 1).expect("write 1");
    fill_segm(&mut ring, &mut segm, &[7u8]);
    segm.commit(&mut ring);
    let mut segm = rx2.try_read_at_most(&ring, 1).expect("read 1");
    let got = take_segm(&ring, &mut segm, 1);
    assert_eq!(got, vec![7]);
    segm.commit(&mut ring);
}

/// Items move from ring to ring, to a buffer and from a buffer, in order and exactly
/// once.
#[test]
fn recl_segm_move_items_trait_defaults() {
    // from ring to ring
    let (mut src, mut src_tx, mut src_rx) = make_ring();
    let (mut dst, mut dst_tx, mut dst_rx) = make_ring();
    let expect: Vec<u8> = (0..15).collect();
    write_bytes(&mut src, &mut src_tx, &expect);
    let mut src_segm = src_rx.try_read_at_most(&src, 15).expect("source");
    let mut dst_segm = dst_tx.try_write_at_most(&dst, 15).expect("target");
    let mut moved = 0usize;
    while !src_segm.is_empty() && !dst_segm.is_empty() {
        let piece = src_segm.as_segm_ref(&src);
        let n = dst_segm.move_items_from_buff(&mut dst, piece);
        src_segm.consume(n);
        moved += n;
    }
    assert_eq!(moved, 15);
    src_segm.commit(&mut src);
    dst_segm.commit(&mut dst);
    assert_eq!(src.data_size(), 0);
    assert_eq!(dst.data_size(), 15);
    let mut got = Vec::new();
    while let Ok(mut segm) = dst_rx.try_read_at_most(&dst, 8) {
        let len = segm.least_count();
        got.extend_from_slice(&take_segm(&dst, &mut segm, len));
        segm.commit(&mut dst);
    }
    assert_eq!(got, expect);

    // to a buffer
    let (mut src, mut src_tx, mut src_rx) = make_ring();
    write_bytes(&mut src, &mut src_tx, &expect);
    let mut src_segm = src_rx.try_read_at_most(&src, 15).expect("source");
    let mut buf = [0u8; 15];
    assert_eq!(src_segm.move_items_to_buff(&src, &mut buf), 15);
    assert_eq!(&buf[..], &expect[..]);
    src_segm.commit(&mut src);
    assert_eq!(src.data_size(), 0);

    // from a buffer
    let (mut dst, mut dst_tx, mut dst_rx) = make_ring();
    let expect: Vec<u8> = (100..115).collect();
    let mut dst_segm = dst_tx.try_write_at_most(&dst, 15).expect("target");
    assert_eq!(dst_segm.move_items_from_buff(&mut dst, &expect), 15);
    dst_segm.commit(&mut dst);
    let mut got = Vec::new();
    while let Ok(mut segm) = dst_rx.try_read_at_most(&dst, 8) {
        let len = segm.least_count();
        got.extend_from_slice(&take_segm(&dst, &mut segm, len));
        segm.commit(&mut dst);
    }
    assert_eq!(got, expect);
}

/// A cancelled wait ends with the error of the end it waits at, and leaves no trace.
#[test]
fn cancelled_waits_end_at_once() {
    let (mut ring, _tx, _rx) = make_ring();
    let mut fut = ReadAsync::new(1, 4).may_cancel_with(3);
    assert!(matches!(fut.poll(&mut ring, 0, false), Poll::Pending));
    assert!(matches!(fut.poll(&mut ring, 0, true), Poll::Ready(Err(_))));
    let woken = ring.advance_write(1);
    assert!(woken.rx_user.is_none());

    let mut ring = RingBuffer::try_new(vec![0u8; 2]).unwrap();
    ring.advance_write(1);
    let mut fut = WriteAsync::new(1, 4).may_cancel_with(4);
    assert!(matches!(fut.poll(&mut ring, 0, false), Poll::Pending));
    assert!(matches!(fut.poll(&mut ring, 0, true), Poll::Ready(Err(_))));
}
