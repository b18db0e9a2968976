//! The ring buffer driven through the methods of its two ends.

use buffex::ring_buffer::errors::{RxError, TxError};
use buffex::ring_buffer::ring::RingBuffer;
use buffex::ring_buffer::rx::RingRx;
use buffex::ring_buffer::segment::{ReclSliceMut, ReclSliceRef};
use buffex::ring_buffer::tx::RingTx;

struct Pipe {
    ring: RingBuffer<u8>,
    tx: RingTx<()>,
    rx: RingRx<()>,
}

fn make_ring(cap: usize) -> Pipe {
    let mut ring = RingBuffer::try_new(vec![0u8; cap]).expect("valid ring capacity");
    let (tx, rx) = ring.split();
    Pipe { ring, tx, rx }
}

fn fill_segm(ring: &mut RingBuffer<u8>, segm: &mut ReclSliceMut, data: &[u8]) {
    assert!(data.len() <= segm.least_count());
    let moved = segm.move_items_from_buff(ring, data);
    assert_eq!(moved, data.len());
}

fn take_segm(ring: &RingBuffer<u8>, segm: &mut ReclSliceRef, len: usize) -> Vec<u8> {
    assert!(len <= segm.least_count());
    let mut dst = vec![0u8; len];
    let moved = segm.move_items_to_buff(ring, &mut dst);
    assert_eq!(moved, len);
    dst
}

impl Pipe {
    fn write_all(&mut self, data: &[u8]) {
        let mut off = 0usize;
        while off < data.len() {
            let mut segm = self
                .tx
                .try_write_at_most(&self.ring, data.len() - off)
                .expect("expected writable space");
            let n = segm.least_count();
            assert!(n > 0);
            fill_segm(&mut self.ring, &mut segm, &data[off..off + n]);
            segm.commit(&mut self.ring);
            off += n;
        }
    }

    fn read_all(&mut self, len: usize) -> Vec<u8> {
        let mut out = Vec::with_capacity(len);
        while out.len() < len {
            let mut segm = self
                .rx
                .try_read_at_most(&self.ring, len - out.len())
                .expect("expected readable data");
            let n = segm.least_count();
            assert!(n > 0);
            out.extend(take_segm(&self.ring, &mut segm, n));
            segm.commit(&mut self.ring);
        }
        out
    }
}

fn seq_byte(i: usize) -> u8 {
    (i % 256) as u8
}

/// Single-element round trip.
#[test]
fn single_byte_roundtrip() {
    let mut pipe = make_ring(4);

    let mut segm = pipe.tx.try_write_at_most(&pipe.ring, 1).expect("write one");
    fill_segm(&mut pipe.ring, &mut segm, &[42]);
    segm.commit(&mut pipe.ring);

    assert_eq!(pipe.rx.data_size(&pipe.ring), 1);
    let mut segm = pipe.rx.try_read_at_most(&pipe.ring, 1).expect("read one");
    let got = take_segm(&pipe.ring, &mut segm, 1);
    segm.commit(&mut pipe.ring);

    assert_eq!(got, vec![42]);
    assert!(matches!(pipe.rx.try_read_at_most(&pipe.ring, 1), Err(RxError::Drained(_))));
}

/// Full ring rejects writes; reading frees space and allows the next write.
#[test]
fn full_then_read_then_write_again() {
    let mut pipe = make_ring(4);
    pipe.write_all(&[1, 2, 3]);
    assert_eq!(pipe.tx.free_size(&pipe.ring), 0);
    assert!(matches!(pipe.tx.try_write_at_most(&pipe.ring, 1), Err(TxError::Stuffed(_))));

    let first = pipe.read_all(1);
    assert_eq!(first, vec![1]);
    assert_eq!(pipe.tx.free_size(&pipe.ring), 1);

    let mut segm = pipe.tx.try_write_at_most(&pipe.ring, 1).expect("space after read");
    fill_segm(&mut pipe.ring, &mut segm, &[4]);
    segm.commit(&mut pipe.ring);

    let rest = pipe.read_all(3);
    assert_eq!(rest, vec![2, 3, 4]);
}

/// After a partial read, a write crosses the end of the backing buffer and the reader
/// still observes linear order.
#[test]
fn wrapped_write_read_smoke() {
    let mut pipe = make_ring(8);

    pipe.write_all(&[0, 1, 2, 3, 4, 5, 6]);
    assert_eq!(pipe.tx.data_size(&pipe.ring), 7);

    let first = pipe.read_all(2);
    assert_eq!(first, vec![0, 1]);
    assert_eq!(pipe.tx.data_size(&pipe.ring), 5);

    // This write wraps around the end of the buffer.
    let mut segm = pipe.tx.try_write_at_most(&pipe.ring, 2).expect("wrapped write");
    assert_eq!(segm.least_count(), 2);
    fill_segm(&mut pipe.ring, &mut segm, &[7, 8]);
    segm.commit(&mut pipe.ring);

    let rest = pipe.read_all(7);
    assert_eq!(rest, vec![2, 3, 4, 5, 6, 7, 8]);
    assert!(matches!(pipe.rx.try_read_at_most(&pipe.ring, 1), Err(RxError::Drained(_))));
}

/// After the producer closes and the consumer drains the ring, the drained-closing
/// state becomes visible and further reads report closing.
#[test]
fn close_and_drain_smoke() {
    let mut pipe = make_ring(4);
    pipe.write_all(&[1, 2, 3]);
    pipe.tx.close(&mut pipe.ring);

    let got = pipe.read_all(3);
    assert_eq!(got, vec![1, 2, 3]);

    pipe.rx.close(&mut pipe.ring);
    assert!(pipe.rx.is_drained_closing(&pipe.ring));
    assert!(matches!(pipe.rx.try_read_at_most(&pipe.ring, 1), Err(RxError::Closing)));
}

/// Peeking must not consume data.
#[test]
fn peek_does_not_consume_external_api() {
    let mut pipe = make_ring(8);
    pipe.write_all(&[10, 11, 12]);

    let peeked = pipe.rx.try_peek(&pipe.ring).expect("peek should work");
    let slices: Vec<&[u8]> = peeked.iter_slices(&pipe.ring);
    assert_eq!(slices, vec![&[10u8, 11, 12][..]]);
    assert!(peeked.commit(&mut pipe.ring).is_none());

    assert_eq!(pipe.rx.data_size(&pipe.ring), 3, "peek must not consume");
    let got = pipe.read_all(3);
    assert_eq!(got, vec![10, 11, 12]);
}

/// The producer writes 16, 15, .., 1 bytes at a time, the consumer reads 1, 2, .., 16:
/// all bytes arrive in order.
#[test]
fn producer_decreasing_consumer_increasing_threaded() {
    const N: usize = 16;
    const CAP: usize = 64;
    let total = N * (N + 1) / 2;

    let mut pipe = make_ring(CAP);
    let mut written = 0usize;
    let mut k_write = N;
    let mut read = 0usize;
    let mut k_read = 1usize;
    while k_read <= N {
        if k_write >= 1 && pipe.tx.free_size(&pipe.ring) >= k_write {
            let data: Vec<u8> = (written..written + k_write).map(seq_byte).collect();
            let mut segm = pipe.tx.try_write_at_most(&pipe.ring, k_write).expect("space");
            assert_eq!(segm.least_count(), k_write, "producer should get exactly {k_write}");
            fill_segm(&mut pipe.ring, &mut segm, &data);
            segm.commit(&mut pipe.ring);
            written += k_write;
            k_write -= 1;
            if k_write == 0 {
                pipe.tx.close(&mut pipe.ring);
            }
        }
        if pipe.rx.data_size(&pipe.ring) >= k_read {
            let mut segm = pipe.rx.try_read_at_most(&pipe.ring, k_read).expect("data");
            assert_eq!(segm.least_count(), k_read, "consumer should get exactly {k_read}");
            let got = take_segm(&pipe.ring, &mut segm, k_read);
            segm.commit(&mut pipe.ring);
            for (i, b) in got.iter().enumerate() {
                assert_eq!(*b, seq_byte(read + i), "data mismatch at {read}+{i}");
            }
            read += k_read;
            k_read += 1;
        }
    }
    assert_eq!(read, total);
    pipe.rx.close(&mut pipe.ring);
}

/// A larger load with varying chunk sizes on both sides.
#[test]
fn varying_chunk_multithreaded_load() {
    const TOTAL: usize = 2000;
    const CAP: usize = 64;

    let mut pipe = make_ring(CAP);
    let mut written = 0usize;
    let mut k_write = 1usize;
    let mut read = 0usize;
    let mut k_read = 13usize;
    while read < TOTAL {
        let n = std::cmp::min(k_write, TOTAL - written);
        if written < TOTAL && pipe.tx.free_size(&pipe.ring) >= n {
            let data: Vec<u8> = (written..written + n).map(seq_byte).collect();
            let mut segm = pipe.tx.try_write_at_most(&pipe.ring, n).expect("space");
            assert!(segm.least_count() >= n);
            fill_segm(&mut pipe.ring, &mut segm, &data);
            segm.commit(&mut pipe.ring);
            written += n;
            k_write = if k_write == 17 { 1 } else { k_write + 1 };
        }
        let n = std::cmp::min(k_read, TOTAL - read);
        if pipe.rx.data_size(&pipe.ring) >= n {
            let mut segm = pipe.rx.try_read_at_most(&pipe.ring, n).expect("data");
            let len = segm.least_count();
            let got = take_segm(&pipe.ring, &mut segm, len);
            segm.commit(&mut pipe.ring);
            for (i, b) in got.iter().enumerate() {
                assert_eq!(*b, seq_byte(read + i), "load mismatch at {read}+{i}");
            }
            read += len;
            k_read = if k_read == 29 { 1 } else { k_read + 1 };
        }
    }
    assert_eq!(read, TOTAL);
}
