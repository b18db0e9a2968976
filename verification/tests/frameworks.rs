//! The pipe and the kernel scenarios, driven step by step: each task is polled in turn
//! until all are done.

use buffex::ring_buffer::adapter::{ReadStep, WriteStep};
use buffex::ring_buffer::futures::{ReadFuture, WriteFuture};
use buffex::ring_buffer::park::Poll;
use buffex::ring_buffer::ring::{RecvSlices, RingBuffer, SendSlices};
use buffex::ring_buffer::rx::RingRx;
use buffex::ring_buffer::tx::RingTx;

const TOTAL: usize = 200;
const RING_CAP: usize = 16;

const PRODUCER: usize = 1;
const CONSUMER: usize = 2;

fn seq_byte(i: usize) -> u8 {
    (i % 256) as u8
}

fn pat_byte(i: usize) -> u8 {
    ((i * 7) % 256) as u8
}

fn make_ring() -> (RingBuffer<u8>, RingTx<()>, RingRx<()>) {
    let mut ring = RingBuffer::try_new(vec![0u8; RING_CAP]).unwrap();
    let (tx, rx) = ring.split();
    (ring, tx, rx)
}

/// Writes `seq_byte` data in small chunks, then closes the tx end.
struct Producer {
    tx: RingTx<()>,
    pending: Option<WriteFuture>,
    off: usize,
    done: bool,
}

impl Producer {
    fn new(tx: RingTx<()>) -> Self {
        Producer { tx, pending: None, off: 0, done: false }
    }

    fn poll(&mut self, ring: &mut RingBuffer<u8>) {
        while !self.done {
            if self.off == TOTAL {
                self.tx.close(ring);
                self.done = true;
                return;
            }
            let take = std::cmp::min(7, TOTAL - self.off);
            let mut fut = match self.pending.take() {
                Some(fut) => fut,
                None => self.tx.write_at_most_async(take).into_future(PRODUCER),
            };
            match fut.poll(ring, PRODUCER, false) {
                Poll::Pending => {
                    self.pending = Some(fut);
                    return;
                }
                Poll::Ready(Ok(mut segm)) => {
                    let n = segm.least_count();
                    assert!(n <= take);
                    let data: Vec<u8> = (0..n).map(|i| seq_byte(self.off + i)).collect();
                    assert_eq!(segm.move_items_from_buff(ring, &data), n);
                    segm.commit(ring);
                    self.off += n;
                }
                Poll::Ready(Err(_)) => panic!("[producer] write failed"),
            }
        }
    }
}

/// Reads until all expected bytes are there, then closes the rx end.
struct Consumer {
    rx: RingRx<()>,
    pending: Option<ReadFuture>,
    off: usize,
    byte_at: fn(usize) -> u8,
    done: bool,
}

impl Consumer {
    fn new(rx: RingRx<()>, byte_at: fn(usize) -> u8) -> Self {
        Consumer { rx, pending: None, off: 0, byte_at, done: false }
    }

    fn poll(&mut self, ring: &mut RingBuffer<u8>) {
        while !self.done {
            if self.off == TOTAL {
                self.rx.close(ring);
                self.done = true;
                return;
            }
            let take = std::cmp::min(11, TOTAL - self.off);
            let mut fut = match self.pending.take() {
                Some(fut) => fut,
                None => self.rx.read_at_most_async(take).into_future(CONSUMER),
            };
            match fut.poll(ring, CONSUMER, false) {
                Poll::Pending => {
                    self.pending = Some(fut);
                    return;
                }
                Poll::Ready(Ok(mut segm)) => {
                    let n = segm.least_count();
                    let mut got = vec![0u8; n];
                    assert_eq!(segm.move_items_to_buff(ring, &mut got), n);
                    segm.commit(ring);
                    for (i, b) in got.iter().enumerate() {
                        assert_eq!(*b, (self.byte_at)(self.off + i), "[consumer] mismatch");
                    }
                    self.off += n;
                }
                Poll::Ready(Err(_)) => panic!("[consumer] read failed"),
            }
        }
    }
}

/// The kernel's side of a write ring: takes what is readable and checks it.
fn drive_send(ring: &mut RingBuffer<u8>, verified: &mut usize) -> bool {
    let n = match ring.take_send_iovecs() {
        Some(SendSlices(a, b)) => {
            for x in a.iter().chain(b.iter()) {
                assert_eq!(*x, seq_byte(*verified), "[send driver] mismatch");
                *verified += 1;
            }
            a.len() + b.len()
        }
        None => return ring.is_tx_closed() && *verified == TOTAL,
    };
    ring.put_back_send(n);
    false
}

/// The kernel's side of a read ring: fills what is writable.
fn drive_recv(ring: &mut RingBuffer<u8>, filled: &mut usize) -> bool {
    let n = match ring.take_recv_iovecs() {
        Some(RecvSlices(a, b)) => {
            for (i, slot) in a.iter_mut().enumerate() {
                *slot = pat_byte(*filled + i);
            }
            let a_len = a.len();
            for (i, slot) in b.iter_mut().enumerate() {
                *slot = pat_byte(*filled + a_len + i);
            }
            a_len + b.len()
        }
        None => return ring.is_rx_closed(),
    };
    ring.put_back_recv(n);
    *filled += n;
    ring.is_rx_closed()
}

fn run_pipe_scenario() {
    let (mut ring, tx, rx) = make_ring();
    let mut producer = Producer::new(tx);
    let mut consumer = Consumer::new(rx, seq_byte);
    let mut turns = 0usize;
    while !(producer.done && consumer.done) {
        producer.poll(&mut ring);
        consumer.poll(&mut ring);
        turns += 1;
        assert!(turns < 1000, "the pipe is stuck");
    }
    assert!(ring.is_tx_closed());
    assert!(ring.is_rx_closed());
    assert_eq!(consumer.off, TOTAL);
}

fn run_kernel_scenario() {
    // the user writes, the kernel takes it out
    let (mut ring_out, tx_out, rx_out) = make_ring();
    rx_out.release(&mut ring_out);
    let mut producer = Producer::new(tx_out);
    let mut verified = 0usize;
    let mut turns = 0usize;
    while !drive_send(&mut ring_out, &mut verified) {
        producer.poll(&mut ring_out);
        turns += 1;
        assert!(turns < 1000, "the send driver is stuck");
    }
    assert_eq!(verified, TOTAL, "[send driver] not fully verified");

    // the kernel puts in, the user reads
    let (mut ring_in, tx_in, rx_in) = make_ring();
    tx_in.release(&mut ring_in);
    let mut consumer = Consumer::new(rx_in, pat_byte);
    let mut filled = 0usize;
    let mut turns = 0usize;
    while !drive_recv(&mut ring_in, &mut filled) {
        consumer.poll(&mut ring_in);
        turns += 1;
        assert!(turns < 1000, "the receive driver is stuck");
    }
    assert_eq!(consumer.off, TOTAL);
}

/// The pipe and the kernel scenarios.
#[test]
fn smol_shared_scenarios() {
    run_pipe_scenario();
    run_kernel_scenario();
}

/// Reading and writing bytes by polling, with a writer that fills the ring and a
/// reader that empties it.
#[test]
fn smol_async_traits() {
    let (mut ring, mut tx, mut rx) = make_ring();
    let data: Vec<u8> = (0..TOTAL).map(seq_byte).collect();
    let expected: Vec<u8> = (0..TOTAL).map(seq_byte).collect();
    let mut got = vec![0u8; TOTAL];

    let mut sent = 0usize;
    let mut received = 0usize;
    let mut woken_reader = 0usize;
    let mut woken_writer = 0usize;
    while received < TOTAL {
        while sent < TOTAL {
            match tx.poll_write(&mut ring, PRODUCER, &data[sent..]) {
                Poll::Ready(Ok((n, woken))) => {
                    assert!(n > 0, "poll_write returned 0");
                    sent += n;
                    if woken.rx_user == Some(CONSUMER) {
                        woken_reader += 1;
                    }
                }
                Poll::Ready(Err(_)) => panic!("write failed"),
                Poll::Pending => break,
            }
        }
        while received < TOTAL {
            match rx.poll_read(&mut ring, CONSUMER, &mut got[received..]) {
                Poll::Ready(Some((n, woken))) => {
                    assert!(n > 0, "poll_read returned 0 (unexpected EOF)");
                    received += n;
                    if woken.tx_user == Some(PRODUCER) {
                        woken_writer += 1;
                    }
                }
                Poll::Ready(None) => panic!("unexpected EOF"),
                Poll::Pending => break,
            }
        }
    }
    assert_eq!(got, expected);
    assert!(woken_reader > 0);
    assert!(woken_writer > 0);
    tx.release(&mut ring);
    rx.release(&mut ring);
    assert!(ring.is_tx_closed());
    assert!(ring.is_rx_closed());
}

/// Reading and writing bytes with the steps of a completion-based runtime.
#[test]
fn compio_async_traits() {
    let (mut ring, mut tx, mut rx) = make_ring();
    let data: Vec<u8> = (0..TOTAL).map(seq_byte).collect();
    let mut buf = vec![0u8; TOTAL];

    let mut sent = 0usize;
    let mut received = 0usize;
    while received < TOTAL {
        if sent < TOTAL {
            match tx.write(&mut ring, &data[sent..]) {
                WriteStep::Moved(count, _) => sent += count,
                WriteStep::Wait(..) => {}
                _ => panic!("write failed"),
            }
            if sent == TOTAL {
                tx.flush().expect("flush");
                tx.shutdown(&mut ring);
            }
        }
        match rx.read(&mut ring, &mut buf[received..]) {
            ReadStep::Moved(count, _) => received += count,
            ReadStep::Wait(..) => {}
            ReadStep::Eof => panic!("read failed"),
        }
    }
    assert_eq!(buf, data);
    assert!(ring.is_tx_closed());
    rx.close(&mut ring);
}

/// The same through the polling steps, down to the shutdown.
#[test]
fn tokio_async_traits() {
    let (mut ring, mut tx, mut rx) = make_ring();
    let data: Vec<u8> = (0..TOTAL).map(seq_byte).collect();
    let mut buf = vec![0u8; TOTAL];
    let mut sent = 0usize;
    let mut received = 0usize;
    while received < TOTAL {
        if sent < TOTAL {
            if let Poll::Ready(Ok((n, _))) = tx.poll_write(&mut ring, PRODUCER, &data[sent..]) {
                sent += n;
            }
            if sent == TOTAL {
                assert!(matches!(tx.poll_flush(), Poll::Ready(Ok(()))));
                assert!(matches!(tx.poll_shutdown(&mut ring), Poll::Ready(_)));
            }
        }
        if let Poll::Ready(Some((n, _))) = rx.poll_read(&mut ring, CONSUMER, &mut buf[received..]) {
            received += n;
        }
    }
    assert_eq!(buf, data);
    rx.close(&mut ring);
    let mut rest = [0u8; 1];
    match rx.poll_read(&mut ring, CONSUMER, &mut rest) {
        Poll::Ready(None) => {}
        _ => panic!("the end must be seen"),
    }
}

/// A writer that writes 5 at a time and a reader that reads 9 at a time, in turn.
#[test]
fn pipe_sync_threads() {
    let (mut ring, mut tx, mut rx) = make_ring();
    let mut written = 0usize;
    let mut read = 0usize;
    while read < TOTAL {
        if written < TOTAL {
            if let Ok(mut segm) = tx.try_write_at_most(&ring, 5) {
                let len = segm.least_count();
                let data: Vec<u8> = (0..len).map(|i| seq_byte(written + i)).collect();
                assert_eq!(segm.move_items_from_buff(&mut ring, &data), len);
                segm.commit(&mut ring);
                written += len;
                if written >= TOTAL {
                    tx.close(&mut ring);
                }
            }
        }
        if let Ok(mut segm) = rx.try_read_at_most(&ring, 9) {
            let len = segm.least_count();
            let mut got = vec![0u8; len];
            assert_eq!(segm.move_items_to_buff(&ring, &mut got), len);
            for (i, b) in got.iter().enumerate() {
                assert_eq!(*b, seq_byte(read + i), "[sync pipe] mismatch");
            }
            read += len;
            segm.commit(&mut ring);
        }
    }
    rx.close(&mut ring);
}
