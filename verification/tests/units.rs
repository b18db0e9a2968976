//! The small parts of the ring: the state word, waker slots, demands, parking, and what
//! holds of the ring as a whole on concrete values.

use buffex::ring_buffer::amount::Demand;
use buffex::ring_buffer::demand::{DemandSlot, ParkSide, Waiter};
use buffex::ring_buffer::errors::{RxError, TxError};
use buffex::ring_buffer::futures::{
    ParkFuture, PeekAsync, ReadAsync, WaitFlushed, WaitRxIdle, WaitTxIdle, WriteAsync,
};
use buffex::ring_buffer::park::{Park, ParkCheck, Poll};
use buffex::ring_buffer::ring::{RecvSlices, RingBuffer, SendSlices};
use buffex::ring_buffer::word::{
    advanced_reader, advanced_writer, has_flag, pack, put_back_received, put_back_sent, unpack,
    FLAG_MASK, MAX_CAPACITY, POS_BITS, POS_MASK, RECV_IN_FLIGHT, RX_CLOSED, SEND_IN_FLIGHT,
    TX_CLOSED,
};

fn ring_of(cap: usize) -> RingBuffer<u8> {
    RingBuffer::try_new(vec![0u8; cap]).unwrap()
}

fn put(ring: &mut RingBuffer<u8>, data: &[u8]) {
    let (start, take) = ring.try_write_at(data.len()).unwrap();
    assert_eq!(take, data.len());
    let mut segm = ring.write_segm(start, take);
    assert_eq!(segm.move_items_from_buff(ring, data), data.len());
    segm.commit(ring);
}

fn get(ring: &mut RingBuffer<u8>, len: usize) -> Vec<u8> {
    let (start, take) = ring.try_read_at(len).unwrap();
    assert_eq!(take, len);
    let mut segm = ring.read_segm(start, take);
    let mut out = vec![0u8; len];
    assert_eq!(segm.move_items_to_buff(ring, &mut out), len);
    segm.commit(ring);
    out
}

#[test]
fn layout_of_the_state_word() {
    if usize::BITS == 64 {
        assert_eq!(POS_BITS, 30);
        assert_eq!(MAX_CAPACITY, 0x3FFF_FFFF);
        assert_eq!(FLAG_MASK, 0xF000_0000_0000_0000u64 as usize);
    }
    assert_eq!(POS_MASK, MAX_CAPACITY);
    assert_eq!(pack(5, 9), 5 | (9 << POS_BITS));
    for (rp, wp) in [(0, 0), (1, 2), (MAX_CAPACITY, 0), (0, MAX_CAPACITY), (77, 12345)] {
        assert_eq!(unpack(pack(rp, wp)), (rp, wp));
        for flag in [TX_CLOSED, RX_CLOSED, SEND_IN_FLIGHT, RECV_IN_FLIGHT] {
            assert!(!has_flag(pack(rp, wp), flag));
            assert!(has_flag(pack(rp, wp) | flag, flag));
            assert_eq!(unpack(pack(rp, wp) | flag), (rp, wp));
        }
    }
}

#[test]
fn positions_wrap_and_flags_stay() {
    let word = pack(6, 3) | TX_CLOSED | RECV_IN_FLIGHT;
    assert_eq!(advanced_writer(word, 8, 2), pack(6, 5) | TX_CLOSED | RECV_IN_FLIGHT);
    assert_eq!(advanced_reader(word, 8, 4), pack(2, 3) | TX_CLOSED | RECV_IN_FLIGHT);
    let word = pack(6, 3) | SEND_IN_FLIGHT | RX_CLOSED;
    assert_eq!(put_back_sent(word, 8, 5), pack(3, 3) | RX_CLOSED);
    let word = pack(6, 3) | RECV_IN_FLIGHT | RX_CLOSED;
    assert_eq!(put_back_received(word, 8, 2), pack(6, 5) | RX_CLOSED);
}

#[test]
fn capacities_that_are_refused() {
    assert!(matches!(RingBuffer::<u8>::try_new(vec![]), Err(0)));
    assert!(matches!(RingBuffer::try_new(vec![0u8]), Err(1)));
    let ring = ring_of(2);
    assert_eq!(ring.capacity(), 2);
    assert_eq!(ring.free_size(), 1);
    assert_eq!(ring.data_size(), 0);
    assert_eq!(ring.buffer_ref(), &[0, 0]);
}

#[test]
fn sizes_add_up_over_a_turn() {
    let mut ring = ring_of(5);
    for i in 0..23u8 {
        assert_eq!(ring.data_size() + ring.free_size(), 4);
        put(&mut ring, &[i, i + 1]);
        assert_eq!(ring.data_size(), 2);
        assert_eq!(get(&mut ring, 2), vec![i, i + 1]);
        assert_eq!(ring.reader_pos(), ring.writer_pos());
    }
}

#[test]
fn offers_name_the_region() {
    let mut ring = ring_of(8);
    assert_eq!(ring.try_write_at(3), Ok((0, 3)));
    assert_eq!(ring.try_write_at(100), Ok((0, 7)));
    assert!(matches!(ring.try_read_at(1), Err(RxError::Drained(_))));
    assert!(matches!(ring.try_peek_at(), Err(RxError::Drained(_))));
    ring.advance_write(6);
    assert_eq!(ring.try_read_at(4), Ok((0, 4)));
    assert_eq!(ring.try_peek_at(), Ok((0, 6)));
    ring.advance_read(5);
    assert_eq!(ring.try_read_at(9), Ok((5, 1)));
    assert_eq!(ring.try_write_at(9), Ok((6, 6)));
    ring.advance_write(6);
    assert!(matches!(ring.try_write_at(1), Err(TxError::Stuffed(_))));
    ring.close_tx();
    assert!(matches!(ring.try_write_at(1), Err(TxError::Closing)));
    ring.advance_read(1);
    assert_eq!(ring.try_write_at(1), Ok((4, 1)));
}

#[test]
fn pieces_of_a_wrapped_segment() {
    let mut ring = ring_of(8);
    ring.advance_write(6);
    ring.advance_read(6);
    let (start, take) = ring.try_write_at(5).unwrap();
    let mut segm = ring.write_segm(start, take);
    assert_eq!(segm.capacity(), 5);
    {
        let pieces = segm.iter_slices_mut(&mut ring);
        assert_eq!(pieces.iter().map(|p| p.len()).collect::<Vec<_>>(), vec![2, 3]);
        for (k, piece) in pieces.into_iter().enumerate() {
            for (i, slot) in piece.iter_mut().enumerate() {
                *slot = (10 * k + i) as u8;
            }
        }
    }
    assert_eq!(segm.as_segm_mut(&mut ring).len(), 2);
    assert!(segm.take_segm_mut(&mut ring, &Demand::at_least(6)).is_none());
    assert_eq!(segm.take_segm_mut(&mut ring, &Demand::less_than(1)).unwrap().len(), 1);
    segm.consume(5);
    assert!(segm.is_empty());
    segm.commit(&mut ring);
    assert_eq!(ring.data_size(), 5);

    let (start, take) = ring.try_read_at(5).unwrap();
    let mut segm = ring.read_segm(start, take);
    assert_eq!(segm.iter_slices(&ring), vec![&[0u8, 1][..], &[10u8, 11, 12][..]]);
    assert_eq!(segm.as_segm_ref(&ring), &[0, 1]);
    segm.consume(3);
    assert_eq!(segm.least_count(), 2);
    assert_eq!(segm.as_segm_ref(&ring), &[11, 12]);
    assert_eq!(segm.take_segm_ref(&ring, &Demand::between(1, 2)).unwrap(), &[11, 12]);
    segm.commit(&mut ring);
    // what was not consumed is still there
    assert_eq!(ring.data_size(), 2);
    assert_eq!(get(&mut ring, 2), vec![11, 12]);
}

#[test]
fn unfilled_slots_are_not_handed_over() {
    let mut ring = ring_of(8);
    let (start, take) = ring.try_write_at(6).unwrap();
    let mut segm = ring.write_segm(start, take);
    assert_eq!(segm.move_items_from_buff(&mut ring, &[1, 2]), 2);
    segm.commit(&mut ring);
    assert_eq!(ring.data_size(), 2);
    assert_eq!(get(&mut ring, 2), vec![1, 2]);
}

#[test]
fn writer_and_reader_segments_are_independent() {
    let mut ring = ring_of(8);
    put(&mut ring, &[1, 2, 3]);
    let (start, take) = ring.try_read_at(3).unwrap();
    let mut read = ring.read_segm(start, take);
    let (start, take) = ring.try_write_at(2).unwrap();
    let mut write = ring.write_segm(start, take);
    assert_eq!(write.move_items_from_buff(&mut ring, &[4, 5]), 2);
    let mut out = [0u8; 3];
    assert_eq!(read.move_items_to_buff(&ring, &mut out), 3);
    assert_eq!(out, [1, 2, 3]);
    read.commit(&mut ring);
    write.commit(&mut ring);
    assert_eq!(get(&mut ring, 2), vec![4, 5]);
}

#[test]
fn reservations_come_back_unused() {
    let mut ring = ring_of(8);
    put(&mut ring, &[1, 2, 3]);
    assert!(ring.has_tx_data());
    assert!(ring.take_send_iovecs().is_some());
    assert!(!ring.has_tx_data());
    assert!(ring.take_send_iovecs().is_none());
    ring.put_back_send(0);
    assert_eq!(ring.data_size(), 3);
    assert!(ring.has_recv_space());
    assert!(ring.take_recv_iovecs().is_some());
    assert!(!ring.has_recv_space());
    assert!(!ring.has_tx_space());
    assert!(ring.take_recv_iovecs().is_none());
    ring.put_back_recv(0);
    assert_eq!(ring.free_size(), 4);
    assert_eq!(get(&mut ring, 3), vec![1, 2, 3]);
    assert!(ring.take_send_iovecs().is_none());
}

#[test]
fn slices_of_a_region() {
    let mut ring = ring_of(4);
    put(&mut ring, &[1, 2, 3]);
    assert_eq!(get(&mut ring, 3), vec![1, 2, 3]);
    put(&mut ring, &[7, 8]);
    let SendSlices(a, b) = ring.readable_slices_(3, 2);
    assert_eq!((a, b), (&[7u8][..], &[8u8][..]));
    let RecvSlices(a, b) = ring.writable_slices_(1, 1);
    assert_eq!((a.len(), b.len()), (1, 0));
}

#[test]
fn waker_slots() {
    let mut slot = DemandSlot::new();
    assert_eq!(slot.signal(), None);
    let mut w = Waiter::new(4);
    assert_eq!(w.waker, None);
    slot.register(&w);
    assert_eq!(slot.signal(), None);
    w.waker = Some(11);
    slot.register(&w);
    slot.deregister(&Waiter::new(5));
    assert_eq!(slot.signal(), Some(11));
    assert_eq!(slot.signal(), None);
    slot.register(&w);
    slot.deregister(&w);
    assert_eq!(slot.signal(), None);
}

#[test]
fn demands() {
    assert_eq!(Demand::at_least(4).min(), Some(4));
    assert_eq!(Demand::at_least(4).max(), None);
    assert_eq!(Demand::at_least(4).max_len(), usize::MAX);
    assert_eq!(Demand::less_than(7).min_len(), 0);
    assert_eq!(Demand::less_than(7).max(), Some(7));
    let both = Demand::at_least(2).compromise(&Demand::less_than(5)).unwrap();
    assert_eq!((both.min(), both.max()), (Some(2), Some(5)));
    let tight = Demand::between(3, 9).compromise(&Demand::between(1, 6)).unwrap();
    assert_eq!((tight.min_len(), tight.max_len()), (3, 6));
    assert!(Demand::at_least(6).compromise(&Demand::less_than(5)).is_none());
}

#[test]
fn parked_tasks_are_woken_by_the_next_change() {
    let mut ring = ring_of(4);
    let mut reader = Park::new(1, ParkSide::RxUser, ParkCheck::RxReadable);
    assert_eq!(reader.poll(&mut ring, 21, 1), Poll::Pending);
    let mut flusher = WaitFlushed::new(2).into_future();
    assert_eq!(flusher.poll(&mut ring, 22), Poll::Pending);
    let woken = ring.advance_write(3);
    assert_eq!((woken.rx_user, woken.tx_runtime), (Some(21), Some(22)));
    assert_eq!((woken.tx_user, woken.rx_runtime), (None, None));
    assert_eq!(reader.poll(&mut ring, 21, 1), Poll::Ready(()));
    assert_eq!(flusher.poll(&mut ring, 22), Poll::Ready(()));

    let mut writer = Park::new(3, ParkSide::TxUser, ParkCheck::TxWritable);
    assert_eq!(writer.poll(&mut ring, 23, 1), Poll::Pending);
    let mut filler = WaitRxIdle::new(4).into_future();
    assert_eq!(filler.poll(&mut ring, 24), Poll::Pending);
    let woken = ring.advance_read(1);
    assert_eq!((woken.tx_user, woken.rx_runtime), (Some(23), Some(24)));
    assert_eq!(writer.poll(&mut ring, 23, 1), Poll::Ready(()));

    // a waiter that left is not woken
    ring.advance_write(1);
    assert_eq!(writer.poll(&mut ring, 25, 1), Poll::Pending);
    writer.deregister(&mut ring);
    assert_eq!(ring.advance_read(1).tx_user, None);
}

#[test]
fn closing_wakes_and_satisfies_those_who_wait_for_it() {
    let mut ring = ring_of(2);
    ring.advance_write(1);
    let mut idle = WaitTxIdle::new(1).into_future();
    assert_eq!(idle.poll(&mut ring, 5), Poll::Pending);
    assert_eq!(ring.close_tx().tx_user, Some(5));
    assert_eq!(idle.poll(&mut ring, 5), Poll::Ready(()));

    let mut ring = ring_of(2);
    let mut peeker = PeekAsync::new().into_future(3);
    assert!(matches!(peeker.poll(&mut ring, 6, false), Poll::Pending));
    assert_eq!(ring.close_rx().rx_user, Some(6));
    assert!(matches!(peeker.poll(&mut ring, 6, false), Poll::Ready(Err(RxError::Closing))));

    let mut ring = ring_of(2);
    let wait = ParkFuture::new(7, ParkSide::RxUser, ParkCheck::RxReadableAtLeast, 1);
    wait.abandon(&mut ring);
    assert_eq!(ring.advance_write(1).rx_user, None);
}

#[test]
fn checks_of_a_ring() {
    let mut ring = ring_of(4);
    for (check, held) in [
        (ParkCheck::TxWritable, true),
        (ParkCheck::TxIdle, true),
        (ParkCheck::RxReadable, false),
        (ParkCheck::RxPeekable, false),
        (ParkCheck::TxFlushed, false),
        (ParkCheck::RxIdle, true),
    ] {
        assert_eq!(check.check(&ring, 1), held);
    }
    assert!(ParkCheck::TxWritableAtLeast.check(&ring, 3));
    assert!(!ParkCheck::TxWritableAtLeast.check(&ring, 4));
    assert!(ring.has_free_at_least(3) && !ring.has_free_at_least(4));
    ring.advance_write(2);
    assert!(ParkCheck::RxReadableAtLeast.check(&ring, 2));
    assert!(!ParkCheck::RxReadableAtLeast.check(&ring, 3));
    assert!(ring.has_data_at_least(2) && !ring.has_data_at_least(3));
    assert!(ParkCheck::TxFlushed.check(&ring, 0));
    ring.close_rx();
    assert!(ParkCheck::RxReadableAtLeast.check(&ring, 3));
}

#[test]
fn futures_that_are_given_up_leave_the_slot() {
    let mut ring = ring_of(2);
    let mut read = ReadAsync::new(1, 1).into_future(9);
    assert!(matches!(read.poll(&mut ring, 1, true), Poll::Pending));
    read.abandon(&mut ring);
    assert_eq!(ring.advance_write(1).rx_user, None);
    let mut write = WriteAsync::new(1, 1).into_future(8);
    assert!(matches!(write.poll(&mut ring, 1, true), Poll::Pending));
    write.abandon(&mut ring);
    assert_eq!(ring.advance_read(1).tx_user, None);
}

#[test]
fn halves_close_their_end_when_released() {
    let mut ring = ring_of(4);
    let (tx, rx) = ring.split();
    assert!(!tx.is_closed(&ring));
    tx.release(&mut ring);
    assert!(ring.is_tx_closed() && !ring.is_rx_closed());
    rx.release(&mut ring);
    assert!(ring.is_rx_closed());

    let mut ring = ring_of(4);
    let mut tx = ring.split_tx();
    let rx = ring.split_rx();
    assert_eq!((tx.capacity(&ring), rx.capacity(&ring)), (4, 4));
    assert!(!tx.is_blocked_closing(&ring));
    ring.advance_write(3);
    assert!(tx.is_blocked_closing(&ring));
    ring.advance_read(2);
    assert!(!tx.is_blocked_closing(&ring));
    tx.close(&mut ring);
    assert!(tx.is_closed(&ring));
    assert!(tx.is_blocked_closing(&ring));
    assert!(!rx.is_drained_closing(&ring));
}

#[test]
fn one_half_of_a_shared_ring() {
    let ring = std::sync::Arc::new(std::sync::Mutex::new(ring_of(4)));
    let tx = RingBuffer::<u8>::try_split_shared_tx(ring, std::sync::Arc::strong_count).ok().unwrap();
    let again = tx.ring().clone();
    assert!(RingBuffer::<u8>::try_split_shared_rx(again, std::sync::Arc::strong_count).is_err());
}

#[test]
fn ends_advance_in_either_order() {
    let mut a = ring_of(8);
    let mut b = ring_of(8);
    for ring in [&mut a, &mut b] {
        put(ring, &[1, 2, 3, 4, 5]);
    }
    a.advance_write(2);
    a.advance_read(4);
    b.advance_read(4);
    b.advance_write(2);
    assert_eq!((a.reader_pos(), a.writer_pos()), (b.reader_pos(), b.writer_pos()));
    assert_eq!((a.reader_pos(), a.writer_pos()), (4, 7));
}

#[test]
fn change_after_registering_calls_the_waker() {
    let mut ring = ring_of(4);
    let mut park = Park::new(1, ParkSide::RxUser, ParkCheck::RxReadable);
    assert!(!ParkCheck::RxReadable.check(&ring, 1));
    park.arm(&mut ring, 9);
    // the runtime reserves room: nobody is woken, and nobody could go on
    assert!(ring.take_recv_iovecs().is_some());
    assert!(!ParkCheck::RxReadable.check(&ring, 1));
    // the bytes arrive
    assert_eq!(ring.put_back_recv(2).rx_user, Some(9));
    assert!(ParkCheck::RxReadable.check(&ring, 1));
}

#[test]
fn storage_comes_back() {
    let mut ring = ring_of(4);
    put(&mut ring, &[5, 6]);
    assert!(ring.take_send_iovecs().is_some());
    ring.put_back_send(2);
    assert_eq!(ring.into_buffer(), vec![5, 6, 0, 0]);
}
