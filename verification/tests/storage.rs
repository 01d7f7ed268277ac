use smolgnet::error::Error;
use smolgnet::storage::{MessagePool, MessageSlot, PacketBuffer, PacketMetadata, RingBuffer};

#[test]
fn ring_wraps_without_allocating() {
    let backing = vec![0u16; 3];
    let mut q = RingBuffer::new(backing);
    q.push_back(1).unwrap();
    q.push_back(2).unwrap();
    assert_eq!(q.pop_front(), Some(1));
    q.push_back(3).unwrap();
    q.push_back(4).unwrap();
    assert_eq!(q.pop_front(), Some(2));
    assert_eq!(q.pop_front(), Some(3));
    assert_eq!(q.pop_front(), Some(4));
}

#[test]
fn ring_reports_full_and_empty() {
    let mut q = RingBuffer::new(vec![0u8; 2]);
    assert!(q.is_empty());
    assert_eq!(q.front(), None);
    q.push_back(7).unwrap();
    q.push_back(8).unwrap();
    assert_eq!(q.free(), 0);
    assert_eq!(q.push_back(9), Err(Error::BufferFull));
    assert_eq!(q.front(), Some(&7));
    q.clear();
    assert_eq!(q.len(), 0);
    let mut empty = RingBuffer::new(Vec::<u8>::new());
    assert_eq!(empty.push_back(1), Err(Error::BufferFull));
}

#[test]
fn message_pool_is_caller_bounded() {
    let slots = vec![MessageSlot::<u8>::empty(); 2];
    let bytes = vec![0u8; 16];
    let mut pool = MessagePool::new(slots, bytes).unwrap();
    let a = pool.insert(7, b"hello").unwrap();
    assert_eq!(pool.get(a).unwrap(), (7, &b"hello"[..]));
    pool.insert(8, b"world").unwrap();
    assert_eq!(pool.insert(9, b"x"), Err(Error::BufferFull));
}

#[test]
fn message_pool_slots_are_reused_after_removal() {
    let mut pool = MessagePool::new(vec![MessageSlot::<u8>::empty(); 2], vec![0u8; 8]).unwrap();
    assert_eq!(pool.slot_size(), 4);
    assert_eq!(pool.insert(1, b"toolong"), Err(Error::MessageTooLarge));
    let a = pool.insert(1, b"abc").unwrap();
    let b = pool.insert(2, b"de").unwrap();
    assert_eq!(pool.used(), 2);
    assert_eq!(pool.free(), 0);
    assert_eq!(pool.set_meta(b, 5), Ok(()));
    assert_eq!(pool.meta(b), Some(5));
    let mut out = [0u8; 4];
    assert_eq!(pool.remove_into(a, &mut out), Ok((1, 3)));
    assert_eq!(&out[..3], b"abc");
    assert_eq!(pool.remove_into(a, &mut out), Err(Error::InvalidState));
    assert_eq!(pool.remove(9), Err(Error::InvalidField));
    assert_eq!(pool.find(|m| m == 5), Some(b));
    assert_eq!(pool.used_entries(), vec![(b, 5)]);
    assert_eq!(pool.insert(3, b"x"), Ok(a));
    pool.clear();
    assert_eq!(pool.used(), 0);
    assert!(MessagePool::<u8>::new(Vec::new(), vec![0u8; 4]).is_err());
}

#[test]
fn packet_buffer_wraps_payload_arena() {
    let meta = vec![PacketMetadata::<u8>::empty(); 3];
    let bytes = vec![0u8; 12];
    let mut q = PacketBuffer::new(meta, bytes);
    q.enqueue(1, b"aaaa").unwrap();
    q.enqueue(2, b"bbbb").unwrap();
    let mut out = [0u8; 8];
    assert_eq!(q.dequeue_into(&mut out).unwrap(), Some((1, 4)));
    q.enqueue(3, b"cccc").unwrap();
    assert_eq!(q.dequeue_into(&mut out).unwrap(), Some((2, 4)));
    assert_eq!(q.dequeue_into(&mut out).unwrap(), Some((3, 4)));
}

#[test]
fn packet_buffer_keeps_queued_bytes_when_the_arena_is_full() {
    let mut q = PacketBuffer::new(vec![PacketMetadata::<u8>::empty(); 4], vec![0u8; 12]);
    q.enqueue(1, b"aaaa").unwrap();
    q.enqueue(2, b"bbbb").unwrap();
    q.enqueue(3, b"cccc").unwrap();
    assert_eq!(q.drop_front(), Some(1));
    q.enqueue(4, b"dddd").unwrap();
    assert_eq!(q.used_payload_bytes(), 12);
    assert_eq!(q.free_payload_bytes(), 0);
    assert_eq!(q.enqueue(5, b"eeee"), Err(Error::BufferFull));
    let mut out = [0u8; 4];
    assert_eq!(q.dequeue_into(&mut out).unwrap(), Some((2, 4)));
    assert_eq!(&out, b"bbbb");
    assert_eq!(q.dequeue_into(&mut out).unwrap(), Some((3, 4)));
    assert_eq!(&out, b"cccc");
    assert_eq!(q.dequeue_into(&mut out).unwrap(), Some((4, 4)));
    assert_eq!(&out, b"dddd");
    assert_eq!(q.dequeue_into(&mut out).unwrap(), None);
}

#[test]
fn packet_buffer_reports_short_output_and_metadata_limits() {
    let mut q = PacketBuffer::new(vec![PacketMetadata::<u8>::empty(); 1], vec![0u8; 8]);
    assert!(q.is_empty());
    assert_eq!(q.enqueue(1, b"toolongforarena"), Err(Error::BufferFull));
    q.enqueue(1, b"abc").unwrap();
    assert_eq!(q.enqueue(2, b"d"), Err(Error::BufferFull));
    assert_eq!(q.peek(), Some((1, &b"abc"[..])));
    let mut small = [0u8; 2];
    assert_eq!(q.dequeue_into(&mut small), Err(Error::BufferFull));
    assert_eq!(q.len(), 1);
    q.clear();
    assert!(q.is_empty());
    assert_eq!(q.packet_capacity(), 1);
    assert_eq!(q.payload_capacity(), 8);
}
