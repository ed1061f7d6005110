use zeropool::{Block, Buf, BufferPool, PoolIds, PooledBuffer, TlsState};

fn new_pool() -> (BufferPool, TlsState) {
    let mut ids = PoolIds::new();
    (BufferPool::new(ids.issue(), 4), TlsState::new())
}

#[test]
fn test_pooled_buffer_deref() {
    let (mut pool, mut tls) = new_pool();
    let mut buffer = pool.get(&mut tls, 1024);

    assert_eq!(buffer.len(), 1024);
    buffer[0] = 42;
    assert_eq!(buffer[0], 42);
}

#[test]
fn test_pooled_buffer_auto_return() {
    let (pool, mut tls) = new_pool();
    let mut pool = pool.min_buffer_size(0);
    let cap = {
        let buffer = pool.get(&mut tls, 4096);
        let cap = buffer.capacity();
        buffer.release(&mut pool, &mut tls);
        cap
    };
    let buffer2 = pool.get(&mut tls, 4096);
    assert_eq!(buffer2.capacity(), cap, "Buffer was not reused");
}

#[test]
fn test_pooled_buffer_explicit_drop() {
    let (pool, mut tls) = new_pool();
    let mut pool = pool.min_buffer_size(0);
    let cap = {
        let buffer = pool.get(&mut tls, 4096);
        let cap = buffer.capacity();
        buffer.release(&mut pool, &mut tls);
        cap
    };
    let buffer2 = pool.get(&mut tls, 4096);
    assert_eq!(buffer2.capacity(), cap, "Buffer was not reused");
}

#[test]
fn test_pooled_buffer_as_ref() {
    let (mut pool, mut tls) = new_pool();
    let mut buffer = pool.get(&mut tls, 10);
    buffer[0] = 42;
    let slice: &[u8] = buffer.as_ref();
    assert_eq!(slice[0], 42);
}

#[test]
fn test_pooled_buffer_as_mut() {
    let (mut pool, mut tls) = new_pool();
    let mut buffer = pool.get(&mut tls, 10);
    let slice: &mut [u8] = buffer.as_mut();
    slice[0] = 42;
    assert_eq!(buffer[0], 42);
}

#[test]
fn test_pooled_buffer_debug() {
    let (mut pool, mut tls) = new_pool();
    let buffer = pool.get(&mut tls, 1024);
    let debug_str = buffer.debug_text();
    assert!(debug_str.contains("PooledBuffer"));
    assert!(debug_str.contains("len"));
    assert!(debug_str.contains("capacity"));
}

#[test]
fn buffer_test_into_inner() {
    let (mut pool, mut tls) = new_pool();
    let mut buffer = pool.get(&mut tls, 10);
    buffer[0] = 42;
    let vec = buffer.into_inner();
    assert_eq!(vec.len(), 10);
    assert_eq!(vec[0], 42);
}

#[test]
fn buffer_test_into_vec() {
    let (mut pool, mut tls) = new_pool();
    let mut buffer = pool.get(&mut tls, 5);
    buffer[0] = 123;
    let vec = buffer.into_vec();
    assert_eq!(vec.len(), 5);
    assert_eq!(vec[0], 123);
}

#[test]
fn test_into_inner_consumes_buffer() {
    let (mut pool, mut tls) = new_pool();
    let buffer = pool.get(&mut tls, 1024);
    let vec = buffer.into_inner();
    assert_eq!(vec.len(), 1024);
}

#[test]
fn test_from_pooled_buffer_for_vec() {
    let (mut pool, mut tls) = new_pool();
    let mut buffer = pool.get(&mut tls, 10);
    buffer[0] = 99;
    let vec: Vec<u8> = buffer.into();
    assert_eq!(vec[0], 99);
}

#[test]
fn buffer_test_io_write() {
    let (mut pool, mut tls) = new_pool();
    let mut buffer = pool.get(&mut tls, 0);
    assert!(buffer.is_empty());
    buffer.write_all(b"hello");
    assert_eq!(&*buffer, b"hello");
    assert_eq!(buffer.write(b" you"), 4);
    assert_eq!(&*buffer, b"hello you");
}

#[test]
fn a_grown_buffer_joins_the_class_of_its_capacity() {
    let (pool, mut tls) = new_pool();
    let mut pool = pool.min_buffer_size(0).track_stats(true);
    let mut buffer = pool.get(&mut tls, 4096);
    buffer.write_all(&vec![1; 20000]);
    assert!(buffer.capacity() >= 24096);
    buffer.release(&mut pool, &mut tls);
    let again = pool.get(&mut tls, 16384);
    assert_eq!(pool.stats().tls_hits, 1);
    assert!(again.capacity() >= 24096);
    assert!(again.iter().all(|b| *b == 0));
}

#[test]
fn a_grown_buffer_with_a_class_returns_to_it() {
    let (pool, mut tls) = new_pool();
    let mut pool = pool.min_buffer_size(0).track_stats(true);
    let mut buf = pool.allocate(&mut tls, 4096);
    buf.write_all(&vec![1; 20000]);
    let cap = buf.capacity();
    buf.release(&mut pool, &mut tls);
    let again = pool.allocate(&mut tls, 1);
    assert_eq!(pool.stats().tls_hits, 1);
    assert_eq!(again.capacity(), cap);
}

#[test]
fn a_wrapped_vector_comes_back() {
    let mut bytes: Vec<u8> = Vec::with_capacity(777);
    bytes.extend_from_slice(b"abc");
    let capacity = bytes.capacity();
    let mut buffer = PooledBuffer::new(Block::new(bytes));
    assert_eq!(buffer.capacity(), capacity);
    buffer[1] = b'x';
    let bytes = buffer.into_inner();
    assert_eq!(bytes, b"axc");
    assert_eq!(bytes.capacity(), capacity);
    let buf = Buf::new(Block::new(bytes), 0);
    assert_eq!(buf.capacity(), capacity);
    let bytes = buf.into_vec();
    assert_eq!(bytes, b"axc");
    assert_eq!(bytes.capacity(), capacity);
}

#[test]
fn oversize_pooled_buffers_are_discarded() {
    let (pool, mut tls) = new_pool();
    let mut pool = pool.min_buffer_size(0).track_stats(true);
    let buffer = pool.get(&mut tls, 128 * 1024 * 1024);
    buffer.release(&mut pool, &mut tls);
    let s = pool.stats();
    assert_eq!((s.oversize, s.puts, s.discards), (1, 1, 1));
    assert!(pool.is_empty());
    assert_eq!(tls.caches[7].len(), 0);
}

#[test]
fn the_largest_class_keeps_its_pooled_buffers() {
    let (pool, mut tls) = new_pool();
    let mut pool = pool.min_buffer_size(0).track_stats(true);
    pool.put(&mut tls, Block::with_room(vec![0; 64 * 1024 * 1024], 1));
    assert_eq!(pool.stats().discards, 0);
    assert_eq!(tls.caches[7].len(), 1);
}

#[test]
fn pooled_buffer_debug_text_is_exact() {
    let (mut pool, mut tls) = new_pool();
    let buffer = pool.get(&mut tls, 12);
    let expected = format!("PooledBuffer {{ len: 12, capacity: {} }}", buffer.capacity());
    assert_eq!(buffer.debug_text(), expected);
}
