use zeropool::{Allocator, Buf, HeapAllocator, PoolIds, TlsState, ZeroPool};

fn new_pool() -> (ZeroPool, TlsState) {
    let mut ids = PoolIds::new();
    (ZeroPool::new(ids.issue(), 4), TlsState::new())
}

#[test]
fn test_buf_deref() {
    let (mut pool, mut tls) = new_pool();
    let mut buf = pool.allocate(&mut tls, 1024);

    assert_eq!(buf.len(), 1024);
    buf[0] = 42;
    assert_eq!(buf[0], 42);
}

#[test]
fn test_buf_auto_return() {
    let (pool, mut tls) = new_pool();
    let mut pool = pool.min_buffer_size(0);
    let cap = {
        let buf = pool.allocate(&mut tls, 4096);
        let cap = buf.capacity();
        buf.release(&mut pool, &mut tls);
        cap
    };
    let buf2 = pool.allocate(&mut tls, 4096);
    assert_eq!(buf2.capacity(), cap, "Buffer was not reused");
}

#[test]
fn test_buf_explicit_drop() {
    let (pool, mut tls) = new_pool();
    let mut pool = pool.min_buffer_size(0);
    let cap = {
        let buf = pool.allocate(&mut tls, 4096);
        let cap = buf.capacity();
        buf.release(&mut pool, &mut tls);
        cap
    };
    let buf2 = pool.allocate(&mut tls, 4096);
    assert_eq!(buf2.capacity(), cap, "Buffer was not reused");
}

#[test]
fn test_buf_as_ref() {
    let (mut pool, mut tls) = new_pool();
    let mut buf = pool.allocate(&mut tls, 10);
    buf[0] = 42;
    let slice: &[u8] = buf.as_ref();
    assert_eq!(slice[0], 42);
}

#[test]
fn test_buf_as_mut() {
    let (mut pool, mut tls) = new_pool();
    let mut buf = pool.allocate(&mut tls, 10);
    let slice: &mut [u8] = buf.as_mut();
    slice[0] = 42;
    assert_eq!(buf[0], 42);
}

#[test]
fn test_buf_debug() {
    let (mut pool, mut tls) = new_pool();
    let buf = pool.allocate(&mut tls, 1024);
    let debug_str = buf.debug_text();
    assert!(debug_str.contains("Buf"));
    assert!(debug_str.contains("len"));
    assert!(debug_str.contains("capacity"));
}

#[test]
fn buf_debug_text_is_exact() {
    let (mut pool, mut tls) = new_pool();
    let buf = pool.allocate(&mut tls, 1024);
    let expected = format!("Buf {{ len: 1024, capacity: {} }}", buf.capacity());
    assert_eq!(buf.debug_text(), expected);
    let uninit = pool.alloc_uninit(&mut tls, 7);
    let expected = format!("BufUninit {{ len: 7, capacity: {} }}", uninit.capacity());
    assert_eq!(uninit.debug_text(), expected);
}

#[test]
fn buf_test_into_inner() {
    let (mut pool, mut tls) = new_pool();
    let mut buf = pool.allocate(&mut tls, 10);
    buf[0] = 42;
    let vec = buf.into_inner();
    assert_eq!(vec.len(), 10);
    assert_eq!(vec[0], 42);
}

#[test]
fn buf_test_into_vec() {
    let (mut pool, mut tls) = new_pool();
    let mut buf = pool.allocate(&mut tls, 5);
    buf[0] = 123;
    let vec = buf.into_vec();
    assert_eq!(vec.len(), 5);
    assert_eq!(vec[0], 123);
}

#[test]
fn test_into_inner_consumes() {
    let (mut pool, mut tls) = new_pool();
    let buf = pool.allocate(&mut tls, 1024);
    let vec = buf.into_inner();
    assert_eq!(vec.len(), 1024);
}

#[test]
fn into_inner_keeps_the_buffer_out_of_the_pool() {
    let (pool, mut tls) = new_pool();
    let mut pool = pool.min_buffer_size(0).track_stats(true);
    let _vec = pool.allocate(&mut tls, 4096).into_inner();
    let _again = pool.allocate(&mut tls, 4096);
    let s = pool.stats();
    assert_eq!(s.allocations, 2);
    assert_eq!(s.puts, 0);
}

#[test]
fn test_from_buf_for_vec() {
    let (mut pool, mut tls) = new_pool();
    let mut buf = pool.allocate(&mut tls, 10);
    buf[0] = 99;
    let vec: Vec<u8> = buf.into();
    assert_eq!(vec[0], 99);
    assert_eq!(vec.len(), 10);
}

#[test]
fn buf_test_io_write() {
    let (mut pool, mut tls) = new_pool();
    let mut buf = pool.allocate(&mut tls, 0);
    buf.write_all(b"hello");
    assert_eq!(&*buf, b"hello");
}

#[test]
fn write_reports_the_whole_length_and_appends() {
    let (mut pool, mut tls) = new_pool();
    let mut buf = pool.allocate(&mut tls, 2);
    assert_eq!(buf.write(b"xyz"), 3);
    assert_eq!(&*buf, b"\0\0xyz");
    assert_eq!(buf.write(b""), 0);
    assert_eq!(buf.len(), 5);
}

#[test]
fn writing_within_the_capacity_keeps_it() {
    let (mut pool, mut tls) = new_pool();
    let mut buf = pool.allocate(&mut tls, 0);
    let cap = buf.capacity();
    buf.write_all(&vec![7; cap]);
    assert_eq!(buf.capacity(), cap);
    assert_eq!(buf.len(), cap);
    buf.write_all(b"!");
    assert!(buf.capacity() > cap);
    assert_eq!(buf.len(), cap + 1);
}

#[test]
fn test_uninit_write_from_slice() {
    let (mut pool, mut tls) = new_pool();
    let buf = pool.alloc_uninit(&mut tls, 5).write_from_slice(b"hello");

    assert_eq!(&*buf, b"hello");
}

#[test]
fn test_uninit_as_uninit_mut() {
    let (mut pool, mut tls) = new_pool();
    let mut buf = pool.alloc_uninit(&mut tls, 3);
    let uninit = buf.as_uninit_mut();
    uninit[0] = b'a';
    uninit[1] = b'b';
    uninit[2] = b'c';

    let buf = buf.assume_init();
    assert_eq!(&*buf, b"abc");
}

#[test]
fn uninit_buffers_return_to_the_pool() {
    let (pool, mut tls) = new_pool();
    let mut pool = pool.min_buffer_size(0).track_stats(true);
    let buf = pool.alloc_uninit(&mut tls, 100);
    assert_eq!(buf.len(), 100);
    assert!(!buf.is_empty());
    assert!(buf.capacity() >= 4096);
    buf.release(&mut pool, &mut tls);
    let empty = pool.alloc_uninit(&mut tls, 0);
    assert!(empty.is_empty());
    assert_eq!(pool.stats().tls_hits, 1);
}

#[test]
fn recycled_buffers_are_zeroed() {
    let (pool, mut tls) = new_pool();
    let mut pool = pool.min_buffer_size(0).track_stats(true);
    let mut buf = pool.allocate(&mut tls, 4096);
    let slice: &mut [u8] = buf.as_mut();
    slice.fill(0xAB);
    buf.release(&mut pool, &mut tls);
    let buf: Buf = pool.allocate(&mut tls, 3000);
    assert_eq!(pool.stats().tls_hits, 1);
    assert_eq!(buf.len(), 3000);
    assert!(buf.iter().all(|b| *b == 0));
}

#[test]
fn heap_allocator_answers_with_zeros() {
    assert_eq!(HeapAllocator.allocate(5), vec![0; 5]);
    assert_eq!(HeapAllocator::default().allocate(0), Vec::<u8>::new());
}
