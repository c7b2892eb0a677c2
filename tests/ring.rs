use rusty_ring::addr::SockAddr;
use rusty_ring::error::RingError;
use rusty_ring::registry::{Pinned, Registry};
use rusty_ring::ring::{c_path_of, CompletionEvent, Op, Ring, RingState, Submission};

fn active(depth: u32) -> Ring<Vec<u8>> {
    let mut ring: Ring<Vec<u8>> = Ring::new(depth);
    ring.enter(Ok(())).unwrap();
    ring
}

fn cqe(user_data: u64, res: i32) -> CompletionEvent {
    CompletionEvent { user_data, res, flags: 0 }
}

#[test]
fn end_to_end_nop_round_trip() {
    let mut ring: Ring<Vec<u8>> = Ring::new(4);
    assert_eq!(ring.depth(), 4);
    assert_eq!(ring.enter(Ok(())), Ok(()));
    let sub = ring.prep_nop(1).unwrap();
    assert_eq!(sub, Submission { user_data: 1, op: Op::Nop });
    assert_eq!(ring.submit(Ok(1)), Ok(1));
    let ev = ring.wait(Ok(()), Some(cqe(1, 0))).unwrap();
    assert_eq!(ev.user_data, 1);
    assert!(ev.res >= 0);
    assert_eq!(ring.pinned_count(), 0);
}

#[test]
fn new_ring_is_uninitialized_and_empty() {
    let ring: Ring<Vec<u8>> = Ring::new(32);
    assert_eq!(ring.state(), RingState::Uninitialized);
    assert_eq!(ring.depth(), 32);
    assert_eq!(ring.pinned_count(), 0);
}

#[test]
fn failed_setup_reports_kernel_message() {
    let mut ring: Ring<Vec<u8>> = Ring::new(0);
    assert_eq!(
        ring.enter(Err("Invalid argument".to_string())),
        Err(RingError::KernelSetupFailed("Invalid argument".to_string()))
    );
    assert_eq!(ring.state(), RingState::Uninitialized);
    assert_eq!(ring.prep_nop(1), Err(RingError::NotInitialized));
}

fn all_operations_fail_uninitialized(ring: &mut Ring<Vec<u8>>) {
    let before = ring.pinned_count();
    assert_eq!(ring.require_active(), Err(RingError::NotInitialized));
    assert_eq!(ring.submit(Ok(1)), Err(RingError::NotInitialized));
    assert_eq!(ring.peek(Some(cqe(1, 0))), Err(RingError::NotInitialized));
    assert_eq!(ring.wait(Ok(()), Some(cqe(1, 0))), Err(RingError::NotInitialized));
    assert_eq!(ring.prep_nop(1), Err(RingError::NotInitialized));
    assert_eq!(ring.prep_timeout(2, 1, 0), Err(RingError::NotInitialized));
    assert_eq!(ring.prep_read(3, 0, vec![0; 8], 8, 8, 0), Err(RingError::NotInitialized));
    assert_eq!(ring.prep_write(4, 1, vec![1; 8], 8, 0), Err(RingError::NotInitialized));
    assert_eq!(ring.prep_openat(5, "/tmp/x", 0, 0, -100), Err(RingError::NotInitialized));
    assert_eq!(ring.prep_close(6, 3), Err(RingError::NotInitialized));
    assert_eq!(ring.prep_cancel(7, 3, 0), Err(RingError::NotInitialized));
    assert_eq!(ring.prep_socket(8, 2, 1, 0, 0), Err(RingError::NotInitialized));
    assert_eq!(ring.prep_socket_recv(9, 3, vec![0; 4], 4, 0), Err(RingError::NotInitialized));
    assert_eq!(ring.prep_socket_send(10, 3, vec![0; 4], 4, 0), Err(RingError::NotInitialized));
    let a = SockAddr::v4("127.0.0.1", 80).unwrap();
    assert_eq!(ring.prep_socket_bind(11, 3, a), Err(RingError::NotInitialized));
    assert_eq!(ring.prep_socket_listen(12, 3, 16), Err(RingError::NotInitialized));
    assert_eq!(ring.prep_socket_accept(13, 3), Err(RingError::NotInitialized));
    let a = SockAddr::v4("127.0.0.1", 80).unwrap();
    assert_eq!(ring.prep_socket_connect(14, 3, a), Err(RingError::NotInitialized));
    assert_eq!(ring.prep_socket_setopt(15, 3), Err(RingError::NotInitialized));
    assert_eq!(ring.pinned_count(), before);
}

#[test]
fn operations_before_enter_fail_without_side_effect() {
    let mut ring: Ring<Vec<u8>> = Ring::new(8);
    all_operations_fail_uninitialized(&mut ring);
    assert_eq!(ring.pinned_count(), 0);
}

#[test]
fn operations_after_exit_fail_without_side_effect() {
    let mut ring = active(8);
    ring.prep_read(1, 0, vec![0; 8], 8, 8, 0).unwrap();
    ring.exit();
    assert_eq!(ring.state(), RingState::Closed);
    all_operations_fail_uninitialized(&mut ring);
    assert_eq!(ring.pinned_count(), 0);
}

#[test]
fn exit_clears_registry_and_fresh_ring_starts_empty() {
    let mut ring = active(8);
    ring.prep_read(1, 0, vec![0; 16], 16, 16, 0).unwrap();
    ring.prep_timeout(2, 5, 0).unwrap();
    ring.prep_openat(3, "/etc/hosts", 0, 0, -100).unwrap();
    assert_eq!(ring.pinned_count(), 3);
    ring.exit();
    assert_eq!(ring.pinned_count(), 0);
    let fresh: Ring<Vec<u8>> = Ring::new(8);
    assert_eq!(fresh.pinned_count(), 0);
    assert!(!fresh.is_pinned(1) && !fresh.is_pinned(2) && !fresh.is_pinned(3));
}

#[test]
fn openat_rejects_embedded_null() {
    let mut ring = active(8);
    assert_eq!(ring.prep_openat(7, "a\0b", 0, 0, -100), Err(RingError::InvalidPath));
    assert!(!ring.is_pinned(7));
    assert_eq!(ring.pinned_count(), 0);
}

#[test]
fn openat_pins_null_terminated_path() {
    let mut ring = active(8);
    let sub = ring.prep_openat(7, "/tmp/f", 64, 0o644, -100).unwrap();
    assert_eq!(sub.op, Op::OpenAt { dir_fd: -100, flags: 64, mode: 0o644 });
    match ring.pinned_resource(7) {
        Some(Pinned::Path(p)) => assert_eq!(p.as_slice(), b"/tmp/f\0"),
        _ => panic!("path not pinned"),
    }
}

#[test]
fn c_path_appends_terminator() {
    assert_eq!(c_path_of(""), Some(vec![0]));
    assert_eq!(c_path_of("ab"), Some(vec![b'a', b'b', 0]));
    assert_eq!(c_path_of("\0"), None);
}

#[test]
fn read_clamps_length_to_buffer() {
    let mut ring = active(8);
    let sub = ring.prep_read(1, 5, vec![0; 10], 10, 100, 7).unwrap();
    assert_eq!(sub, Submission { user_data: 1, op: Op::Read { fd: 5, len: 10, offset: 7 } });
    let sub = ring.prep_read(2, 5, vec![0; 10], 10, 4, 0).unwrap();
    assert_eq!(sub.op, Op::Read { fd: 5, len: 4, offset: 0 });
    let sub = ring.prep_read(3, 5, Vec::new(), 0, 4, 0).unwrap();
    assert_eq!(sub.op, Op::Read { fd: 5, len: 0, offset: 0 });
}

#[test]
fn read_buffer_released_once_on_drain() {
    let mut ring = active(8);
    ring.prep_read(42, 0, vec![9; 4], 4, 4, 0).unwrap();
    assert!(ring.is_pinned(42));
    match ring.pinned_resource(42) {
        Some(Pinned::MutableBuffer(b)) => assert_eq!(b, &vec![9; 4]),
        _ => panic!("buffer not pinned"),
    }
    let ev = ring.peek(Some(cqe(42, 4))).unwrap().unwrap();
    assert_eq!(ev, cqe(42, 4));
    assert!(!ring.is_pinned(42));
    assert_eq!(ring.pinned_count(), 0);
}

#[test]
fn repin_replaces_and_second_drain_is_noop() {
    let mut ring = active(8);
    ring.prep_read(5, 0, vec![1; 4], 4, 4, 0).unwrap();
    ring.prep_socket_send(5, 3, vec![2; 3], 3, 0).unwrap();
    ring.prep_nop(6).unwrap();
    ring.prep_timeout(7, 1, 0).unwrap();
    assert_eq!(ring.pinned_count(), 2);
    match ring.pinned_resource(5) {
        Some(Pinned::ImmutableBuffer(b)) => assert_eq!(b, &vec![2; 3]),
        _ => panic!("second resource not pinned"),
    }
    ring.peek(Some(cqe(5, 3))).unwrap();
    assert_eq!(ring.pinned_count(), 1);
    let again = ring.peek(Some(cqe(5, -125))).unwrap().unwrap();
    assert_eq!(again.res, -125);
    assert_eq!(ring.pinned_count(), 1);
    assert!(ring.is_pinned(7));
}

#[test]
fn registry_release_reports_presence() {
    let mut reg: Registry<Vec<u8>> = Registry::new();
    reg.pin(1, Pinned::MutableBuffer(vec![1]));
    reg.pin(1, Pinned::ImmutableBuffer(vec![2]));
    assert_eq!(reg.len(), 1);
    assert!(reg.release(1));
    assert!(!reg.release(1));
    assert!(!reg.is_pinned(1));
    reg.pin(2, Pinned::Path(vec![0]));
    reg.pin(3, Pinned::Timeout(vec![0; 16]));
    reg.clear_all();
    assert_eq!(reg.len(), 0);
    assert!(reg.get(2).is_none());
}

#[test]
fn peek_on_empty_queue_returns_none() {
    let mut ring = active(8);
    ring.prep_read(1, 0, vec![0; 4], 4, 4, 0).unwrap();
    assert_eq!(ring.peek(None), Ok(None));
    assert!(ring.is_pinned(1));
}

#[test]
fn wait_without_completion_is_an_error() {
    let mut ring = active(8);
    ring.prep_read(1, 0, vec![0; 4], 4, 4, 0).unwrap();
    assert_eq!(ring.wait(Ok(()), None), Err(RingError::NoCompletionAfterWait));
    assert!(ring.is_pinned(1));
}

#[test]
fn wait_failure_reports_kernel_message() {
    let mut ring = active(8);
    ring.prep_read(1, 0, vec![0; 4], 4, 4, 0).unwrap();
    assert_eq!(
        ring.wait(Err("Interrupted system call".to_string()), None),
        Err(RingError::KernelWaitFailed("Interrupted system call".to_string()))
    );
    assert!(ring.is_pinned(1));
}

#[test]
fn wait_drains_negative_result_as_ordinary_record() {
    let mut ring = active(8);
    ring.prep_read(1, 99, vec![0; 4], 4, 4, 0).unwrap();
    let ev = ring.wait(Ok(()), Some(CompletionEvent { user_data: 1, res: -9, flags: 2 })).unwrap();
    assert_eq!(ev, CompletionEvent { user_data: 1, res: -9, flags: 2 });
    assert!(!ring.is_pinned(1));
}

#[test]
fn submit_failure_reports_kernel_message() {
    let ring = active(8);
    assert_eq!(
        ring.submit(Err("Device busy".to_string())),
        Err(RingError::KernelSubmitFailed("Device busy".to_string()))
    );
    assert_eq!(ring.submit(Ok(3)), Ok(3));
}

#[test]
fn submission_queue_full_is_its_own_error() {
    assert_ne!(RingError::SubmissionQueueFull, RingError::NotInitialized);
}

#[test]
fn timeout_pins_kernel_timespec() {
    let mut ring = active(8);
    let sub = ring.prep_timeout(3, 2, 500).unwrap();
    assert_eq!(sub.op, Op::Timeout);
    match ring.pinned_resource(3) {
        Some(Pinned::Timeout(t)) => {
            assert_eq!(t.len(), 16);
            assert_eq!(&t[0..8], &2u64.to_ne_bytes());
            assert_eq!(&t[8..16], &500u64.to_ne_bytes());
        }
        _ => panic!("timeout not pinned"),
    }
}

#[test]
fn bind_and_connect_pin_address_layout() {
    let mut ring = active(8);
    let a = SockAddr::v4("10.0.0.2", 9000).unwrap();
    let (expected, _) = a.as_bytes_and_len();
    let expected = expected.to_vec();
    assert_eq!(ring.prep_socket_bind(1, 4, a).unwrap().op, Op::Bind { fd: 4 });
    match ring.pinned_resource(1) {
        Some(Pinned::Address(b)) => assert_eq!(b, &expected),
        _ => panic!("address not pinned"),
    }
    let b = SockAddr::v6("::1", 9000).unwrap();
    assert_eq!(ring.prep_socket_connect(2, 4, b).unwrap().op, Op::Connect { fd: 4 });
    match ring.pinned_resource(2) {
        Some(Pinned::Address(b)) => assert_eq!(b.len(), 28),
        _ => panic!("address not pinned"),
    }
}

#[test]
fn plain_operations_pin_nothing() {
    let mut ring = active(8);
    assert_eq!(ring.prep_close(1, 3).unwrap().op, Op::Close { fd: 3 });
    assert_eq!(ring.prep_cancel(2, 1, 7).unwrap().op, Op::Cancel { target: 1 });
    assert_eq!(
        ring.prep_socket(3, 2, 1, 6, 9).unwrap().op,
        Op::Socket { domain: 2, sock_type: 1, protocol: 6 }
    );
    assert_eq!(ring.prep_socket_listen(4, 3, 128).unwrap().op, Op::Listen { fd: 3, backlog: 128 });
    assert_eq!(ring.prep_socket_accept(5, 3).unwrap().op, Op::Accept { fd: 3 });
    assert_eq!(ring.prep_socket_setopt(6, 3).unwrap().op, Op::SetReuseAddr { fd: 3 });
    assert_eq!(ring.pinned_count(), 0);
}

#[test]
fn send_and_recv_use_whole_buffer() {
    let mut ring = active(8);
    assert_eq!(
        ring.prep_socket_recv(1, 3, vec![0; 64], 64, 2).unwrap().op,
        Op::Recv { fd: 3, len: 64, msg_flags: 2 }
    );
    assert_eq!(
        ring.prep_socket_send(2, 3, vec![0; 5], 5, 0).unwrap().op,
        Op::Send { fd: 3, len: 5, msg_flags: 0 }
    );
    assert_eq!(
        ring.prep_write(3, 1, vec![0; 7], 7, 100).unwrap().op,
        Op::Write { fd: 1, len: 7, offset: 100 }
    );
    assert_eq!(ring.pinned_count(), 3);
}
