use openssh_sftp_client::writer::{atomic_attempt_limit, MAX_ATOMIC_ATTEMPT};
use openssh_sftp_client::{AtomicWriteAttempts, WriteBuffer};

#[test]
fn write_buffer_starts_with_header_room() {
    let b = WriteBuffer::new();
    assert_eq!(b.len(), 4);
}

#[test]
fn write_buffer_split_returns_contents_and_restarts() {
    let mut b = WriteBuffer::new();
    b.extend_from_slice(&[1, 2, 3]);
    b.push(9);
    let out = b.split();
    assert_eq!(&out[..], &[0, 0, 0, 0, 1, 2, 3, 9]);
    assert_eq!(b.len(), 4);
    let again = b.split();
    assert_eq!(&again[..], &[0, 0, 0, 0]);
}

#[test]
fn write_buffer_header_and_truncate() {
    let mut b = WriteBuffer::new();
    b.extend_from_slice(&[5, 6, 7]);
    assert_eq!(*b.get_first_4byte_slice(), [0, 0, 0, 0]);
    *b.get_first_4byte_slice() = [0, 0, 0, 3];
    b.truncate(6);
    assert_eq!(b.len(), 6);
    b.truncate(100);
    assert_eq!(b.len(), 6);
    b.reserve(1000);
    assert_eq!(&b.split()[..], &[0, 0, 0, 3, 5, 6]);
}

#[test]
fn atomic_attempt_limit_values() {
    assert_eq!(MAX_ATOMIC_ATTEMPT, 50);
    assert_eq!(atomic_attempt_limit(4096, 1), 4096);
    assert_eq!(atomic_attempt_limit(4096, 64), 64);
    assert_eq!(atomic_attempt_limit(4096, 100), 50);
    assert_eq!(atomic_attempt_limit(4096, 5000), 50);
}

#[test]
fn atomic_attempts_stop_at_the_limit() {
    let mut a = AtomicWriteAttempts::with_pipe_buf(4096, 4096);
    let mut started = 0;
    while a.begin_attempt() {
        started += 1;
        assert!(started <= 1000);
    }
    assert_eq!(started, 50);
    assert!(!a.begin_attempt());
}

#[test]
fn atomic_attempts_for_the_pipe() {
    let mut a = AtomicWriteAttempts::new(4096);
    let mut started = 0;
    while a.begin_attempt() {
        started += 1;
    }
    assert!(started >= 50);
}

#[test]
fn atomic_attempts_for_a_short_packet_follow_pipe_buf() {
    let mut a = AtomicWriteAttempts::new(1);
    let mut started: u32 = 0;
    while a.begin_attempt() {
        started += 1;
        assert!(started <= 40000);
    }
    assert!(started >= 512);
    assert!(started <= 32768);
}
