use openssh_sftp_client::ResponseCallbacks;

#[test]
fn callback_then_wait_gives_back_the_response() {
    let mut cbs = ResponseCallbacks::new();
    let guard = cbs.insert();
    let slot = guard.get_slot_id();
    assert!(!cbs.is_done(slot));
    cbs.do_callback(slot, vec![101, 1], vec![7, 8]);
    assert!(cbs.is_done(slot));
    let (response, buffer) = guard.wait(&mut cbs);
    assert_eq!(response, vec![101, 1]);
    assert_eq!(buffer, vec![7, 8]);
    assert_eq!(cbs.len(), 0);
}

#[test]
fn slots_in_use_are_distinct() {
    let mut cbs = ResponseCallbacks::new();
    let a = cbs.insert();
    let b = cbs.insert();
    assert_ne!(a.get_slot_id(), b.get_slot_id());
    assert_eq!(cbs.len(), 2);
    a.release(&mut cbs);
    assert_eq!(cbs.len(), 1);
    b.release(&mut cbs);
    assert_eq!(cbs.len(), 0);
}

#[test]
fn callback_for_a_released_slot_is_ignored() {
    let mut cbs = ResponseCallbacks::new();
    let a = cbs.insert();
    let slot = a.get_slot_id();
    a.release(&mut cbs);
    cbs.do_callback(slot, vec![1], vec![]);
    assert_eq!(cbs.len(), 0);
    let b = cbs.insert();
    assert!(!cbs.is_done(b.get_slot_id()));
    b.release(&mut cbs);
}
