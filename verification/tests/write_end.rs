use bytes::Bytes;

use openssh_sftp_client::{
    CreateFlags, Error, FileAttrs, Handle, Id, OpenFileRequest, OpenOptions, SftpRequest, SharedData,
    WriteBuffer, WriteEnd,
};

fn new_write_end() -> WriteEnd {
    WriteEnd::new(SharedData::new())
}

fn pending(we: &mut WriteEnd) -> Vec<Vec<u8>> {
    we.take_pending().into_iter().map(|b| b.to_vec()).collect()
}

fn packet(body: &[u8]) -> Vec<u8> {
    let mut v = (body.len() as u32).to_be_bytes().to_vec();
    v.extend_from_slice(body);
    v
}

fn id(slot: u32) -> Id<Vec<u8>> {
    Id::new(slot)
}

#[test]
fn remove_request_encoding_drops_nul_bytes() {
    let mut we = new_write_end();
    let a = we.send_remove_request(id(7), "a\0b").unwrap();
    assert_eq!(a.0.slot(), 7);
    assert_eq!(
        pending(&mut we),
        vec![packet(&[13, 0, 0, 0, 7, 0, 0, 0, 2, b'a', b'b'])]
    );
}

#[test]
fn close_request_encoding() {
    let mut we = new_write_end();
    let h = Handle::new(vec![9, 9]);
    assert_eq!(h.into_inner(), &[9, 9]);
    let mut a = we.send_close_request(id(1), &h).unwrap();
    assert_eq!(a.0.slot(), 1);
    assert_eq!(a.0.take_buffer(), None);
    assert_eq!(
        pending(&mut we),
        vec![packet(&[4, 0, 0, 0, 1, 0, 0, 0, 2, 9, 9])]
    );
}

#[test]
fn read_request_keeps_the_buffer() {
    let mut we = new_write_end();
    let h = Handle::new(vec![1]);
    let mut a = we
        .send_read_request(id(2), &h, 0x0102030405060708, 0x100, Some(vec![42u8; 3]))
        .unwrap();
    assert_eq!(a.0.take_buffer(), Some(vec![42u8; 3]));
    assert_eq!(
        pending(&mut we),
        vec![packet(&[
            5, 0, 0, 0, 2, 0, 0, 0, 1, 1, 1, 2, 3, 4, 5, 6, 7, 8, 0, 0, 1, 0
        ])]
    );
}

#[test]
fn symlink_puts_target_before_link() {
    let mut we = new_write_end();
    we.send_symlink_request(id(3), "t", "l").unwrap();
    assert_eq!(
        pending(&mut we),
        vec![packet(&[20, 0, 0, 0, 3, 0, 0, 0, 1, b't', 0, 0, 0, 1, b'l'])]
    );
}

#[test]
fn limits_request_is_an_extension() {
    let mut we = new_write_end();
    we.send_limits_request(id(4)).unwrap();
    let mut body = vec![200, 0, 0, 0, 4, 0, 0, 0, 18];
    body.extend_from_slice(b"limits@openssh.com");
    assert_eq!(pending(&mut we), vec![packet(&body)]);
}

#[test]
fn posix_rename_request_is_an_extension() {
    let mut we = new_write_end();
    we.send_posix_rename_request(id(5), "a", "b").unwrap();
    let mut body = vec![200, 0, 0, 0, 5, 0, 0, 0, 24];
    body.extend_from_slice(b"posix-rename@openssh.com");
    body.extend_from_slice(&[0, 0, 0, 1, b'a', 0, 0, 0, 1, b'b']);
    assert_eq!(pending(&mut we), vec![packet(&body)]);
}

#[test]
fn copy_data_request_encoding() {
    let mut we = new_write_end();
    let r = Handle::new(vec![1]);
    let w = Handle::new(vec![2]);
    we.send_copy_data_request(id(6), &r, 1, 2, &w, 3).unwrap();
    let mut body = vec![200, 0, 0, 0, 6, 0, 0, 0, 9];
    body.extend_from_slice(b"copy-data");
    body.extend_from_slice(&[0, 0, 0, 1, 1]);
    body.extend_from_slice(&1u64.to_be_bytes());
    body.extend_from_slice(&2u64.to_be_bytes());
    body.extend_from_slice(&[0, 0, 0, 1, 2]);
    body.extend_from_slice(&3u64.to_be_bytes());
    assert_eq!(pending(&mut we), vec![packet(&body)]);
}

#[test]
fn open_create_request_encoding() {
    let mut we = new_write_end();
    let mut attrs = FileAttrs::new();
    attrs.set_size(5);
    let req = OpenOptions::new()
        .read(true)
        .write(true)
        .create("f", CreateFlags::Trunc, attrs);
    assert_eq!(req.flags, 0x1b);
    we.send_open_file_request(id(8), req).unwrap();
    let mut body = vec![3, 0, 0, 0, 8, 0, 0, 0, 1, b'f', 0, 0, 0, 0x1b, 0, 0, 0, 1];
    body.extend_from_slice(&5u64.to_be_bytes());
    assert_eq!(pending(&mut we), vec![packet(&body)]);
}

#[test]
fn open_read_only_flags() {
    let req = OpenFileRequest::open("x");
    assert_eq!(req.flags, 1);
    let append = OpenOptions::new().append(true);
    assert!(append.get_write());
    assert_eq!(append.open("y").flags, 2 | 4);
}

#[test]
fn mkdir_request_keeps_permission_bits_only() {
    let mut we = new_write_end();
    let mut attrs = FileAttrs::new();
    attrs.set_permissions(0o40755);
    assert_eq!(attrs.get_permissions(), Some(0o755));
    we.send_mkdir_request(id(9), "d", attrs).unwrap();
    assert_eq!(
        pending(&mut we),
        vec![packet(&[
            14, 0, 0, 0, 9, 0, 0, 0, 1, b'd', 0, 0, 0, 4, 0, 0, 0x01, 0xed
        ])]
    );
}

#[test]
fn setstat_with_all_attributes() {
    let mut we = new_write_end();
    let mut attrs = FileAttrs::new();
    attrs.set_size(1);
    attrs.set_id(2, 3);
    attrs.set_permissions(0o644);
    attrs.set_time(4, 5);
    assert_eq!(attrs.get_id(), Some((2, 3)));
    assert_eq!(attrs.get_time(), Some((4, 5)));
    we.send_setstat_request(id(10), "p", attrs).unwrap();
    let mut body = vec![9, 0, 0, 0, 10, 0, 0, 0, 1, b'p', 0, 0, 0, 15];
    body.extend_from_slice(&1u64.to_be_bytes());
    body.extend_from_slice(&[0, 0, 0, 2, 0, 0, 0, 3]);
    body.extend_from_slice(&0o644u32.to_be_bytes());
    body.extend_from_slice(&[0, 0, 0, 4, 0, 0, 0, 5]);
    assert_eq!(pending(&mut we), vec![packet(&body)]);
}

#[test]
fn every_request_queues_one_packet_in_order() {
    let mut we = new_write_end();
    let h = Handle::new(vec![3]);
    we.send_stat_request(id(1), "s").unwrap();
    we.send_lstat_request(id(2), "l").unwrap();
    we.send_fstat_request(id(3), &h).unwrap();
    we.send_opendir_request(id(4), "d").unwrap();
    we.send_readdir_request(id(5), &h).unwrap();
    we.send_rmdir_request(id(6), "r").unwrap();
    we.send_readlink_request(id(7), "k").unwrap();
    we.send_realpath_request(id(8), "p").unwrap();
    we.send_rename_request(id(9), "o", "n").unwrap();
    we.send_fsetstat_request(id(10), &h, FileAttrs::new()).unwrap();
    we.send_expand_path_request(id(11), "~").unwrap();
    we.send_fsync_request(id(12), &h).unwrap();
    we.send_hardlink_request(id(13), "o", "n").unwrap();
    assert_eq!(we.shared_data().pending_len(), 13);
    let packets = pending(&mut we);
    let types: Vec<u8> = packets.iter().map(|p| p[4]).collect();
    assert_eq!(types, vec![17, 7, 8, 11, 12, 15, 19, 16, 18, 10, 200, 200, 200]);
    for (i, p) in packets.iter().enumerate() {
        assert_eq!(u32::from_be_bytes([p[0], p[1], p[2], p[3]]) as usize, p.len() - 4);
        assert_eq!(u32::from_be_bytes([p[5], p[6], p[7], p[8]]), i as u32 + 1);
    }
    assert_eq!(we.shared_data().pending_len(), 0);
}

#[test]
fn hello_packet() {
    let mut we = new_write_end();
    let hello = we.serialize_hello(3);
    assert_eq!(&hello[..], &[0, 0, 0, 5, 1, 0, 0, 0, 3]);
    assert_eq!(we.shared_data().pending_len(), 0);
}

#[test]
fn write_paths_put_the_same_bytes() {
    let h = Handle::new(vec![7, 7]);
    let data: Vec<u8> = (0u8..20).collect();

    let mut buffered = new_write_end();
    buffered.send_write_request_buffered(id(3), &h, 99, &data).unwrap();
    let buffered_bytes: Vec<u8> = pending(&mut buffered).concat();

    let mut vectored = new_write_end();
    let parts: [&[u8]; 3] = [&data[..5], &data[5..5], &data[5..]];
    let more: [&[u8]; 0] = [];
    let bufs: [&[&[u8]]; 2] = [&parts, &more];
    vectored
        .send_write_request_buffered_vectored2(id(3), &h, 99, &bufs)
        .unwrap();
    let vectored_packets = pending(&mut vectored);
    assert_eq!(vectored_packets.len(), 1);

    let mut single = new_write_end();
    single
        .send_write_request_buffered_vectored(id(3), &h, 99, &parts)
        .unwrap();
    let single_bytes: Vec<u8> = pending(&mut single).concat();

    let mut zero_copy = new_write_end();
    let chunks = [
        Bytes::copy_from_slice(&data[..12]),
        Bytes::copy_from_slice(&data[12..]),
    ];
    let chunk_lists: [&[Bytes]; 2] = [&chunks[..1], &chunks[1..]];
    zero_copy
        .send_write_request_zero_copy2(id(3), &h, 99, &chunk_lists)
        .unwrap();
    let zero_copy_packets = pending(&mut zero_copy);
    assert_eq!(zero_copy_packets.len(), 3);

    let mut zero_copy_single = new_write_end();
    zero_copy_single
        .send_write_request_zero_copy(id(3), &h, 99, &chunks)
        .unwrap();
    let zero_copy_single_bytes: Vec<u8> = pending(&mut zero_copy_single).concat();

    let mut body = vec![6, 0, 0, 0, 3, 0, 0, 0, 2, 7, 7];
    body.extend_from_slice(&99u64.to_be_bytes());
    body.extend_from_slice(&20u32.to_be_bytes());
    body.extend_from_slice(&data);
    let expected = packet(&body);
    assert_eq!(buffered_bytes, expected);
    assert_eq!(vectored_packets.concat(), expected);
    assert_eq!(single_bytes, expected);
    assert_eq!(zero_copy_packets.concat(), expected);
    assert_eq!(zero_copy_single_bytes, expected);
}

fn big_chunks(total_missing: usize) -> Vec<Bytes> {
    // 64 MiB shared by every clone; the total is 4 GiB minus `total_missing`.
    let chunk = Bytes::from(vec![0u8; 1 << 26]);
    let mut v: Vec<Bytes> = (0..63).map(|_| chunk.clone()).collect();
    v.push(chunk.slice(..(1 << 26) - total_missing));
    v
}

#[test]
fn zero_copy_data_longer_than_u32_is_refused() {
    let mut we = new_write_end();
    let h = Handle::new(vec![1]);
    let chunks = big_chunks(0);
    let r = we.send_write_request_zero_copy(id(1), &h, 0, &chunks);
    assert_eq!(r.err(), Some(Error::BufferTooLong));
    assert_eq!(we.shared_data().pending_len(), 0);
}

#[test]
fn zero_copy_packet_longer_than_u32_is_refused() {
    let mut we = new_write_end();
    let h = Handle::new(vec![1]);
    // the data is u32::MAX - 3 bytes, so the data fits but the packet does not
    let chunks = big_chunks(4);
    let r = we.send_write_request_zero_copy(id(1), &h, 0, &chunks);
    assert_eq!(r.err(), Some(Error::TooLong));
    assert_eq!(we.shared_data().pending_len(), 0);
    // the write end can still be used afterwards
    we.send_remove_request(id(2), "x").unwrap();
    assert_eq!(
        pending(&mut we),
        vec![packet(&[13, 0, 0, 0, 2, 0, 0, 0, 1, b'x'])]
    );
}

#[test]
fn shared_data_survives_into_shared_data() {
    let mut we = new_write_end();
    we.send_rmdir_request(id(1), "a").unwrap();
    let mut shared = we.into_shared_data();
    assert_eq!(shared.pending_len(), 1);
    let mut we2 = WriteEnd::new(shared);
    we2.send_rmdir_request(id(2), "b").unwrap();
    shared = we2.into_shared_data();
    assert_eq!(shared.take_pending().len(), 2);
}

#[test]
fn error_messages() {
    assert_eq!(
        Error::TooLong.message(),
        "Bytes must not be larger than u32::MAX"
    );
    assert_eq!(Error::BufferTooLong.message(), "Buffer is longer than u32::MAX");
}

#[test]
fn serialize_ignores_what_the_serializer_held() {
    let mut fresh = WriteBuffer::new();
    let a = WriteEnd::serialize(&mut fresh, 7, &SftpRequest::Remove("ab")).unwrap();
    let mut used = WriteBuffer::new();
    used.extend_from_slice(&[1, 2, 3, 4, 5, 6]);
    let b = WriteEnd::serialize(&mut used, 7, &SftpRequest::Remove("ab")).unwrap();
    assert_eq!(a.to_vec(), packet(&[13, 0, 0, 0, 7, 0, 0, 0, 2, b'a', b'b']));
    assert_eq!(a, b);
    assert_eq!(used.len(), 4);
    assert_eq!(used.split().to_vec(), vec![0, 0, 0, 0]);
}
