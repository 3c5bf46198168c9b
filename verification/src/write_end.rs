//! The sending side of an sftp session: requests are serialized into packets
//! and queued until they are flushed to the server.
use bytes::Bytes;

use crate::bytes_ext::{bytes_clone, bytes_contents, bytes_len, max_buffer_len};
use crate::encoding::{be_u32, be_u64, bytes_fit, bytes_fit_exec, enc_bytes, u32_to_be_bytes};
use crate::error::Error;
use crate::protocol::{
    put_request, request_body, request_fits, request_fits_exec, request_prefix, FileAttrs,
    Handle, OpenFileRequest, SftpRequest, SSH_FXP_CLOSE, SSH_FXP_EXTENDED, SSH_FXP_FSETSTAT,
    SSH_FXP_FSTAT, SSH_FXP_INIT, SSH_FXP_LSTAT, SSH_FXP_MKDIR, SSH_FXP_OPEN, SSH_FXP_OPENDIR,
    SSH_FXP_READ, SSH_FXP_READDIR, SSH_FXP_READLINK, SSH_FXP_REALPATH, SSH_FXP_REMOVE,
    SSH_FXP_RENAME, SSH_FXP_RMDIR, SSH_FXP_SETSTAT, SSH_FXP_STAT, SSH_FXP_SYMLINK, SSH_FXP_WRITE,
};
use crate::writer::{header_placeholder, WriteBuffer};
use crate::encoding::{put_bytes, put_u32, put_u64};

use vstd::prelude::*;

verus! {

/// A packet: the length of the body as a `u32` in big endian, then the body.
pub open spec fn packet(body: Seq<u8>) -> Seq<u8> {
    be_u32(body.len() as u32) + body
}

/// The packet of a request with the given id.
pub open spec fn request_packet(request_id: u32, request: SftpRequest) -> Seq<u8> {
    packet(request_body(request_id, request))
}

/// A request can be sent when all its strings fit and so does the whole body.
pub open spec fn request_sendable(request_id: u32, request: SftpRequest) -> bool {
    request_fits(request) && request_body(request_id, request).len() <= u32::MAX
}

/// Where every string of the request fits, its whole packet is serialized,
/// and it fits in memory: beyond that the buffer would panic. A request with a
/// string too long is refused before the rest of it is serialized.
pub open spec fn request_fits_memory(request_id: u32, request: SftpRequest) -> bool {
    request_fits(request) ==> request_body(request_id, request).len() + 4 <= max_buffer_len()
}

/// The concatenation of byte strings.
pub open spec fn concat(chunks: Seq<Seq<u8>>) -> Seq<u8>
    decreases chunks.len(),
{
    if chunks.len() == 0 {
        Seq::empty()
    } else {
        concat(chunks.drop_last()) + chunks.last()
    }
}

/// The bytes of a list of slices.
pub open spec fn slices_bytes(slices: Seq<&[u8]>) -> Seq<Seq<u8>> {
    slices.map_values(|s: &[u8]| s@)
}

/// The bytes of a list of lists of slices, one after the other.
pub open spec fn nested_slices_bytes(bufs: Seq<&[&[u8]]>) -> Seq<Seq<u8>> {
    bufs.map_values(|b: &[&[u8]]| concat(slices_bytes(b@)))
}

/// The bytes of a list of `Bytes`.
pub open spec fn chunks_bytes(chunks: Seq<Bytes>) -> Seq<Seq<u8>> {
    chunks.map_values(|b: Bytes| bytes_contents(b))
}

/// Every chunk of a list of lists of `Bytes`, in order.
pub open spec fn nested_chunks(bufs: Seq<&[Bytes]>) -> Seq<Seq<u8>>
    decreases bufs.len(),
{
    if bufs.len() == 0 {
        Seq::empty()
    } else {
        nested_chunks(bufs.drop_last()) + chunks_bytes(bufs.last()@)
    }
}

/// The fields of a write request that come before its data: type, id,
/// handle, offset and the length of the data.
pub open spec fn write_fields(request_id: u32, handle: Seq<u8>, offset: u64, len: u32) -> Seq<u8> {
    request_prefix(SSH_FXP_WRITE, request_id) + enc_bytes(handle) + be_u64(offset) + be_u32(len)
}

/// The header of a write request whose data is `len` bytes long: the length of
/// the whole packet, then the fields before the data.
pub open spec fn write_header(request_id: u32, handle: Seq<u8>, offset: u64, len: u32) -> Seq<u8> {
    be_u32((write_fields(request_id, handle, offset, len).len() + len) as u32) + write_fields(
        request_id,
        handle,
        offset,
        len,
    )
}

/// A write request can be sent when the handle fits and so does the whole packet.
pub open spec fn write_sendable(request_id: u32, handle: Seq<u8>, offset: u64, len: u32) -> bool {
    bytes_fit(handle) && write_fields(request_id, handle, offset, len).len() + len <= u32::MAX
}

/// Concatenating one more chunk.
pub proof fn lemma_concat_push(s: Seq<Seq<u8>>, x: Seq<u8>)
    ensures
        concat(s.push(x)) == concat(s) + x,
{
    assert(s.push(x).drop_last() =~= s);
}

/// Concatenation distributes over joining lists of chunks.
pub proof fn lemma_concat_append(a: Seq<Seq<u8>>, b: Seq<Seq<u8>>)
    ensures
        concat(a + b) == concat(a) + concat(b),
    decreases b.len(),
{
    if b.len() == 0 {
        assert(a + b =~= a);
        assert(concat(a) + concat(b) =~= concat(a));
    } else {
        lemma_concat_append(a, b.drop_last());
        assert((a + b).drop_last() =~= a + b.drop_last());
        assert(concat(a + b) =~= concat(a) + concat(b));
    }
}

/// The chunks of a prefix are no longer than all the chunks.
pub proof fn lemma_concat_prefix_len(s: Seq<Seq<u8>>, k: int)
    requires
        0 <= k <= s.len(),
    ensures
        concat(s.take(k)).len() <= concat(s).len(),
{
    assert(s =~= s.take(k) + s.skip(k));
    lemma_concat_append(s.take(k), s.skip(k));
}

/// The bytes of the first `j + 1` slices.
proof fn lemma_slices_take(s: Seq<&[u8]>, j: int)
    requires
        0 <= j < s.len(),
    ensures
        concat(slices_bytes(s.take(j + 1))) == concat(slices_bytes(s.take(j))) + s[j]@,
        slices_bytes(s.take(j + 1)) == slices_bytes(s).take(j + 1),
{
    assert(slices_bytes(s.take(j + 1)) =~= slices_bytes(s.take(j)).push(s[j]@));
    lemma_concat_push(slices_bytes(s.take(j)), s[j]@);
    assert(slices_bytes(s.take(j + 1)) =~= slices_bytes(s).take(j + 1));
}

/// The bytes of the first `i + 1` lists of slices.
proof fn lemma_nested_slices_take(b: Seq<&[&[u8]]>, i: int)
    requires
        0 <= i < b.len(),
    ensures
        concat(nested_slices_bytes(b.take(i + 1))) == concat(nested_slices_bytes(b.take(i)))
            + concat(slices_bytes(b[i]@)),
        nested_slices_bytes(b.take(i + 1)) == nested_slices_bytes(b).take(i + 1),
{
    assert(nested_slices_bytes(b.take(i + 1)) =~= nested_slices_bytes(b.take(i)).push(
        concat(slices_bytes(b[i]@)),
    ));
    lemma_concat_push(nested_slices_bytes(b.take(i)), concat(slices_bytes(b[i]@)));
    assert(nested_slices_bytes(b.take(i + 1)) =~= nested_slices_bytes(b).take(i + 1));
}

/// The bytes of all the slices of all the lists.
pub open spec fn io_slices_bytes(bufs: Seq<&[&[u8]]>) -> Seq<u8> {
    concat(nested_slices_bytes(bufs))
}

/// The data of a vectored write is every slice of every list, in order: no
/// lists gives no data, the data of two runs of lists joined is the data of
/// the first run then that of the second, and one list gives its slices one
/// after the other, each slice's bytes as they are.
pub proof fn law_vectored_data_in_order(a: Seq<&[&[u8]]>, b: Seq<&[&[u8]]>, l: &[&[u8]], s: Seq<&[u8]>, x: Seq<u8>)
    ensures
        io_slices_bytes(Seq::empty()) == Seq::<u8>::empty(),
        io_slices_bytes(a + b) == io_slices_bytes(a) + io_slices_bytes(b),
        io_slices_bytes(a).len() + io_slices_bytes(b).len() == io_slices_bytes(a + b).len(),
        io_slices_bytes(seq![l]) == concat(slices_bytes(l@)),
        slices_bytes(s).len() == s.len(),
        forall|j: int| 0 <= j < s.len() ==> #[trigger] slices_bytes(s)[j] == s[j]@,
        concat(Seq::<Seq<u8>>::empty()) == Seq::<u8>::empty(),
        concat(slices_bytes(s).push(x)) == concat(slices_bytes(s)) + x,
{
    assert(nested_slices_bytes(Seq::empty()) =~= Seq::<Seq<u8>>::empty());
    assert(nested_slices_bytes(a + b) =~= nested_slices_bytes(a) + nested_slices_bytes(b));
    lemma_concat_append(nested_slices_bytes(a), nested_slices_bytes(b));
    let one = concat(slices_bytes(l@));
    assert(nested_slices_bytes(seq![l]) =~= Seq::<Seq<u8>>::empty().push(one));
    lemma_concat_push(Seq::<Seq<u8>>::empty(), one);
    assert(concat(Seq::<Seq<u8>>::empty()) + one =~= one);
    lemma_concat_push(slices_bytes(s), x);
}

/// The total length of the slices, if it fits in a `u32`.
fn io_slices_len(bufs: &[&[&[u8]]]) -> (r: Option<u32>)
    ensures
        r is Some <==> io_slices_bytes(bufs@).len() <= u32::MAX,
        r matches Some(n) ==> n == io_slices_bytes(bufs@).len(),
{
    let mut total: usize = 0;
    let mut i: usize = 0;
    while i < bufs.len()
        invariant
            i <= bufs@.len(),
            total == concat(nested_slices_bytes(bufs@.take(i as int))).len(),
            total <= u32::MAX,
        decreases bufs@.len() - i,
    {
        let inner = bufs[i];
        let mut j: usize = 0;
        while j < inner.len()
            invariant
                inner == bufs@[i as int],
                i < bufs@.len(),
                j <= inner@.len(),
                total == concat(nested_slices_bytes(bufs@.take(i as int))).len() + concat(
                    slices_bytes(inner@.take(j as int)),
                ).len(),
                total <= u32::MAX,
            decreases inner@.len() - j,
        {
            proof {
                lemma_slices_take(inner@, j as int);
            }
            let l = inner[j].len();
            if l > u32::MAX as usize - total {
                proof {
                    lemma_concat_prefix_len(slices_bytes(inner@), j + 1);
                    lemma_nested_slices_take(bufs@, i as int);
                    lemma_concat_prefix_len(nested_slices_bytes(bufs@), i + 1);
                }
                return None;
            }
            total = total + l;
            j = j + 1;
        }
        proof {
            assert(inner@.take(j as int) =~= inner@);
            lemma_nested_slices_take(bufs@, i as int);
        }
        i = i + 1;
    }
    assert(bufs@.take(i as int) =~= bufs@);
    Some(total as u32)
}

/// Append all the slices, in order.
fn put_io_slices(buf: &mut WriteBuffer, bufs: &[&[&[u8]]])
    requires
        old(buf)@.len() + io_slices_bytes(bufs@).len() <= max_buffer_len(),
    ensures
        final(buf)@ == old(buf)@ + io_slices_bytes(bufs@),
{
    let ghost start = buf@;
    let mut i: usize = 0;
    while i < bufs.len()
        invariant
            i <= bufs@.len(),
            buf@ == start + concat(nested_slices_bytes(bufs@.take(i as int))),
            start.len() + io_slices_bytes(bufs@).len() <= max_buffer_len(),
        decreases bufs@.len() - i,
    {
        let inner = bufs[i];
        let mut j: usize = 0;
        proof {
            lemma_nested_slices_take(bufs@, i as int);
            lemma_concat_prefix_len(nested_slices_bytes(bufs@), i + 1);
        }
        while j < inner.len()
            invariant
                inner == bufs@[i as int],
                i < bufs@.len(),
                j <= inner@.len(),
                buf@ == start + concat(nested_slices_bytes(bufs@.take(i as int))) + concat(
                    slices_bytes(inner@.take(j as int)),
                ),
                start.len() + concat(nested_slices_bytes(bufs@.take(i as int))).len() + concat(
                    slices_bytes(inner@),
                ).len() <= max_buffer_len(),
            decreases inner@.len() - j,
        {
            proof {
                lemma_slices_take(inner@, j as int);
                lemma_concat_prefix_len(slices_bytes(inner@), j + 1);
            }
            buf.extend_from_slice(inner[j]);
            j = j + 1;
            assert(buf@ =~= start + concat(nested_slices_bytes(bufs@.take(i as int))) + concat(
                slices_bytes(inner@.take(j as int)),
            ));
        }
        proof {
            assert(inner@.take(j as int) =~= inner@);
            lemma_nested_slices_take(bufs@, i as int);
        }
        i = i + 1;
        assert(buf@ =~= start + concat(nested_slices_bytes(bufs@.take(i as int))));
    }
    assert(bufs@.take(i as int) =~= bufs@);
}

/// The bytes of the first `j + 1` chunks.
proof fn lemma_chunks_take(s: Seq<Bytes>, j: int)
    requires
        0 <= j < s.len(),
    ensures
        chunks_bytes(s.take(j + 1)) == chunks_bytes(s.take(j)).push(bytes_contents(s[j])),
        concat(chunks_bytes(s.take(j + 1))) == concat(chunks_bytes(s.take(j))) + bytes_contents(
            s[j],
        ),
        chunks_bytes(s.take(j + 1)) == chunks_bytes(s).take(j + 1),
{
    assert(chunks_bytes(s.take(j + 1)) =~= chunks_bytes(s.take(j)).push(bytes_contents(s[j])));
    lemma_concat_push(chunks_bytes(s.take(j)), bytes_contents(s[j]));
    assert(chunks_bytes(s.take(j + 1)) =~= chunks_bytes(s).take(j + 1));
}

/// The chunks of the first `i + 1` lists.
proof fn lemma_nested_chunks_take(b: Seq<&[Bytes]>, i: int)
    requires
        0 <= i < b.len(),
    ensures
        nested_chunks(b.take(i + 1)) == nested_chunks(b.take(i)) + chunks_bytes(b[i]@),
        concat(nested_chunks(b.take(i + 1))) == concat(nested_chunks(b.take(i))) + concat(
            chunks_bytes(b[i]@),
        ),
{
    assert(b.take(i + 1).drop_last() =~= b.take(i));
    lemma_concat_append(nested_chunks(b.take(i)), chunks_bytes(b[i]@));
}

/// The chunks of a prefix of the lists are no longer than all the chunks.
proof fn lemma_nested_chunks_prefix_len(b: Seq<&[Bytes]>, i: int)
    requires
        0 <= i <= b.len(),
    ensures
        concat(nested_chunks(b.take(i))).len() <= concat(nested_chunks(b)).len(),
    decreases b.len() - i,
{
    if i == b.len() {
        assert(b.take(i) =~= b);
    } else {
        lemma_nested_chunks_take(b, i);
        lemma_nested_chunks_prefix_len(b, i + 1);
    }
}

/// The bytes of all the chunks of all the lists.
pub open spec fn chunks_data(data: Seq<&[Bytes]>) -> Seq<u8> {
    concat(nested_chunks(data))
}

/// A zero-copy write queues every chunk of every list, in order, each as it
/// is: no lists give no chunks, two runs of lists joined give the chunks of
/// the first then those of the second, and one list gives its chunks; the
/// data announced is those chunks one after the other.
pub proof fn law_zero_copy_chunks_in_order(a: Seq<&[Bytes]>, b: Seq<&[Bytes]>, l: &[Bytes], c: Seq<Bytes>)
    ensures
        nested_chunks(Seq::empty()) == Seq::<Seq<u8>>::empty(),
        nested_chunks(a + b) == nested_chunks(a) + nested_chunks(b),
        nested_chunks(seq![l]) == chunks_bytes(l@),
        chunks_bytes(c).len() == c.len(),
        forall|j: int| 0 <= j < c.len() ==> #[trigger] chunks_bytes(c)[j] == bytes_contents(c[j]),
        chunks_data(a + b) == chunks_data(a) + chunks_data(b),
        chunks_data(a) == concat(nested_chunks(a)),
    decreases b.len(),
{
    if b.len() == 0 {
        assert(a + b =~= a);
        assert(nested_chunks(a) + nested_chunks(b) =~= nested_chunks(a));
    } else {
        law_zero_copy_chunks_in_order(a, b.drop_last(), l, c);
        assert((a + b).drop_last() =~= a + b.drop_last());
        assert((a + b).last() == b.last());
        assert(nested_chunks(a + b) =~= nested_chunks(a) + nested_chunks(b));
    }
    assert(seq![l].drop_last() =~= Seq::<&[Bytes]>::empty());
    assert(nested_chunks(Seq::<&[Bytes]>::empty()) =~= Seq::<Seq<u8>>::empty());
    assert(seq![l].last() == l);
    assert(nested_chunks(seq![l]) =~= chunks_bytes(l@));
    lemma_concat_append(nested_chunks(a), nested_chunks(b));
}

/// The total length of the chunks, if it fits in a `u32`.
fn chunks_len(data: &[&[Bytes]]) -> (r: Option<u32>)
    ensures
        r is Some <==> chunks_data(data@).len() <= u32::MAX,
        r matches Some(n) ==> n == chunks_data(data@).len(),
{
    let mut total: usize = 0;
    let mut i: usize = 0;
    while i < data.len()
        invariant
            i <= data@.len(),
            total == concat(nested_chunks(data@.take(i as int))).len(),
            total <= u32::MAX,
        decreases data@.len() - i,
    {
        let inner = data[i];
        let mut j: usize = 0;
        while j < inner.len()
            invariant
                inner == data@[i as int],
                i < data@.len(),
                j <= inner@.len(),
                total == concat(nested_chunks(data@.take(i as int))).len() + concat(
                    chunks_bytes(inner@.take(j as int)),
                ).len(),
                total <= u32::MAX,
            decreases inner@.len() - j,
        {
            proof {
                lemma_chunks_take(inner@, j as int);
            }
            let l = bytes_len(&inner[j]);
            if l > u32::MAX as usize - total {
                proof {
                    lemma_concat_prefix_len(chunks_bytes(inner@), j + 1);
                    lemma_nested_chunks_take(data@, i as int);
                    lemma_nested_chunks_prefix_len(data@, i + 1);
                }
                return None;
            }
            total = total + l;
            j = j + 1;
        }
        proof {
            assert(inner@.take(j as int) =~= inner@);
            lemma_nested_chunks_take(data@, i as int);
        }
        i = i + 1;
    }
    assert(data@.take(i as int) =~= data@);
    Some(total as u32)
}

/// The data of a write request, encoded as a byte string, is its length and
/// then its bytes.
proof fn lemma_write_body(request_id: u32, handle: &Handle, offset: u64, data: &[u8])
    requires
        data@.len() <= u32::MAX,
    ensures
        request_body(request_id, SftpRequest::Write { handle, offset, data }) == write_fields(
            request_id,
            handle@,
            offset,
            data@.len() as u32,
        ) + data@,
{
    assert(request_body(request_id, SftpRequest::Write { handle, offset, data }) =~= write_fields(
        request_id,
        handle@,
        offset,
        data@.len() as u32,
    ) + data@);
}

/// The three ways of sending a write request put the same bytes on the wire
/// and succeed on the same requests: copying one slice of data
/// (`send_write_request_buffered`), copying lists of slices
/// (`send_write_request_buffered_vectored2`), or queueing the header and
/// then the chunks without copying them (`send_write_request_zero_copy2`).
pub proof fn law_write_paths_agree(
    request_id: u32,
    handle: &Handle,
    offset: u64,
    data: &[u8],
    bufs: Seq<&[&[u8]]>,
    chunks: Seq<&[Bytes]>,
)
    requires
        data@.len() <= u32::MAX,
        io_slices_bytes(bufs) == data@,
        chunks_data(chunks) == data@,
    ensures
        write_header(request_id, handle@, offset, data@.len() as u32) + io_slices_bytes(bufs)
            == request_packet(request_id, SftpRequest::Write { handle, offset, data }),
        concat(seq![write_header(request_id, handle@, offset, data@.len() as u32)] + nested_chunks(
            chunks,
        )) == request_packet(request_id, SftpRequest::Write { handle, offset, data }),
        write_sendable(request_id, handle@, offset, data@.len() as u32) == request_sendable(
            request_id,
            SftpRequest::Write { handle, offset, data },
        ),
{
    let len = data@.len() as u32;
    let header = write_header(request_id, handle@, offset, len);
    lemma_write_body(request_id, handle, offset, data);
    assert(header + io_slices_bytes(bufs) =~= request_packet(
        request_id,
        SftpRequest::Write { handle, offset, data },
    ));
    lemma_concat_append(seq![header], nested_chunks(chunks));
    lemma_concat_push(Seq::empty(), header);
    assert(seq![header] =~= Seq::<Seq<u8>>::empty().push(header));
    assert(concat(Seq::<Seq<u8>>::empty()) =~= Seq::<u8>::empty());
    assert(concat(seq![header]) =~= header);
}

/// The type of a request's packet.
pub open spec fn request_packet_type(request: SftpRequest) -> u8 {
    match request {
        SftpRequest::Open(..) => SSH_FXP_OPEN,
        SftpRequest::Close(..) => SSH_FXP_CLOSE,
        SftpRequest::Read { .. } => SSH_FXP_READ,
        SftpRequest::Remove(..) => SSH_FXP_REMOVE,
        SftpRequest::Rename { .. } => SSH_FXP_RENAME,
        SftpRequest::Mkdir { .. } => SSH_FXP_MKDIR,
        SftpRequest::Rmdir(..) => SSH_FXP_RMDIR,
        SftpRequest::Opendir(..) => SSH_FXP_OPENDIR,
        SftpRequest::Readdir(..) => SSH_FXP_READDIR,
        SftpRequest::Stat(..) => SSH_FXP_STAT,
        SftpRequest::Lstat(..) => SSH_FXP_LSTAT,
        SftpRequest::Fstat(..) => SSH_FXP_FSTAT,
        SftpRequest::Setstat { .. } => SSH_FXP_SETSTAT,
        SftpRequest::Fsetstat { .. } => SSH_FXP_FSETSTAT,
        SftpRequest::Readlink(..) => SSH_FXP_READLINK,
        SftpRequest::Symlink { .. } => SSH_FXP_SYMLINK,
        SftpRequest::Realpath(..) => SSH_FXP_REALPATH,
        SftpRequest::Write { .. } => SSH_FXP_WRITE,
        _ => SSH_FXP_EXTENDED,
    }
}

/// Every packet of a request announces the length of what follows it, then
/// the type of the request, then the id the response will carry.
#[verifier::rlimit(40)]
pub proof fn law_packet_carries_id(request_id: u32, request: SftpRequest)
    requires
        request_sendable(request_id, request),
    ensures
        request_packet(request_id, request).len() >= 9,
        request_packet(request_id, request).take(4) == be_u32(
            (request_packet(request_id, request).len() - 4) as u32,
        ),
        request_packet(request_id, request)[4] == request_packet_type(request),
        request_packet(request_id, request).subrange(5, 9) == be_u32(request_id),
{
    let body = request_body(request_id, request);
    let prefix = request_prefix(request_packet_type(request), request_id);
    assert(body.len() >= 5 && body.take(5) =~= prefix);
    let p = request_packet(request_id, request);
    assert(p.take(4) =~= be_u32(body.len() as u32));
    assert(p.subrange(4, 9) =~= prefix);
    assert(p.subrange(5, 9) =~= be_u32(request_id));
}

/// Serialize into `ser` the header of a write request whose data is `len`
/// bytes long, if it can be; otherwise `ser` keeps just the room for a header.
fn put_write_header(ser: &mut WriteBuffer, request_id: u32, handle: &Handle, offset: u64, len: u32) -> (r:
    bool)
    requires
        old(ser)@ == header_placeholder(),
        bytes_fit(handle@) ==> 4 + write_fields(request_id, handle@, offset, len).len()
            <= max_buffer_len(),
    ensures
        r == write_sendable(request_id, handle@, offset, len),
        r ==> final(ser)@ == write_header(request_id, handle@, offset, len),
        !r ==> final(ser)@ == header_placeholder(),
{
    if !bytes_fit_exec(handle.into_inner()) {
        return false;
    }
    ser.push(SSH_FXP_WRITE);
    put_u32(ser, request_id);
    put_bytes(ser, handle.into_inner());
    put_u64(ser, offset);
    put_u32(ser, len);
    let fields_len = ser.len() - 4;
    assert(ser@ =~= header_placeholder() + write_fields(request_id, handle@, offset, len));
    if fields_len > u32::MAX as usize - len as usize {
        ser.truncate(4);
        assert(ser@ =~= header_placeholder());
        return false;
    }
    let header = u32_to_be_bytes((fields_len + len as usize) as u32);
    *ser.get_first_4byte_slice() = header;
    assert(ser@ =~= write_header(request_id, handle@, offset, len));
    true
}

/// The reservation of a response: the slot that identifies the request, and
/// the buffer that its data may be read into.
pub struct Id<Buffer> {
    slot: u32,
    buffer: Option<Buffer>,
}

impl<Buffer> Id<Buffer> {
    pub closed spec fn slot_spec(&self) -> u32 {
        self.slot
    }

    pub closed spec fn buffer_spec(&self) -> Option<Buffer> {
        self.buffer
    }

    /// The reservation of `slot`, with no buffer.
    pub fn new(slot: u32) -> (r: Self)
        ensures
            r.slot_spec() == slot,
            r.buffer_spec() is None,
    {
        Id { slot, buffer: None }
    }

    /// The slot that identifies the request.
    pub fn slot(&self) -> (r: u32)
        ensures
            r == self.slot_spec(),
    {
        self.slot
    }

    /// Take out the buffer the data may be read into.
    pub fn take_buffer(&mut self) -> (r: Option<Buffer>)
        ensures
            r == old(self).buffer_spec(),
            final(self).buffer_spec() is None,
            final(self).slot_spec() == old(self).slot_spec(),
    {
        let mut b = None;
        std::mem::swap(&mut b, &mut self.buffer);
        b
    }

    /// Store `buffer`, dropping the one stored before.
    fn reset(&mut self, buffer: Option<Buffer>)
        ensures
            final(self).buffer_spec() == buffer,
            final(self).slot_spec() == old(self).slot_spec(),
    {
        self.buffer = buffer;
    }
}

/// The response to come is a handle.
pub struct AwaitableHandle<Buffer>(pub Id<Buffer>);

/// The response to come is a status.
pub struct AwaitableStatus<Buffer>(pub Id<Buffer>);

/// The response to come is data.
pub struct AwaitableData<Buffer>(pub Id<Buffer>);

/// The response to come is a name.
pub struct AwaitableName<Buffer>(pub Id<Buffer>);

/// The response to come is the entries of a directory.
pub struct AwaitableNameEntries<Buffer>(pub Id<Buffer>);

/// The response to come is the attributes of a file.
pub struct AwaitableAttrs<Buffer>(pub Id<Buffer>);

/// The response to come is the limits of the server.
pub struct AwaitableLimits<Buffer>(pub Id<Buffer>);

/// The queue of packets waiting to be flushed to the server.
pub struct SharedData {
    queue: Vec<Bytes>,
}

impl SharedData {
    /// The bytes of each packet waiting, in order.
    pub closed spec fn pending(&self) -> Seq<Seq<u8>> {
        chunks_bytes(self.queue@)
    }

    /// An empty queue.
    pub fn new() -> (r: Self)
        ensures
            r.pending() == Seq::<Seq<u8>>::empty(),
    {
        let r = SharedData { queue: Vec::new() };
        assert(r.pending() =~= Seq::<Seq<u8>>::empty());
        r
    }

    /// The number of packets waiting.
    pub fn pending_len(&self) -> (n: usize)
        ensures
            n == self.pending().len(),
    {
        self.queue.len()
    }

    /// Take out every packet waiting, to flush them; the queue is left empty.
    pub fn take_pending(&mut self) -> (r: Vec<Bytes>)
        ensures
            chunks_bytes(r@) == old(self).pending(),
            final(self).pending() == Seq::<Seq<u8>>::empty(),
    {
        let mut r = Vec::new();
        std::mem::swap(&mut r, &mut self.queue);
        assert(self.pending() =~= Seq::<Seq<u8>>::empty());
        r
    }

    /// Queue one more packet.
    fn push(&mut self, b: Bytes)
        ensures
            final(self).pending() == old(self).pending().push(bytes_contents(b)),
    {
        self.queue.push(b);
        assert(self.pending() =~= old(self).pending().push(bytes_contents(b)));
    }
}

/// What a call that sends `request` with `id` did: either the packet was
/// queued and the id, holding `buffer`, comes back; or the request cannot be
/// serialized and nothing was queued.
pub open spec fn request_outcome<Buffer>(
    before: Seq<Seq<u8>>,
    after: Seq<Seq<u8>>,
    id: Id<Buffer>,
    request: SftpRequest,
    buffer: Option<Buffer>,
    r: Result<Id<Buffer>, Error>,
) -> bool {
    match r {
        Ok(new_id) => {
            &&& request_sendable(id.slot_spec(), request)
            &&& new_id.slot_spec() == id.slot_spec()
            &&& new_id.buffer_spec() == buffer
            &&& after == before.push(request_packet(id.slot_spec(), request))
        },
        Err(e) => {
            &&& !request_sendable(id.slot_spec(), request)
            &&& e == Error::TooLong
            &&& after == before
        },
    }
}

/// What a call that sends a write request with `id` did: either the packets
/// `chunks` were queued and the id, holding no buffer, comes back; or the
/// request cannot be serialized and nothing was queued.
pub open spec fn write_outcome<Buffer>(
    before: Seq<Seq<u8>>,
    after: Seq<Seq<u8>>,
    id: Id<Buffer>,
    handle: Seq<u8>,
    offset: u64,
    len: u32,
    chunks: Seq<Seq<u8>>,
    r: Result<Id<Buffer>, Error>,
) -> bool {
    match r {
        Ok(new_id) => {
            &&& write_sendable(id.slot_spec(), handle, offset, len)
            &&& new_id.slot_spec() == id.slot_spec()
            &&& new_id.buffer_spec() is None
            &&& after == before + chunks
        },
        Err(e) => {
            &&& !write_sendable(id.slot_spec(), handle, offset, len)
            &&& e == Error::TooLong
            &&& after == before
        },
    }
}

/// The write request was refused because its data is longer than `u32::MAX`
/// bytes, and nothing was queued.
pub open spec fn refused_too_long<A>(before: Seq<Seq<u8>>, after: Seq<Seq<u8>>, r: Result<A, Error>) -> bool {
    &&& r matches Err(e) && e == Error::BufferTooLong
    &&& after == before
}

/// The id in a result, if any.
pub open spec fn result_id<A, Buffer>(r: Result<A, Error>, f: spec_fn(A) -> Id<Buffer>) -> Result<
    Id<Buffer>,
    Error,
> {
    match r {
        Ok(a) => Ok(f(a)),
        Err(e) => Err(e),
    }
}

/// Serializes requests and queues them for the server.
pub struct WriteEnd {
    serializer: Option<WriteBuffer>,
    shared_data: SharedData,
}

impl WriteEnd {
    /// Between two calls the serializer holds just the room for a header:
    /// nothing of an earlier request is left in it.
    #[verifier::type_invariant]
    spec fn inv(self) -> bool {
        self.serializer matches Some(s) ==> s@ == header_placeholder()
    }

    /// Take the serializer out; it holds just the room for a header.
    fn take_serializer(&mut self) -> (ser: WriteBuffer)
        ensures
            ser@ == header_placeholder(),
            final(self).pending() == old(self).pending(),
    {
        proof {
            use_type_invariant(&*self);
        }
        let mut slot: Option<WriteBuffer> = None;
        std::mem::swap(&mut slot, &mut self.serializer);
        match slot {
            Some(ser) => ser,
            None => WriteBuffer::new(),
        }
    }

    /// Put the serializer back, once it holds just the room for a header again.
    fn put_back_serializer(&mut self, ser: WriteBuffer)
        requires
            ser@ == header_placeholder(),
        ensures
            final(self).pending() == old(self).pending(),
    {
        self.serializer = Some(ser);
    }

    /// Take the queue out, leaving an empty one in its place.
    fn take_shared_data(&mut self) -> (shared: SharedData)
        ensures
            shared.pending() == old(self).pending(),
            final(self).pending() == Seq::<Seq<u8>>::empty(),
    {
        proof {
            use_type_invariant(&*self);
        }
        let mut shared = SharedData::new();
        std::mem::swap(&mut shared, &mut self.shared_data);
        shared
    }

    /// Put the queue back.
    fn put_back_shared_data(&mut self, shared: SharedData)
        ensures
            final(self).pending() == shared.pending(),
    {
        proof {
            use_type_invariant(&*self);
        }
        self.shared_data = shared;
    }

    /// Queue one more packet.
    fn push_packet(&mut self, packet: Bytes)
        ensures
            final(self).pending() == old(self).pending().push(bytes_contents(packet)),
    {
        let mut shared = self.take_shared_data();
        shared.push(packet);
        self.put_back_shared_data(shared);
    }

    /// The packets waiting to be flushed.
    pub closed spec fn pending(&self) -> Seq<Seq<u8>> {
        self.shared_data.pending()
    }

    /// Create a [`WriteEnd`] from [`SharedData`].
    pub fn new(shared_data: SharedData) -> (r: Self)
        ensures
            r.pending() == shared_data.pending(),
    {
        WriteEnd { serializer: Some(WriteBuffer::new()), shared_data }
    }

    /// Consume the [`WriteEnd`] and return the stored [`SharedData`].
    pub fn into_shared_data(self) -> (r: SharedData)
        ensures
            r.pending() == self.pending(),
    {
        self.shared_data
    }

    /// The stored [`SharedData`].
    pub fn shared_data(&self) -> (r: &SharedData)
        ensures
            r.pending() == self.pending(),
    {
        &self.shared_data
    }

    /// Take out every packet waiting, to flush them; the queue is left empty.
    pub fn take_pending(&mut self) -> (r: Vec<Bytes>)
        ensures
            chunks_bytes(r@) == old(self).pending(),
            final(self).pending() == Seq::<Seq<u8>>::empty(),
    {
        let mut shared = self.take_shared_data();
        let r = shared.take_pending();
        self.put_back_shared_data(shared);
        r
    }

    /// The packet announcing the version of the protocol the client speaks.
    pub fn serialize_hello(&mut self, version: u32) -> (r: Bytes)
        ensures
            final(self).pending() == old(self).pending(),
            bytes_contents(r) == packet(seq![SSH_FXP_INIT] + be_u32(version)),
    {
        let mut ser = self.take_serializer();
        ser.push(SSH_FXP_INIT);
        put_u32(&mut ser, version);
        let header = u32_to_be_bytes(5);
        *ser.get_first_4byte_slice() = header;
        let r = ser.split();
        self.put_back_serializer(ser);
        assert(bytes_contents(r) =~= packet(seq![SSH_FXP_INIT] + be_u32(version)));
        r
    }

    /// Serialize `request`, sent with `request_id`, into one packet.
    ///
    /// The serializer starts over from the room for the header, so the packet
    /// is the same whatever it held before; on success it is left holding just
    /// that room again, and on failure its first four bytes.
    pub fn serialize(serializer: &mut WriteBuffer, request_id: u32, request: &SftpRequest) -> (r:
        Result<Bytes, Error>)
        requires
            old(serializer)@.len() >= 4,
            request_fits_memory(request_id, *request),
        ensures
            match r {
                Ok(b) => {
                    &&& request_sendable(request_id, *request)
                    &&& bytes_contents(b) == request_packet(request_id, *request)
                    &&& final(serializer)@ == header_placeholder()
                },
                Err(e) => {
                    &&& !request_sendable(request_id, *request)
                    &&& e == Error::TooLong
                    &&& final(serializer)@ == old(serializer)@.take(4)
                },
            },
    {
        serializer.truncate(4);
        if !request_fits_exec(request) {
            return Err(Error::TooLong);
        }
        put_request(serializer, request_id, request);
        let body_len = serializer.len() - 4;
        if body_len > u32::MAX as usize {
            serializer.truncate(4);
            assert(serializer@ =~= old(serializer)@.take(4));
            return Err(Error::TooLong);
        }
        let header = u32_to_be_bytes(body_len as u32);
        *serializer.get_first_4byte_slice() = header;
        let serialized = serializer.split();
        assert(bytes_contents(serialized) =~= request_packet(request_id, *request));
        Ok(serialized)
    }

    /// Serialize `request` into one packet and queue it.
    ///
    /// NOTE that this merely adds the request to the queue; the queue is sent
    /// to the server when it is flushed.
    fn send_request<Buffer>(&mut self, id: Id<Buffer>, request: &SftpRequest, buffer: Option<
        Buffer,
    >) -> (r: Result<Id<Buffer>, Error>)
        requires
            request_fits_memory(id.slot_spec(), *request),
        ensures
            request_outcome(old(self).pending(), final(self).pending(), id, *request, buffer, r),
    {
        let mut id = id;
        let mut ser = self.take_serializer();
        let serialized = Self::serialize(&mut ser, id.slot, request);
        assert(ser@ =~= header_placeholder());
        self.put_back_serializer(ser);
        match serialized {
            Ok(packet) => {
                id.reset(buffer);
                self.push_packet(packet);
                Ok(id)
            },
            Err(e) => Err(e),
        }
    }

    /// NOTE that this merely adds the request to the queue; the queue is sent
    /// to the server when it is flushed.
    pub fn send_open_file_request<Buffer>(
        &mut self,
        id: Id<Buffer>,
        params: OpenFileRequest,
    ) -> (r: Result<AwaitableHandle<Buffer>, Error>)
        requires
            request_fits_memory(id.slot_spec(), SftpRequest::Open(params)),
        ensures
            request_outcome(
                old(self).pending(),
                final(self).pending(),
                id,
                SftpRequest::Open(params),
                None,
                result_id(r, |a: AwaitableHandle<Buffer>| a.0),
            ),
    {
        match self.send_request(id, &SftpRequest::Open(params), None) {
            Ok(id) => Ok(AwaitableHandle(id)),
            Err(e) => Err(e),
        }
    }

    /// NOTE that this merely adds the request to the queue; the queue is sent
    /// to the server when it is flushed.
    pub fn send_close_request<Buffer>(
        &mut self,
        id: Id<Buffer>,
        handle: &Handle,
    ) -> (r: Result<AwaitableStatus<Buffer>, Error>)
        requires
            request_fits_memory(id.slot_spec(), SftpRequest::Close(handle)),
        ensures
            request_outcome(
                old(self).pending(),
                final(self).pending(),
                id,
                SftpRequest::Close(handle),
                None,
                result_id(r, |a: AwaitableStatus<Buffer>| a.0),
            ),
    {
        match self.send_request(id, &SftpRequest::Close(handle), None) {
            Ok(id) => Ok(AwaitableStatus(id)),
            Err(e) => Err(e),
        }
    }

    /// - `buffer` - where the data read may be put; it is handed back with
    ///   the id.
    ///
    /// NOTE that this merely adds the request to the queue; the queue is sent
    /// to the server when it is flushed.
    pub fn send_read_request<Buffer>(
        &mut self,
        id: Id<Buffer>,
        handle: &Handle,
        offset: u64,
        len: u32,
        buffer: Option<Buffer>,
    ) -> (r: Result<AwaitableData<Buffer>, Error>)
        requires
            request_fits_memory(id.slot_spec(), SftpRequest::Read { handle, offset, len }),
        ensures
            request_outcome(
                old(self).pending(),
                final(self).pending(),
                id,
                SftpRequest::Read { handle, offset, len },
                buffer,
                result_id(r, |a: AwaitableData<Buffer>| a.0),
            ),
    {
        match self.send_request(id, &SftpRequest::Read { handle, offset, len }, buffer) {
            Ok(id) => Ok(AwaitableData(id)),
            Err(e) => Err(e),
        }
    }

    /// NOTE that this merely adds the request to the queue; the queue is sent
    /// to the server when it is flushed.
    pub fn send_remove_request<Buffer>(
        &mut self,
        id: Id<Buffer>,
        path: &str,
    ) -> (r: Result<AwaitableStatus<Buffer>, Error>)
        requires
            request_fits_memory(id.slot_spec(), SftpRequest::Remove(path)),
        ensures
            request_outcome(
                old(self).pending(),
                final(self).pending(),
                id,
                SftpRequest::Remove(path),
                None,
                result_id(r, |a: AwaitableStatus<Buffer>| a.0),
            ),
    {
        match self.send_request(id, &SftpRequest::Remove(path), None) {
            Ok(id) => Ok(AwaitableStatus(id)),
            Err(e) => Err(e),
        }
    }

    /// NOTE that this merely adds the request to the queue; the queue is sent
    /// to the server when it is flushed.
    pub fn send_rename_request<Buffer>(
        &mut self,
        id: Id<Buffer>,
        oldpath: &str,
        newpath: &str,
    ) -> (r: Result<AwaitableStatus<Buffer>, Error>)
        requires
            request_fits_memory(id.slot_spec(), SftpRequest::Rename { oldpath, newpath }),
        ensures
            request_outcome(
                old(self).pending(),
                final(self).pending(),
                id,
                SftpRequest::Rename { oldpath, newpath },
                None,
                result_id(r, |a: AwaitableStatus<Buffer>| a.0),
            ),
    {
        match self.send_request(id, &SftpRequest::Rename { oldpath, newpath }, None) {
            Ok(id) => Ok(AwaitableStatus(id)),
            Err(e) => Err(e),
        }
    }

    /// NOTE that this merely adds the request to the queue; the queue is sent
    /// to the server when it is flushed.
    pub fn send_mkdir_request<Buffer>(
        &mut self,
        id: Id<Buffer>,
        path: &str,
        attrs: FileAttrs,
    ) -> (r: Result<AwaitableStatus<Buffer>, Error>)
        requires
            request_fits_memory(id.slot_spec(), SftpRequest::Mkdir { path, attrs }),
        ensures
            request_outcome(
                old(self).pending(),
                final(self).pending(),
                id,
                SftpRequest::Mkdir { path, attrs },
                None,
                result_id(r, |a: AwaitableStatus<Buffer>| a.0),
            ),
    {
        match self.send_request(id, &SftpRequest::Mkdir { path, attrs }, None) {
            Ok(id) => Ok(AwaitableStatus(id)),
            Err(e) => Err(e),
        }
    }

    /// NOTE that this merely adds the request to the queue; the queue is sent
    /// to the server when it is flushed.
    pub fn send_rmdir_request<Buffer>(
        &mut self,
        id: Id<Buffer>,
        path: &str,
    ) -> (r: Result<AwaitableStatus<Buffer>, Error>)
        requires
            request_fits_memory(id.slot_spec(), SftpRequest::Rmdir(path)),
        ensures
            request_outcome(
                old(self).pending(),
                final(self).pending(),
                id,
                SftpRequest::Rmdir(path),
                None,
                result_id(r, |a: AwaitableStatus<Buffer>| a.0),
            ),
    {
        match self.send_request(id, &SftpRequest::Rmdir(path), None) {
            Ok(id) => Ok(AwaitableStatus(id)),
            Err(e) => Err(e),
        }
    }

    /// NOTE that this merely adds the request to the queue; the queue is sent
    /// to the server when it is flushed.
    pub fn send_opendir_request<Buffer>(
        &mut self,
        id: Id<Buffer>,
        path: &str,
    ) -> (r: Result<AwaitableHandle<Buffer>, Error>)
        requires
            request_fits_memory(id.slot_spec(), SftpRequest::Opendir(path)),
        ensures
            request_outcome(
                old(self).pending(),
                final(self).pending(),
                id,
                SftpRequest::Opendir(path),
                None,
                result_id(r, |a: AwaitableHandle<Buffer>| a.0),
            ),
    {
        match self.send_request(id, &SftpRequest::Opendir(path), None) {
            Ok(id) => Ok(AwaitableHandle(id)),
            Err(e) => Err(e),
        }
    }

    /// Return all entries in the directory specified by the `handle`, including
    /// `.` and `..`.
    ///
    /// NOTE that this merely adds the request to the queue; the queue is sent
    /// to the server when it is flushed.
    pub fn send_readdir_request<Buffer>(
        &mut self,
        id: Id<Buffer>,
        handle: &Handle,
    ) -> (r: Result<AwaitableNameEntries<Buffer>, Error>)
        requires
            request_fits_memory(id.slot_spec(), SftpRequest::Readdir(handle)),
        ensures
            request_outcome(
                old(self).pending(),
                final(self).pending(),
                id,
                SftpRequest::Readdir(handle),
                None,
                result_id(r, |a: AwaitableNameEntries<Buffer>| a.0),
            ),
    {
        match self.send_request(id, &SftpRequest::Readdir(handle), None) {
            Ok(id) => Ok(AwaitableNameEntries(id)),
            Err(e) => Err(e),
        }
    }

    /// NOTE that this merely adds the request to the queue; the queue is sent
    /// to the server when it is flushed.
    pub fn send_stat_request<Buffer>(
        &mut self,
        id: Id<Buffer>,
        path: &str,
    ) -> (r: Result<AwaitableAttrs<Buffer>, Error>)
        requires
            request_fits_memory(id.slot_spec(), SftpRequest::Stat(path)),
        ensures
            request_outcome(
                old(self).pending(),
                final(self).pending(),
                id,
                SftpRequest::Stat(path),
                None,
                result_id(r, |a: AwaitableAttrs<Buffer>| a.0),
            ),
    {
        match self.send_request(id, &SftpRequest::Stat(path), None) {
            Ok(id) => Ok(AwaitableAttrs(id)),
            Err(e) => Err(e),
        }
    }

    /// Does not follow symlink.
    ///
    /// NOTE that this merely adds the request to the queue; the queue is sent
    /// to the server when it is flushed.
    pub fn send_lstat_request<Buffer>(
        &mut self,
        id: Id<Buffer>,
        path: &str,
    ) -> (r: Result<AwaitableAttrs<Buffer>, Error>)
        requires
            request_fits_memory(id.slot_spec(), SftpRequest::Lstat(path)),
        ensures
            request_outcome(
                old(self).pending(),
                final(self).pending(),
                id,
                SftpRequest::Lstat(path),
                None,
                result_id(r, |a: AwaitableAttrs<Buffer>| a.0),
            ),
    {
        match self.send_request(id, &SftpRequest::Lstat(path), None) {
            Ok(id) => Ok(AwaitableAttrs(id)),
            Err(e) => Err(e),
        }
    }

    /// * `handle` - Must be opened with `FileMode::READ`.
    ///
    /// NOTE that this merely adds the request to the queue; the queue is sent
    /// to the server when it is flushed.
    pub fn send_fstat_request<Buffer>(
        &mut self,
        id: Id<Buffer>,
        handle: &Handle,
    ) -> (r: Result<AwaitableAttrs<Buffer>, Error>)
        requires
            request_fits_memory(id.slot_spec(), SftpRequest::Fstat(handle)),
        ensures
            request_outcome(
                old(self).pending(),
                final(self).pending(),
                id,
                SftpRequest::Fstat(handle),
                None,
                result_id(r, |a: AwaitableAttrs<Buffer>| a.0),
            ),
    {
        match self.send_request(id, &SftpRequest::Fstat(handle), None) {
            Ok(id) => Ok(AwaitableAttrs(id)),
            Err(e) => Err(e),
        }
    }

    /// NOTE that this merely adds the request to the queue; the queue is sent
    /// to the server when it is flushed.
    pub fn send_setstat_request<Buffer>(
        &mut self,
        id: Id<Buffer>,
        path: &str,
        attrs: FileAttrs,
    ) -> (r: Result<AwaitableStatus<Buffer>, Error>)
        requires
            request_fits_memory(id.slot_spec(), SftpRequest::Setstat { path, attrs }),
        ensures
            request_outcome(
                old(self).pending(),
                final(self).pending(),
                id,
                SftpRequest::Setstat { path, attrs },
                None,
                result_id(r, |a: AwaitableStatus<Buffer>| a.0),
            ),
    {
        match self.send_request(id, &SftpRequest::Setstat { path, attrs }, None) {
            Ok(id) => Ok(AwaitableStatus(id)),
            Err(e) => Err(e),
        }
    }

    /// * `handle` - Must be opened with `OpenOptions::write` set.
    ///
    /// NOTE that this merely adds the request to the queue; the queue is sent
    /// to the server when it is flushed.
    pub fn send_fsetstat_request<Buffer>(
        &mut self,
        id: Id<Buffer>,
        handle: &Handle,
        attrs: FileAttrs,
    ) -> (r: Result<AwaitableStatus<Buffer>, Error>)
        requires
            request_fits_memory(id.slot_spec(), SftpRequest::Fsetstat { handle, attrs }),
        ensures
            request_outcome(
                old(self).pending(),
                final(self).pending(),
                id,
                SftpRequest::Fsetstat { handle, attrs },
                None,
                result_id(r, |a: AwaitableStatus<Buffer>| a.0),
            ),
    {
        match self.send_request(id, &SftpRequest::Fsetstat { handle, attrs }, None) {
            Ok(id) => Ok(AwaitableStatus(id)),
            Err(e) => Err(e),
        }
    }

    /// NOTE that this merely adds the request to the queue; the queue is sent
    /// to the server when it is flushed.
    pub fn send_readlink_request<Buffer>(
        &mut self,
        id: Id<Buffer>,
        path: &str,
    ) -> (r: Result<AwaitableName<Buffer>, Error>)
        requires
            request_fits_memory(id.slot_spec(), SftpRequest::Readlink(path)),
        ensures
            request_outcome(
                old(self).pending(),
                final(self).pending(),
                id,
                SftpRequest::Readlink(path),
                None,
                result_id(r, |a: AwaitableName<Buffer>| a.0),
            ),
    {
        match self.send_request(id, &SftpRequest::Readlink(path), None) {
            Ok(id) => Ok(AwaitableName(id)),
            Err(e) => Err(e),
        }
    }

    /// NOTE that this merely adds the request to the queue; the queue is sent
    /// to the server when it is flushed.
    pub fn send_realpath_request<Buffer>(
        &mut self,
        id: Id<Buffer>,
        path: &str,
    ) -> (r: Result<AwaitableName<Buffer>, Error>)
        requires
            request_fits_memory(id.slot_spec(), SftpRequest::Realpath(path)),
        ensures
            request_outcome(
                old(self).pending(),
                final(self).pending(),
                id,
                SftpRequest::Realpath(path),
                None,
                result_id(r, |a: AwaitableName<Buffer>| a.0),
            ),
    {
        match self.send_request(id, &SftpRequest::Realpath(path), None) {
            Ok(id) => Ok(AwaitableName(id)),
            Err(e) => Err(e),
        }
    }

    /// Create symlink `linkpath` pointing at `targetpath`.
    ///
    /// NOTE that this merely adds the request to the queue; the queue is sent
    /// to the server when it is flushed.
    pub fn send_symlink_request<Buffer>(
        &mut self,
        id: Id<Buffer>,
        targetpath: &str,
        linkpath: &str,
    ) -> (r: Result<AwaitableStatus<Buffer>, Error>)
        requires
            request_fits_memory(id.slot_spec(), SftpRequest::Symlink { linkpath, targetpath }),
        ensures
            request_outcome(
                old(self).pending(),
                final(self).pending(),
                id,
                SftpRequest::Symlink { linkpath, targetpath },
                None,
                result_id(r, |a: AwaitableStatus<Buffer>| a.0),
            ),
    {
        match self.send_request(id, &SftpRequest::Symlink { linkpath, targetpath }, None) {
            Ok(id) => Ok(AwaitableStatus(id)),
            Err(e) => Err(e),
        }
    }

    /// Return limits of the server.
    ///
    /// Requires the server to support the `limits` extension.
    ///
    /// NOTE that this merely adds the request to the queue; the queue is sent
    /// to the server when it is flushed.
    pub fn send_limits_request<Buffer>(
        &mut self,
        id: Id<Buffer>,
    ) -> (r: Result<AwaitableLimits<Buffer>, Error>)
        requires
            request_fits_memory(id.slot_spec(), SftpRequest::Limits),
        ensures
            request_outcome(
                old(self).pending(),
                final(self).pending(),
                id,
                SftpRequest::Limits,
                None,
                result_id(r, |a: AwaitableLimits<Buffer>| a.0),
            ),
    {
        match self.send_request(id, &SftpRequest::Limits, None) {
            Ok(id) => Ok(AwaitableLimits(id)),
            Err(e) => Err(e),
        }
    }

    /// This supports canonicalisation of relative paths and those that need
    /// tilde-expansion, i.e. "~", "~/..." and "~user/...".
    ///
    /// Requires the server to support the `expand-path` extension.
    ///
    /// NOTE that this merely adds the request to the queue; the queue is sent
    /// to the server when it is flushed.
    pub fn send_expand_path_request<Buffer>(
        &mut self,
        id: Id<Buffer>,
        path: &str,
    ) -> (r: Result<AwaitableName<Buffer>, Error>)
        requires
            request_fits_memory(id.slot_spec(), SftpRequest::ExpandPath(path)),
        ensures
            request_outcome(
                old(self).pending(),
                final(self).pending(),
                id,
                SftpRequest::ExpandPath(path),
                None,
                result_id(r, |a: AwaitableName<Buffer>| a.0),
            ),
    {
        match self.send_request(id, &SftpRequest::ExpandPath(path), None) {
            Ok(id) => Ok(AwaitableName(id)),
            Err(e) => Err(e),
        }
    }

    /// Requires the server to support the `fsync` extension.
    ///
    /// NOTE that this merely adds the request to the queue; the queue is sent
    /// to the server when it is flushed.
    pub fn send_fsync_request<Buffer>(
        &mut self,
        id: Id<Buffer>,
        handle: &Handle,
    ) -> (r: Result<AwaitableStatus<Buffer>, Error>)
        requires
            request_fits_memory(id.slot_spec(), SftpRequest::Fsync(handle)),
        ensures
            request_outcome(
                old(self).pending(),
                final(self).pending(),
                id,
                SftpRequest::Fsync(handle),
                None,
                result_id(r, |a: AwaitableStatus<Buffer>| a.0),
            ),
    {
        match self.send_request(id, &SftpRequest::Fsync(handle), None) {
            Ok(id) => Ok(AwaitableStatus(id)),
            Err(e) => Err(e),
        }
    }

    /// Requires the server to support the `hardlink` extension.
    ///
    /// NOTE that this merely adds the request to the queue; the queue is sent
    /// to the server when it is flushed.
    pub fn send_hardlink_request<Buffer>(
        &mut self,
        id: Id<Buffer>,
        oldpath: &str,
        newpath: &str,
    ) -> (r: Result<AwaitableStatus<Buffer>, Error>)
        requires
            request_fits_memory(id.slot_spec(), SftpRequest::HardLink { oldpath, newpath }),
        ensures
            request_outcome(
                old(self).pending(),
                final(self).pending(),
                id,
                SftpRequest::HardLink { oldpath, newpath },
                None,
                result_id(r, |a: AwaitableStatus<Buffer>| a.0),
            ),
    {
        match self.send_request(id, &SftpRequest::HardLink { oldpath, newpath }, None) {
            Ok(id) => Ok(AwaitableStatus(id)),
            Err(e) => Err(e),
        }
    }

    /// Requires the server to support the `posix-rename` extension.
    ///
    /// NOTE that this merely adds the request to the queue; the queue is sent
    /// to the server when it is flushed.
    pub fn send_posix_rename_request<Buffer>(
        &mut self,
        id: Id<Buffer>,
        oldpath: &str,
        newpath: &str,
    ) -> (r: Result<AwaitableStatus<Buffer>, Error>)
        requires
            request_fits_memory(id.slot_spec(), SftpRequest::PosixRename { oldpath, newpath }),
        ensures
            request_outcome(
                old(self).pending(),
                final(self).pending(),
                id,
                SftpRequest::PosixRename { oldpath, newpath },
                None,
                result_id(r, |a: AwaitableStatus<Buffer>| a.0),
            ),
    {
        match self.send_request(id, &SftpRequest::PosixRename { oldpath, newpath }, None) {
            Ok(id) => Ok(AwaitableStatus(id)),
            Err(e) => Err(e),
        }
    }

    /// The server copies `read_data_length` bytes from `read_from_handle` at
    /// `read_from_offset` to `write_to_handle` at `write_to_offset`; a length
    /// of `0` copies until EOF.
    ///
    /// Requires the server to support the `copy-data` extension.
    ///
    /// NOTE that this merely adds the request to the queue; the queue is sent
    /// to the server when it is flushed.
    pub fn send_copy_data_request<Buffer>(
        &mut self,
        id: Id<Buffer>,
        read_from_handle: &Handle,
        read_from_offset: u64,
        read_data_length: u64,
        write_to_handle: &Handle,
        write_to_offset: u64,
    ) -> (r: Result<AwaitableStatus<Buffer>, Error>)
        requires
            request_fits_memory(id.slot_spec(), SftpRequest::Cp {
                read_from_handle,
                read_from_offset,
                read_data_length,
                write_to_handle,
                write_to_offset,
            }),
        ensures
            request_outcome(
                old(self).pending(),
                final(self).pending(),
                id,
                SftpRequest::Cp {
                    read_from_handle,
                    read_from_offset,
                    read_data_length,
                    write_to_handle,
                    write_to_offset,
                },
                None,
                result_id(r, |a: AwaitableStatus<Buffer>| a.0),
            ),
    {
        match self.send_request(id, &SftpRequest::Cp {
                read_from_handle,
                read_from_offset,
                read_data_length,
                write_to_handle,
                write_to_offset,
            }, None) {
            Ok(id) => Ok(AwaitableStatus(id)),
            Err(e) => Err(e),
        }
    }

    /// Write will extend the file if writing beyond the end of the file.
    ///
    /// It is legal to write way beyond the end of the file, the semantics
    /// are to write zeroes from the end of the file to the specified offset
    /// and then the data.
    ///
    /// NOTE that this merely adds the request to the queue; the queue is sent
    /// to the server when it is flushed.
    ///
    /// This function is only suitable for writing small data since it needs to copy the
    /// entire `data` into buffer.
    pub fn send_write_request_buffered<Buffer>(
        &mut self,
        id: Id<Buffer>,
        handle: &Handle,
        offset: u64,
        data: &[u8],
    ) -> (r: Result<AwaitableStatus<Buffer>, Error>)
        requires
            data@.len() <= u32::MAX ==> request_body(
                id.slot_spec(),
                SftpRequest::Write { handle, offset, data },
            ).len() + 4 <= max_buffer_len(),
        ensures
            data@.len() > u32::MAX ==> refused_too_long(old(self).pending(), final(self).pending(), r),
            data@.len() <= u32::MAX ==> request_outcome(
                old(self).pending(),
                final(self).pending(),
                id,
                SftpRequest::Write { handle, offset, data },
                None,
                result_id(r, |a: AwaitableStatus<Buffer>| a.0),
            ),
    {
        if data.len() > u32::MAX as usize {
            return Err(Error::BufferTooLong);
        }
        let len = data.len() as u32;
        // 9 bytes for the 4-byte len of packet, 1-byte packet type and
        // 4-byte request id, 8 bytes for the offset and 4 bytes for the
        // length of the data.
        let mut ser = self.take_serializer();
        ser.reserve(9 + handle.into_inner().len() + 8 + 4 + len as usize);
        self.put_back_serializer(ser);
        match self.send_request(id, &SftpRequest::Write { handle, offset, data }, None) {
            Ok(id) => Ok(AwaitableStatus(id)),
            Err(e) => Err(e),
        }
    }

    /// Same as [`WriteEnd::send_write_request_buffered_vectored2`] with one
    /// list of slices.
    pub fn send_write_request_buffered_vectored<Buffer>(
        &mut self,
        id: Id<Buffer>,
        handle: &Handle,
        offset: u64,
        io_slices: &[&[u8]],
    ) -> (r: Result<AwaitableStatus<Buffer>, Error>)
        requires
            io_slices_bytes(seq![io_slices]).len() <= u32::MAX ==> 4 + write_fields(
                id.slot_spec(),
                handle@,
                offset,
                0,
            ).len() + io_slices_bytes(seq![io_slices]).len() <= max_buffer_len(),
        ensures
            io_slices_bytes(seq![io_slices]).len() > u32::MAX ==> refused_too_long(
                old(self).pending(),
                final(self).pending(),
                r,
            ),
            io_slices_bytes(seq![io_slices]).len() <= u32::MAX ==> write_outcome(
                old(self).pending(),
                final(self).pending(),
                id,
                handle@,
                offset,
                io_slices_bytes(seq![io_slices]).len() as u32,
                seq![
                    write_header(
                        id.slot_spec(),
                        handle@,
                        offset,
                        io_slices_bytes(seq![io_slices]).len() as u32,
                    ) + io_slices_bytes(seq![io_slices]),
                ],
                result_id(r, |a: AwaitableStatus<Buffer>| a.0),
            ),
    {
        let bufs: [&[&[u8]]; 1] = [io_slices];
        assert(bufs@ =~= seq![io_slices]);
        self.send_write_request_buffered_vectored2(id, handle, offset, &bufs)
    }

    /// Write will extend the file if writing beyond the end of the file.
    ///
    /// The data is every slice of `bufs`, in order; it is copied into the
    /// packet, which is queued as one piece.
    ///
    /// NOTE that this merely adds the request to the queue; the queue is sent
    /// to the server when it is flushed.
    ///
    /// This function is only suitable for writing small data since it needs to copy the
    /// entire `data` into buffer.
    pub fn send_write_request_buffered_vectored2<Buffer>(
        &mut self,
        id: Id<Buffer>,
        handle: &Handle,
        offset: u64,
        bufs: &[&[&[u8]]],
    ) -> (r: Result<AwaitableStatus<Buffer>, Error>)
        requires
            io_slices_bytes(bufs@).len() <= u32::MAX ==> 4 + write_fields(
                id.slot_spec(),
                handle@,
                offset,
                0,
            ).len() + io_slices_bytes(bufs@).len() <= max_buffer_len(),
        ensures
            io_slices_bytes(bufs@).len() > u32::MAX ==> refused_too_long(
                old(self).pending(),
                final(self).pending(),
                r,
            ),
            io_slices_bytes(bufs@).len() <= u32::MAX ==> write_outcome(
                old(self).pending(),
                final(self).pending(),
                id,
                handle@,
                offset,
                io_slices_bytes(bufs@).len() as u32,
                seq![
                    write_header(
                        id.slot_spec(),
                        handle@,
                        offset,
                        io_slices_bytes(bufs@).len() as u32,
                    ) + io_slices_bytes(bufs@),
                ],
                result_id(r, |a: AwaitableStatus<Buffer>| a.0),
            ),
    {
        let mut id = id;
        let len = match io_slices_len(bufs) {
            Some(n) => n,
            None => {
                return Err(Error::BufferTooLong);
            },
        };
        // 9 bytes for the 4-byte len of packet, 1-byte packet type and
        // 4-byte request id, 8 bytes for the offset and 4 bytes for the
        // length of the data.
        let mut ser = self.take_serializer();
        ser.reserve(9 + handle.into_inner().len() + 8 + 4 + len as usize);
        if !put_write_header(&mut ser, id.slot, handle, offset, len) {
            self.put_back_serializer(ser);
            return Err(Error::TooLong);
        }
        put_io_slices(&mut ser, bufs);
        let packet = ser.split();
        self.put_back_serializer(ser);
        id.reset(None);
        self.push_packet(packet);
        assert(self.pending() =~= old(self).pending() + seq![
            write_header(id.slot, handle@, offset, len) + io_slices_bytes(bufs@),
        ]);
        Ok(AwaitableStatus(id))
    }

    /// Same as [`WriteEnd::send_write_request_zero_copy2`] with one list of
    /// chunks.
    pub fn send_write_request_zero_copy<Buffer>(
        &mut self,
        id: Id<Buffer>,
        handle: &Handle,
        offset: u64,
        data: &[Bytes],
    ) -> (r: Result<AwaitableStatus<Buffer>, Error>)
        requires
            bytes_fit(handle@) ==> 4 + write_fields(id.slot_spec(), handle@, offset, 0).len()
                <= max_buffer_len(),
        ensures
            chunks_data(seq![data]).len() > u32::MAX ==> refused_too_long(
                old(self).pending(),
                final(self).pending(),
                r,
            ),
            chunks_data(seq![data]).len() <= u32::MAX ==> write_outcome(
                old(self).pending(),
                final(self).pending(),
                id,
                handle@,
                offset,
                chunks_data(seq![data]).len() as u32,
                seq![
                    write_header(
                        id.slot_spec(),
                        handle@,
                        offset,
                        chunks_data(seq![data]).len() as u32,
                    ),
                ] + nested_chunks(seq![data]),
                result_id(r, |a: AwaitableStatus<Buffer>| a.0),
            ),
    {
        let data_slice: [&[Bytes]; 1] = [data];
        assert(data_slice@ =~= seq![data]);
        self.send_write_request_zero_copy2(id, handle, offset, &data_slice)
    }

    /// Write will extend the file if writing beyond the end of the file.
    ///
    /// The header of the packet is queued, then every chunk of `data_slice`
    /// in order, without copying their bytes.
    ///
    /// NOTE that this merely adds the request to the queue; the queue is sent
    /// to the server when it is flushed.
    pub fn send_write_request_zero_copy2<Buffer>(
        &mut self,
        id: Id<Buffer>,
        handle: &Handle,
        offset: u64,
        data_slice: &[&[Bytes]],
    ) -> (r: Result<AwaitableStatus<Buffer>, Error>)
        requires
            bytes_fit(handle@) ==> 4 + write_fields(id.slot_spec(), handle@, offset, 0).len()
                <= max_buffer_len(),
        ensures
            chunks_data(data_slice@).len() > u32::MAX ==> refused_too_long(
                old(self).pending(),
                final(self).pending(),
                r,
            ),
            chunks_data(data_slice@).len() <= u32::MAX ==> write_outcome(
                old(self).pending(),
                final(self).pending(),
                id,
                handle@,
                offset,
                chunks_data(data_slice@).len() as u32,
                seq![
                    write_header(
                        id.slot_spec(),
                        handle@,
                        offset,
                        chunks_data(data_slice@).len() as u32,
                    ),
                ] + nested_chunks(data_slice@),
                result_id(r, |a: AwaitableStatus<Buffer>| a.0),
            ),
    {
        let mut id = id;
        let len = match chunks_len(data_slice) {
            Some(n) => n,
            None => {
                return Err(Error::BufferTooLong);
            },
        };
        let mut ser = self.take_serializer();
        if !put_write_header(&mut ser, id.slot, handle, offset, len) {
            self.put_back_serializer(ser);
            return Err(Error::TooLong);
        }
        let header = ser.split();
        self.put_back_serializer(ser);
        // Every packet of the request is queued while the queue is held here,
        // so no other packet comes between them.
        let mut shared = self.take_shared_data();
        let ghost start = shared.pending();
        shared.push(header);
        let mut i: usize = 0;
        while i < data_slice.len()
            invariant
                i <= data_slice@.len(),
                shared.pending() == start.push(bytes_contents(header)) + nested_chunks(
                    data_slice@.take(i as int),
                ),
            decreases data_slice@.len() - i,
        {
            let inner = data_slice[i];
            let mut j: usize = 0;
            proof {
                lemma_nested_chunks_take(data_slice@, i as int);
            }
            while j < inner.len()
                invariant
                        inner == data_slice@[i as int],
                    i < data_slice@.len(),
                    j <= inner@.len(),
                    shared.pending() == start.push(bytes_contents(header)) + nested_chunks(
                        data_slice@.take(i as int),
                    ) + chunks_bytes(inner@.take(j as int)),
                decreases inner@.len() - j,
            {
                proof {
                    lemma_chunks_take(inner@, j as int);
                }
                let chunk = bytes_clone(&inner[j]);
                shared.push(chunk);
                j = j + 1;
                assert(shared.pending() =~= start.push(bytes_contents(header)) + nested_chunks(
                    data_slice@.take(i as int),
                ) + chunks_bytes(inner@.take(j as int)));
            }
            assert(inner@.take(j as int) =~= inner@);
            i = i + 1;
            assert(shared.pending() =~= start.push(bytes_contents(header)) + nested_chunks(
                data_slice@.take(i as int),
            ));
        }
        assert(data_slice@.take(i as int) =~= data_slice@);
        self.put_back_shared_data(shared);
        id.reset(None);
        assert(self.pending() =~= old(self).pending() + (seq![
            write_header(id.slot, handle@, offset, len),
        ] + nested_chunks(data_slice@)));
        Ok(AwaitableStatus(id))
    }
}

} // verus!
