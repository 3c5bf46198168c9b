//! The requests of the sftp protocol (version 3 and the openssh extensions)
//! and their encoding.
use crate::bytes_ext::max_buffer_len;
use crate::encoding::{
    be_u32, be_u64, bytes_fit, bytes_fit_exec, lemma_strip_nul_len, enc_bytes, enc_str, put_bytes, put_str, put_u32,
    put_u64, str_fits, str_fits_exec, strip_nul,
};
use crate::writer::WriteBuffer;

use vstd::prelude::*;
use vstd::string::StringSliceAdditionalSpecFns;
use vstd::utf8::{is_ascii_chars, is_ascii_chars_encode_utf8};

verus! {

/// Version of the sftp protocol spoken.
pub const SSH2_FILEXFER_VERSION: u32 = 3;

pub const SSH_FXP_INIT: u8 = 1;
pub const SSH_FXP_OPEN: u8 = 3;
pub const SSH_FXP_CLOSE: u8 = 4;
pub const SSH_FXP_READ: u8 = 5;
pub const SSH_FXP_WRITE: u8 = 6;
pub const SSH_FXP_LSTAT: u8 = 7;
pub const SSH_FXP_FSTAT: u8 = 8;
pub const SSH_FXP_SETSTAT: u8 = 9;
pub const SSH_FXP_FSETSTAT: u8 = 10;
pub const SSH_FXP_OPENDIR: u8 = 11;
pub const SSH_FXP_READDIR: u8 = 12;
pub const SSH_FXP_REMOVE: u8 = 13;
pub const SSH_FXP_MKDIR: u8 = 14;
pub const SSH_FXP_RMDIR: u8 = 15;
pub const SSH_FXP_REALPATH: u8 = 16;
pub const SSH_FXP_STAT: u8 = 17;
pub const SSH_FXP_RENAME: u8 = 18;
pub const SSH_FXP_READLINK: u8 = 19;
pub const SSH_FXP_SYMLINK: u8 = 20;
pub const SSH_FXP_EXTENDED: u8 = 200;

pub const SSH_FILEXFER_ATTR_SIZE: u32 = 0x1;
pub const SSH_FILEXFER_ATTR_UIDGID: u32 = 0x2;
pub const SSH_FILEXFER_ATTR_PERMISSIONS: u32 = 0x4;
pub const SSH_FILEXFER_ATTR_ACMODTIME: u32 = 0x8;

pub const SSH_FXF_READ: u32 = 0x1;
pub const SSH_FXF_WRITE: u32 = 0x2;
pub const SSH_FXF_APPEND: u32 = 0x4;
pub const SSH_FXF_CREAT: u32 = 0x8;
pub const SSH_FXF_TRUNC: u32 = 0x10;
pub const SSH_FXF_EXCL: u32 = 0x20;

/// Name of the extension for server limits.
pub const EXT_NAME_LIMITS: &'static str = "limits@openssh.com";
/// Name of the extension for tilde expansion of paths.
pub const EXT_NAME_EXPAND_PATH: &'static str = "expand-path@openssh.com";
/// Name of the extension for fsync.
pub const EXT_NAME_FSYNC: &'static str = "fsync@openssh.com";
/// Name of the extension for hard links.
pub const EXT_NAME_HARDLINK: &'static str = "hardlink@openssh.com";
/// Name of the extension for posix rename.
pub const EXT_NAME_POSIX_RENAME: &'static str = "posix-rename@openssh.com";
/// Name of the extension for copying data between handles.
pub const EXT_NAME_COPY_DATA: &'static str = "copy-data";

/// The permission bits that a file's mode may carry (`0o7777`).
pub const PERMISSION_BITS_MODULUS: u32 = 0o10000;

/// Attributes of a file: each one is either set or absent.
#[derive(Debug, Clone, Copy)]
pub struct FileAttrs {
    size: Option<u64>,
    id: Option<(u32, u32)>,
    permissions: Option<u32>,
    time: Option<(u32, u32)>,
}

/// What a `FileAttrs` holds.
pub struct FileAttrsView {
    pub size: Option<u64>,
    /// uid and gid
    pub id: Option<(u32, u32)>,
    /// permission bits, below `0o10000`
    pub permissions: Option<u32>,
    /// atime and mtime, in seconds since the unix epoch
    pub time: Option<(u32, u32)>,
}

impl View for FileAttrs {
    type V = FileAttrsView;

    closed spec fn view(&self) -> FileAttrsView {
        FileAttrsView {
            size: self.size,
            id: self.id,
            permissions: self.permissions,
            time: self.time,
        }
    }
}

impl FileAttrsView {
    /// The flags that announce which attributes follow.
    pub open spec fn flags(self) -> u32 {
        ((if self.size is Some { SSH_FILEXFER_ATTR_SIZE } else { 0 }) + (if self.id is Some {
            SSH_FILEXFER_ATTR_UIDGID
        } else {
            0
        }) + (if self.permissions is Some {
            SSH_FILEXFER_ATTR_PERMISSIONS
        } else {
            0
        }) + (if self.time is Some {
            SSH_FILEXFER_ATTR_ACMODTIME
        } else {
            0
        })) as u32
    }

    /// The encoding: the flags, then each attribute that is set, in order.
    pub open spec fn encoding(self) -> Seq<u8> {
        be_u32(self.flags()) + match self.size {
            Some(s) => be_u64(s),
            None => Seq::empty(),
        } + match self.id {
            Some((uid, gid)) => be_u32(uid) + be_u32(gid),
            None => Seq::empty(),
        } + match self.permissions {
            Some(p) => be_u32(p),
            None => Seq::empty(),
        } + match self.time {
            Some((atime, mtime)) => be_u32(atime) + be_u32(mtime),
            None => Seq::empty(),
        }
    }
}

impl FileAttrs {
    /// Attributes with none set.
    pub fn new() -> (r: Self)
        ensures
            r@ == (FileAttrsView { size: None, id: None, permissions: None, time: None }),
    {
        FileAttrs { size: None, id: None, permissions: None, time: None }
    }

    /// Set the size.
    pub fn set_size(&mut self, size: u64)
        ensures
            final(self)@ == (FileAttrsView { size: Some(size), ..old(self)@ }),
    {
        self.size = Some(size);
    }

    /// Set uid and gid.
    pub fn set_id(&mut self, uid: u32, gid: u32)
        ensures
            final(self)@ == (FileAttrsView { id: Some((uid, gid)), ..old(self)@ }),
    {
        self.id = Some((uid, gid));
    }

    /// Set the permissions; bits above `0o7777` are dropped.
    pub fn set_permissions(&mut self, permissions: u32)
        ensures
            final(self)@ == (FileAttrsView {
                permissions: Some((permissions % PERMISSION_BITS_MODULUS) as u32),
                ..old(self)@
            }),
    {
        self.permissions = Some(permissions % PERMISSION_BITS_MODULUS);
    }

    /// Set atime and mtime, in seconds since the unix epoch.
    pub fn set_time(&mut self, atime: u32, mtime: u32)
        ensures
            final(self)@ == (FileAttrsView { time: Some((atime, mtime)), ..old(self)@ }),
    {
        self.time = Some((atime, mtime));
    }

    pub fn get_size(&self) -> (r: Option<u64>)
        ensures
            r == self@.size,
    {
        self.size
    }

    /// uid and gid
    pub fn get_id(&self) -> (r: Option<(u32, u32)>)
        ensures
            r == self@.id,
    {
        self.id
    }

    pub fn get_permissions(&self) -> (r: Option<u32>)
        ensures
            r == self@.permissions,
    {
        self.permissions
    }

    /// atime and mtime
    pub fn get_time(&self) -> (r: Option<(u32, u32)>)
        ensures
            r == self@.time,
    {
        self.time
    }
}

/// Append the encoding of `attrs`.
fn put_attrs(buf: &mut WriteBuffer, attrs: &FileAttrs)
    requires
        old(buf)@.len() + attrs@.encoding().len() <= max_buffer_len(),
    ensures
        final(buf)@ == old(buf)@ + attrs@.encoding(),
{
    let flags: u32 = (if attrs.size.is_some() { SSH_FILEXFER_ATTR_SIZE } else { 0 }) + (
    if attrs.id.is_some() {
        SSH_FILEXFER_ATTR_UIDGID
    } else {
        0
    }) + (if attrs.permissions.is_some() {
        SSH_FILEXFER_ATTR_PERMISSIONS
    } else {
        0
    }) + (if attrs.time.is_some() {
        SSH_FILEXFER_ATTR_ACMODTIME
    } else {
        0
    });
    put_u32(buf, flags);
    match attrs.size {
        Some(s) => put_u64(buf, s),
        None => {},
    }
    match attrs.id {
        Some((uid, gid)) => {
            put_u32(buf, uid);
            put_u32(buf, gid);
        },
        None => {},
    }
    match attrs.permissions {
        Some(p) => put_u32(buf, p),
        None => {},
    }
    match attrs.time {
        Some((atime, mtime)) => {
            put_u32(buf, atime);
            put_u32(buf, mtime);
        },
        None => {},
    }
    assert(final(buf)@ =~= old(buf)@ + attrs@.encoding());
}

/// Flags asking to create a file when it does not exist.
#[derive(Debug, Clone, Copy, PartialEq, Eq)]
pub enum CreateFlags {
    NoFlags,
    /// Forces an existing file with the same name to be truncated to zero
    /// length when creating a file.
    Trunc,
    /// Causes the request to fail if the named file already exists.
    Excl,
}

impl CreateFlags {
    /// The protocol bits of the flags.
    pub open spec fn spec_bits(self) -> u32 {
        match self {
            CreateFlags::NoFlags => 0,
            CreateFlags::Trunc => SSH_FXF_TRUNC,
            CreateFlags::Excl => SSH_FXF_EXCL,
        }
    }

    /// The protocol bits of the flags.
    pub fn bits(self) -> (r: u32)
        ensures
            r == self.spec_bits(),
    {
        match self {
            CreateFlags::NoFlags => 0,
            CreateFlags::Trunc => SSH_FXF_TRUNC,
            CreateFlags::Excl => SSH_FXF_EXCL,
        }
    }
}

/// How to open a file.
#[derive(Debug, Clone, Copy)]
pub struct OpenOptions {
    read: bool,
    write: bool,
    append: bool,
}

/// What an `OpenOptions` holds.
pub struct OpenOptionsView {
    pub read: bool,
    pub write: bool,
    pub append: bool,
}

impl View for OpenOptions {
    type V = OpenOptionsView;

    closed spec fn view(&self) -> OpenOptionsView {
        OpenOptionsView { read: self.read, write: self.write, append: self.append }
    }
}

impl OpenOptionsView {
    /// The open flags: read, write (also set by append), append.
    pub open spec fn flags(self) -> u32 {
        ((if self.read { SSH_FXF_READ } else { 0 }) + (if self.write || self.append {
            SSH_FXF_WRITE
        } else {
            0
        }) + (if self.append { SSH_FXF_APPEND } else { 0 })) as u32
    }
}

impl OpenOptions {
    /// Options with nothing set.
    pub fn new() -> (r: Self)
        ensures
            r@ == (OpenOptionsView { read: false, write: false, append: false }),
    {
        OpenOptions { read: false, write: false, append: false }
    }

    pub fn read(self, read: bool) -> (r: Self)
        ensures
            r@ == (OpenOptionsView { read, ..self@ }),
    {
        OpenOptions { read, ..self }
    }

    pub fn get_read(self) -> (r: bool)
        ensures
            r == self@.read,
    {
        self.read
    }

    pub fn write(self, write: bool) -> (r: Self)
        ensures
            r@ == (OpenOptionsView { write, ..self@ }),
    {
        OpenOptions { write, ..self }
    }

    /// Writing is asked for by `write` or by `append`.
    pub fn get_write(self) -> (r: bool)
        ensures
            r == (self@.write || self@.append),
    {
        self.write || self.append
    }

    pub fn append(self, append: bool) -> (r: Self)
        ensures
            r@ == (OpenOptionsView { append, ..self@ }),
    {
        OpenOptions { append, ..self }
    }

    pub fn get_append(self) -> (r: bool)
        ensures
            r == self@.append,
    {
        self.append
    }

    fn open_flags(self) -> (r: u32)
        ensures
            r == self@.flags(),
    {
        let mut flags: u32 = 0;
        if self.read {
            flags = flags + SSH_FXF_READ;
        }
        if self.write || self.append {
            flags = flags + SSH_FXF_WRITE;
        }
        if self.append {
            flags = flags + SSH_FXF_APPEND;
        }
        flags
    }

    /// A request to open an existing `filename`.
    pub fn open<'a>(self, filename: &'a str) -> (r: OpenFileRequest<'a>)
        ensures
            r.filename@ == filename@,
            r.flags == self@.flags(),
            r.attrs@ == (FileAttrsView { size: None, id: None, permissions: None, time: None }),
    {
        OpenFileRequest { filename, flags: self.open_flags(), attrs: FileAttrs::new() }
    }

    /// A request to open `filename`, creating it with `attrs` if it does not exist.
    pub fn create<'a>(self, filename: &'a str, flags: CreateFlags, attrs: FileAttrs) -> (r:
        OpenFileRequest<'a>)
        ensures
            r.filename@ == filename@,
            r.flags == (self@.flags() + SSH_FXF_CREAT + flags.spec_bits()) as u32,
            r.attrs@ == attrs@,
    {
        OpenFileRequest {
            filename,
            flags: self.open_flags() + SSH_FXF_CREAT + flags.bits(),
            attrs,
        }
    }
}

/// A request to open a file: its name, the open flags and the attributes to
/// create it with.
#[derive(Debug, Clone, Copy)]
pub struct OpenFileRequest<'a> {
    pub filename: &'a str,
    pub flags: u32,
    pub attrs: FileAttrs,
}

impl<'a> OpenFileRequest<'a> {
    /// Open file in read only mode.
    pub fn open(filename: &'a str) -> (r: Self)
        ensures
            r.filename@ == filename@,
            r.flags == SSH_FXF_READ,
            r.attrs@ == (FileAttrsView { size: None, id: None, permissions: None, time: None }),
    {
        OpenOptions::new().read(true).open(filename)
    }
}

/// An opaque handle to an open file or directory, given by the server.
#[derive(Debug, Clone)]
pub struct Handle(Vec<u8>);

impl View for Handle {
    type V = Seq<u8>;

    closed spec fn view(&self) -> Seq<u8> {
        self.0@
    }
}

impl Handle {
    /// The handle made of `bytes`.
    pub fn new(bytes: Vec<u8>) -> (r: Self)
        ensures
            r@ == bytes@,
    {
        Handle(bytes)
    }

    /// The bytes of the handle.
    pub fn into_inner(&self) -> (r: &[u8])
        ensures
            r@ == self@,
    {
        self.0.as_slice()
    }
}

/// A request of the client.
pub enum SftpRequest<'a> {
    Open(OpenFileRequest<'a>),
    Close(&'a Handle),
    Read { handle: &'a Handle, offset: u64, len: u32 },
    Remove(&'a str),
    Rename { oldpath: &'a str, newpath: &'a str },
    Mkdir { path: &'a str, attrs: FileAttrs },
    Rmdir(&'a str),
    Opendir(&'a str),
    Readdir(&'a Handle),
    Stat(&'a str),
    Lstat(&'a str),
    Fstat(&'a Handle),
    Setstat { path: &'a str, attrs: FileAttrs },
    Fsetstat { handle: &'a Handle, attrs: FileAttrs },
    Readlink(&'a str),
    Symlink { linkpath: &'a str, targetpath: &'a str },
    Realpath(&'a str),
    Limits,
    ExpandPath(&'a str),
    Fsync(&'a Handle),
    HardLink { oldpath: &'a str, newpath: &'a str },
    PosixRename { oldpath: &'a str, newpath: &'a str },
    Cp {
        read_from_handle: &'a Handle,
        read_from_offset: u64,
        read_data_length: u64,
        write_to_handle: &'a Handle,
        write_to_offset: u64,
    },
    Write { handle: &'a Handle, offset: u64, data: &'a [u8] },
}

/// The start of every request: its type and its id.
pub open spec fn request_prefix(packet_type: u8, request_id: u32) -> Seq<u8> {
    seq![packet_type] + be_u32(request_id)
}

/// The start of an extended request: its type, its id and the extension's name.
pub open spec fn extended_prefix(request_id: u32, name: &str) -> Seq<u8> {
    request_prefix(SSH_FXP_EXTENDED, request_id) + enc_str(name.spec_bytes())
}

/// The encoding of a request with the given id, without the packet length
/// in front of it.
pub open spec fn request_body(request_id: u32, request: SftpRequest) -> Seq<u8> {
    match request {
        SftpRequest::Open(o) => request_prefix(SSH_FXP_OPEN, request_id) + enc_str(
            o.filename.spec_bytes(),
        ) + be_u32(o.flags) + o.attrs@.encoding(),
        SftpRequest::Close(h) => request_prefix(SSH_FXP_CLOSE, request_id) + enc_bytes(h@),
        SftpRequest::Read { handle, offset, len } => request_prefix(SSH_FXP_READ, request_id)
            + enc_bytes(handle@) + be_u64(offset) + be_u32(len),
        SftpRequest::Remove(p) => request_prefix(SSH_FXP_REMOVE, request_id) + enc_str(
            p.spec_bytes(),
        ),
        SftpRequest::Rename { oldpath, newpath } => request_prefix(SSH_FXP_RENAME, request_id)
            + enc_str(oldpath.spec_bytes()) + enc_str(newpath.spec_bytes()),
        SftpRequest::Mkdir { path, attrs } => request_prefix(SSH_FXP_MKDIR, request_id)
            + enc_str(path.spec_bytes()) + attrs@.encoding(),
        SftpRequest::Rmdir(p) => request_prefix(SSH_FXP_RMDIR, request_id) + enc_str(
            p.spec_bytes(),
        ),
        SftpRequest::Opendir(p) => request_prefix(SSH_FXP_OPENDIR, request_id) + enc_str(
            p.spec_bytes(),
        ),
        SftpRequest::Readdir(h) => request_prefix(SSH_FXP_READDIR, request_id) + enc_bytes(h@),
        SftpRequest::Stat(p) => request_prefix(SSH_FXP_STAT, request_id) + enc_str(
            p.spec_bytes(),
        ),
        SftpRequest::Lstat(p) => request_prefix(SSH_FXP_LSTAT, request_id) + enc_str(
            p.spec_bytes(),
        ),
        SftpRequest::Fstat(h) => request_prefix(SSH_FXP_FSTAT, request_id) + enc_bytes(h@),
        SftpRequest::Setstat { path, attrs } => request_prefix(SSH_FXP_SETSTAT, request_id)
            + enc_str(path.spec_bytes()) + attrs@.encoding(),
        SftpRequest::Fsetstat { handle, attrs } => request_prefix(SSH_FXP_FSETSTAT, request_id)
            + enc_bytes(handle@) + attrs@.encoding(),
        SftpRequest::Readlink(p) => request_prefix(SSH_FXP_READLINK, request_id) + enc_str(
            p.spec_bytes(),
        ),
        SftpRequest::Symlink { linkpath, targetpath } => request_prefix(
            SSH_FXP_SYMLINK,
            request_id,
        ) + enc_str(targetpath.spec_bytes()) + enc_str(linkpath.spec_bytes()),
        SftpRequest::Realpath(p) => request_prefix(SSH_FXP_REALPATH, request_id) + enc_str(
            p.spec_bytes(),
        ),
        SftpRequest::Limits => extended_prefix(request_id, EXT_NAME_LIMITS),
        SftpRequest::ExpandPath(p) => extended_prefix(request_id, EXT_NAME_EXPAND_PATH)
            + enc_str(p.spec_bytes()),
        SftpRequest::Fsync(h) => extended_prefix(request_id, EXT_NAME_FSYNC) + enc_bytes(h@),
        SftpRequest::HardLink { oldpath, newpath } => extended_prefix(
            request_id,
            EXT_NAME_HARDLINK,
        ) + enc_str(oldpath.spec_bytes()) + enc_str(newpath.spec_bytes()),
        SftpRequest::PosixRename { oldpath, newpath } => extended_prefix(
            request_id,
            EXT_NAME_POSIX_RENAME,
        ) + enc_str(oldpath.spec_bytes()) + enc_str(newpath.spec_bytes()),
        SftpRequest::Cp {
            read_from_handle,
            read_from_offset,
            read_data_length,
            write_to_handle,
            write_to_offset,
        } => extended_prefix(request_id, EXT_NAME_COPY_DATA) + enc_bytes(read_from_handle@)
            + be_u64(read_from_offset) + be_u64(read_data_length) + enc_bytes(write_to_handle@)
            + be_u64(write_to_offset),
        SftpRequest::Write { handle, offset, data } => request_prefix(SSH_FXP_WRITE, request_id)
            + enc_bytes(handle@) + be_u64(offset) + enc_bytes(data@),
    }
}

/// Every string and byte string of the request fits the `u32` length of the
/// encoding.
pub open spec fn request_fits(request: SftpRequest) -> bool {
    match request {
        SftpRequest::Open(o) => str_fits(o.filename.spec_bytes()),
        SftpRequest::Close(h) => bytes_fit(h@),
        SftpRequest::Read { handle, .. } => bytes_fit(handle@),
        SftpRequest::Remove(p) => str_fits(p.spec_bytes()),
        SftpRequest::Rename { oldpath, newpath } => str_fits(oldpath.spec_bytes()) && str_fits(
            newpath.spec_bytes(),
        ),
        SftpRequest::Mkdir { path, .. } => str_fits(path.spec_bytes()),
        SftpRequest::Rmdir(p) => str_fits(p.spec_bytes()),
        SftpRequest::Opendir(p) => str_fits(p.spec_bytes()),
        SftpRequest::Readdir(h) => bytes_fit(h@),
        SftpRequest::Stat(p) => str_fits(p.spec_bytes()),
        SftpRequest::Lstat(p) => str_fits(p.spec_bytes()),
        SftpRequest::Fstat(h) => bytes_fit(h@),
        SftpRequest::Setstat { path, .. } => str_fits(path.spec_bytes()),
        SftpRequest::Fsetstat { handle, .. } => bytes_fit(handle@),
        SftpRequest::Readlink(p) => str_fits(p.spec_bytes()),
        SftpRequest::Symlink { linkpath, targetpath } => str_fits(linkpath.spec_bytes())
            && str_fits(targetpath.spec_bytes()),
        SftpRequest::Realpath(p) => str_fits(p.spec_bytes()),
        SftpRequest::Limits => true,
        SftpRequest::ExpandPath(p) => str_fits(p.spec_bytes()),
        SftpRequest::Fsync(h) => bytes_fit(h@),
        SftpRequest::HardLink { oldpath, newpath } => str_fits(oldpath.spec_bytes()) && str_fits(
            newpath.spec_bytes(),
        ),
        SftpRequest::PosixRename { oldpath, newpath } => str_fits(oldpath.spec_bytes())
            && str_fits(newpath.spec_bytes()),
        SftpRequest::Cp { read_from_handle, write_to_handle, .. } => bytes_fit(read_from_handle@)
            && bytes_fit(write_to_handle@),
        SftpRequest::Write { handle, data, .. } => bytes_fit(handle@) && bytes_fit(data@),
    }
}

/// Whether every string and byte string of the request fits.
pub fn request_fits_exec(request: &SftpRequest) -> (r: bool)
    ensures
        r == request_fits(*request),
{
    match request {
        SftpRequest::Open(o) => str_fits_exec(o.filename),
        SftpRequest::Close(h) => bytes_fit_exec(h.into_inner()),
        SftpRequest::Read { handle, .. } => bytes_fit_exec(handle.into_inner()),
        SftpRequest::Remove(p) => str_fits_exec(p),
        SftpRequest::Rename { oldpath, newpath } => str_fits_exec(oldpath) && str_fits_exec(
            newpath,
        ),
        SftpRequest::Mkdir { path, .. } => str_fits_exec(path),
        SftpRequest::Rmdir(p) => str_fits_exec(p),
        SftpRequest::Opendir(p) => str_fits_exec(p),
        SftpRequest::Readdir(h) => bytes_fit_exec(h.into_inner()),
        SftpRequest::Stat(p) => str_fits_exec(p),
        SftpRequest::Lstat(p) => str_fits_exec(p),
        SftpRequest::Fstat(h) => bytes_fit_exec(h.into_inner()),
        SftpRequest::Setstat { path, .. } => str_fits_exec(path),
        SftpRequest::Fsetstat { handle, .. } => bytes_fit_exec(handle.into_inner()),
        SftpRequest::Readlink(p) => str_fits_exec(p),
        SftpRequest::Symlink { linkpath, targetpath } => str_fits_exec(linkpath) && str_fits_exec(
            targetpath,
        ),
        SftpRequest::Realpath(p) => str_fits_exec(p),
        SftpRequest::Limits => true,
        SftpRequest::ExpandPath(p) => str_fits_exec(p),
        SftpRequest::Fsync(h) => bytes_fit_exec(h.into_inner()),
        SftpRequest::HardLink { oldpath, newpath } => str_fits_exec(oldpath) && str_fits_exec(
            newpath,
        ),
        SftpRequest::PosixRename { oldpath, newpath } => str_fits_exec(oldpath) && str_fits_exec(
            newpath,
        ),
        SftpRequest::Cp { read_from_handle, write_to_handle, .. } => bytes_fit_exec(
            read_from_handle.into_inner(),
        ) && bytes_fit_exec(write_to_handle.into_inner()),
        SftpRequest::Write { handle, data, .. } => bytes_fit_exec(handle.into_inner())
            && bytes_fit_exec(data),
    }
}

/// Append the type and the id of a request.
fn put_prefix(buf: &mut WriteBuffer, packet_type: u8, request_id: u32)
    requires
        old(buf)@.len() + 5 <= max_buffer_len(),
    ensures
        final(buf)@ == old(buf)@ + request_prefix(packet_type, request_id),
{
    buf.push(packet_type);
    put_u32(buf, request_id);
    assert(final(buf)@ =~= old(buf)@ + request_prefix(packet_type, request_id));
}

/// Append the type, the id and the extension name of an extended request.
fn put_extended_prefix(buf: &mut WriteBuffer, request_id: u32, name: &str)
    requires
        str_fits(name.spec_bytes()),
        old(buf)@.len() + extended_prefix(request_id, name).len() <= max_buffer_len(),
    ensures
        final(buf)@ == old(buf)@ + extended_prefix(request_id, name),
{
    put_prefix(buf, SSH_FXP_EXTENDED, request_id);
    put_str(buf, name);
    assert(final(buf)@ =~= old(buf)@ + extended_prefix(request_id, name));
}

/// Append a request made of a string.
fn put_str_request(buf: &mut WriteBuffer, packet_type: u8, request_id: u32, p: &str)
    requires
        str_fits(p.spec_bytes()),
        old(buf)@.len() + (request_prefix(packet_type, request_id) + enc_str(p.spec_bytes())).len()
            <= max_buffer_len(),
    ensures
        final(buf)@ == old(buf)@ + (request_prefix(packet_type, request_id) + enc_str(
            p.spec_bytes(),
        )),
{
    put_prefix(buf, packet_type, request_id);
    put_str(buf, p);
    assert(final(buf)@ =~= old(buf)@ + (request_prefix(packet_type, request_id) + enc_str(
        p.spec_bytes(),
    )));
}

/// Append a request made of two strings.
fn put_two_str_request(buf: &mut WriteBuffer, packet_type: u8, request_id: u32, a: &str, b: &str)
    requires
        str_fits(a.spec_bytes()),
        str_fits(b.spec_bytes()),
        old(buf)@.len() + (request_prefix(packet_type, request_id) + enc_str(a.spec_bytes())
            + enc_str(b.spec_bytes())).len() <= max_buffer_len(),
    ensures
        final(buf)@ == old(buf)@ + (request_prefix(packet_type, request_id) + enc_str(
            a.spec_bytes(),
        ) + enc_str(b.spec_bytes())),
{
    put_prefix(buf, packet_type, request_id);
    put_str(buf, a);
    put_str(buf, b);
    assert(final(buf)@ =~= old(buf)@ + (request_prefix(packet_type, request_id) + enc_str(
        a.spec_bytes(),
    ) + enc_str(b.spec_bytes())));
}

/// Append a request made of a handle.
fn put_handle_request(buf: &mut WriteBuffer, packet_type: u8, request_id: u32, h: &Handle)
    requires
        bytes_fit(h@),
        old(buf)@.len() + (request_prefix(packet_type, request_id) + enc_bytes(h@)).len()
            <= max_buffer_len(),
    ensures
        final(buf)@ == old(buf)@ + (request_prefix(packet_type, request_id) + enc_bytes(h@)),
{
    put_prefix(buf, packet_type, request_id);
    put_bytes(buf, h.into_inner());
    assert(final(buf)@ =~= old(buf)@ + (request_prefix(packet_type, request_id) + enc_bytes(
        h@,
    )));
}

/// Append a request made of a string and attributes.
fn put_str_attrs_request(
    buf: &mut WriteBuffer,
    packet_type: u8,
    request_id: u32,
    p: &str,
    attrs: &FileAttrs,
)
    requires
        str_fits(p.spec_bytes()),
        old(buf)@.len() + (request_prefix(packet_type, request_id) + enc_str(p.spec_bytes())
            + attrs@.encoding()).len() <= max_buffer_len(),
    ensures
        final(buf)@ == old(buf)@ + (request_prefix(packet_type, request_id) + enc_str(
            p.spec_bytes(),
        ) + attrs@.encoding()),
{
    put_prefix(buf, packet_type, request_id);
    put_str(buf, p);
    put_attrs(buf, attrs);
    assert(final(buf)@ =~= old(buf)@ + (request_prefix(packet_type, request_id) + enc_str(
        p.spec_bytes(),
    ) + attrs@.encoding()));
}

/// Append a request made of a handle and attributes.
fn put_handle_attrs_request(
    buf: &mut WriteBuffer,
    packet_type: u8,
    request_id: u32,
    h: &Handle,
    attrs: &FileAttrs,
)
    requires
        bytes_fit(h@),
        old(buf)@.len() + (request_prefix(packet_type, request_id) + enc_bytes(h@)
            + attrs@.encoding()).len() <= max_buffer_len(),
    ensures
        final(buf)@ == old(buf)@ + (request_prefix(packet_type, request_id) + enc_bytes(h@)
            + attrs@.encoding()),
{
    put_prefix(buf, packet_type, request_id);
    put_bytes(buf, h.into_inner());
    put_attrs(buf, attrs);
    assert(final(buf)@ =~= old(buf)@ + (request_prefix(packet_type, request_id) + enc_bytes(h@)
        + attrs@.encoding()));
}

/// Append an extended request made of a string.
fn put_ext_str_request(buf: &mut WriteBuffer, request_id: u32, name: &str, p: &str)
    requires
        str_fits(name.spec_bytes()),
        str_fits(p.spec_bytes()),
        old(buf)@.len() + (extended_prefix(request_id, name) + enc_str(p.spec_bytes())).len()
            <= max_buffer_len(),
    ensures
        final(buf)@ == old(buf)@ + (extended_prefix(request_id, name) + enc_str(p.spec_bytes())),
{
    put_extended_prefix(buf, request_id, name);
    put_str(buf, p);
    assert(final(buf)@ =~= old(buf)@ + (extended_prefix(request_id, name) + enc_str(
        p.spec_bytes(),
    )));
}

/// Append an extended request made of two strings.
fn put_ext_two_str_request(buf: &mut WriteBuffer, request_id: u32, name: &str, a: &str, b: &str)
    requires
        str_fits(name.spec_bytes()),
        str_fits(a.spec_bytes()),
        str_fits(b.spec_bytes()),
        old(buf)@.len() + (extended_prefix(request_id, name) + enc_str(a.spec_bytes()) + enc_str(
            b.spec_bytes(),
        )).len() <= max_buffer_len(),
    ensures
        final(buf)@ == old(buf)@ + (extended_prefix(request_id, name) + enc_str(a.spec_bytes())
            + enc_str(b.spec_bytes())),
{
    put_extended_prefix(buf, request_id, name);
    put_str(buf, a);
    put_str(buf, b);
    assert(final(buf)@ =~= old(buf)@ + (extended_prefix(request_id, name) + enc_str(
        a.spec_bytes(),
    ) + enc_str(b.spec_bytes())));
}

/// Append an extended request made of a handle.
fn put_ext_handle_request(buf: &mut WriteBuffer, request_id: u32, name: &str, h: &Handle)
    requires
        str_fits(name.spec_bytes()),
        bytes_fit(h@),
        old(buf)@.len() + (extended_prefix(request_id, name) + enc_bytes(h@)).len()
            <= max_buffer_len(),
    ensures
        final(buf)@ == old(buf)@ + (extended_prefix(request_id, name) + enc_bytes(h@)),
{
    put_extended_prefix(buf, request_id, name);
    put_bytes(buf, h.into_inner());
    assert(final(buf)@ =~= old(buf)@ + (extended_prefix(request_id, name) + enc_bytes(h@)));
}

/// Append an open request.
fn put_open_request(buf: &mut WriteBuffer, request_id: u32, o: &OpenFileRequest)
    requires
        str_fits(o.filename.spec_bytes()),
        old(buf)@.len() + request_body(request_id, SftpRequest::Open(*o)).len()
            <= max_buffer_len(),
    ensures
        final(buf)@ == old(buf)@ + request_body(request_id, SftpRequest::Open(*o)),
{
    put_prefix(buf, SSH_FXP_OPEN, request_id);
    put_str(buf, o.filename);
    put_u32(buf, o.flags);
    put_attrs(buf, &o.attrs);
    assert(final(buf)@ =~= old(buf)@ + request_body(request_id, SftpRequest::Open(*o)));
}

/// Append a read request.
fn put_read_request(buf: &mut WriteBuffer, request_id: u32, handle: &Handle, offset: u64, len: u32)
    requires
        bytes_fit(handle@),
        old(buf)@.len() + request_body(request_id, SftpRequest::Read { handle, offset, len }).len()
            <= max_buffer_len(),
    ensures
        final(buf)@ == old(buf)@ + request_body(request_id, SftpRequest::Read { handle, offset, len }),
{
    put_prefix(buf, SSH_FXP_READ, request_id);
    put_bytes(buf, handle.into_inner());
    put_u64(buf, offset);
    put_u32(buf, len);
    assert(final(buf)@ =~= old(buf)@ + request_body(
        request_id,
        SftpRequest::Read { handle, offset, len },
    ));
}

/// Append a copy-data request.
fn put_copy_data_request(
    buf: &mut WriteBuffer,
    request_id: u32,
    read_from_handle: &Handle,
    read_from_offset: u64,
    read_data_length: u64,
    write_to_handle: &Handle,
    write_to_offset: u64,
)
    requires
        bytes_fit(read_from_handle@),
        bytes_fit(write_to_handle@),
        old(buf)@.len() + request_body(
            request_id,
            SftpRequest::Cp {
                read_from_handle,
                read_from_offset,
                read_data_length,
                write_to_handle,
                write_to_offset,
            },
        ).len() <= max_buffer_len(),
    ensures
        final(buf)@ == old(buf)@ + request_body(
            request_id,
            SftpRequest::Cp {
                read_from_handle,
                read_from_offset,
                read_data_length,
                write_to_handle,
                write_to_offset,
            },
        ),
{
    proof {
        lemma_ext_name_fits();
    }
    put_extended_prefix(buf, request_id, EXT_NAME_COPY_DATA);
    put_bytes(buf, read_from_handle.into_inner());
    put_u64(buf, read_from_offset);
    put_u64(buf, read_data_length);
    put_bytes(buf, write_to_handle.into_inner());
    put_u64(buf, write_to_offset);
    assert(final(buf)@ =~= old(buf)@ + request_body(
        request_id,
        SftpRequest::Cp {
            read_from_handle,
            read_from_offset,
            read_data_length,
            write_to_handle,
            write_to_offset,
        },
    ));
}

/// Append a write request.
fn put_write_request(buf: &mut WriteBuffer, request_id: u32, handle: &Handle, offset: u64, data: &[u8])
    requires
        bytes_fit(handle@),
        bytes_fit(data@),
        old(buf)@.len() + request_body(request_id, SftpRequest::Write { handle, offset, data }).len()
            <= max_buffer_len(),
    ensures
        final(buf)@ == old(buf)@ + request_body(
            request_id,
            SftpRequest::Write { handle, offset, data },
        ),
{
    put_prefix(buf, SSH_FXP_WRITE, request_id);
    put_bytes(buf, handle.into_inner());
    put_u64(buf, offset);
    put_bytes(buf, data);
    assert(final(buf)@ =~= old(buf)@ + request_body(
        request_id,
        SftpRequest::Write { handle, offset, data },
    ));
}

/// An ASCII string no longer than 64 characters fits the encoding.
proof fn lemma_short_ascii_fits(s: &str)
    requires
        is_ascii_chars(s@),
        s@.len() <= 64,
    ensures
        str_fits(s.spec_bytes()),
{
    is_ascii_chars_encode_utf8(s@);
    lemma_strip_nul_len(s.spec_bytes());
}

/// The names of the extensions fit the encoding.
proof fn lemma_ext_name_fits()
    ensures
        str_fits(EXT_NAME_LIMITS.spec_bytes()),
        str_fits(EXT_NAME_EXPAND_PATH.spec_bytes()),
        str_fits(EXT_NAME_FSYNC.spec_bytes()),
        str_fits(EXT_NAME_HARDLINK.spec_bytes()),
        str_fits(EXT_NAME_POSIX_RENAME.spec_bytes()),
        str_fits(EXT_NAME_COPY_DATA.spec_bytes()),
{
    reveal_strlit("limits@openssh.com");
    reveal_strlit("expand-path@openssh.com");
    reveal_strlit("fsync@openssh.com");
    reveal_strlit("hardlink@openssh.com");
    reveal_strlit("posix-rename@openssh.com");
    reveal_strlit("copy-data");
    lemma_short_ascii_fits(EXT_NAME_LIMITS);
    lemma_short_ascii_fits(EXT_NAME_EXPAND_PATH);
    lemma_short_ascii_fits(EXT_NAME_FSYNC);
    lemma_short_ascii_fits(EXT_NAME_HARDLINK);
    lemma_short_ascii_fits(EXT_NAME_POSIX_RENAME);
    lemma_short_ascii_fits(EXT_NAME_COPY_DATA);
}

/// Append the encoding of a request, every string of which fits.
pub fn put_request(buf: &mut WriteBuffer, request_id: u32, request: &SftpRequest)
    requires
        request_fits(*request),
        old(buf)@.len() + request_body(request_id, *request).len() <= max_buffer_len(),
    ensures
        final(buf)@ == old(buf)@ + request_body(request_id, *request),
{
    proof {
        lemma_ext_name_fits();
    }
    match request {
        SftpRequest::Open(o) => put_open_request(buf, request_id, o),
        SftpRequest::Close(h) => put_handle_request(buf, SSH_FXP_CLOSE, request_id, h),
        SftpRequest::Read { handle, offset, len } => put_read_request(
            buf,
            request_id,
            handle,
            *offset,
            *len,
        ),
        SftpRequest::Remove(p) => put_str_request(buf, SSH_FXP_REMOVE, request_id, p),
        SftpRequest::Rename { oldpath, newpath } => put_two_str_request(
            buf,
            SSH_FXP_RENAME,
            request_id,
            oldpath,
            newpath,
        ),
        SftpRequest::Mkdir { path, attrs } => put_str_attrs_request(
            buf,
            SSH_FXP_MKDIR,
            request_id,
            path,
            attrs,
        ),
        SftpRequest::Rmdir(p) => put_str_request(buf, SSH_FXP_RMDIR, request_id, p),
        SftpRequest::Opendir(p) => put_str_request(buf, SSH_FXP_OPENDIR, request_id, p),
        SftpRequest::Readdir(h) => put_handle_request(buf, SSH_FXP_READDIR, request_id, h),
        SftpRequest::Stat(p) => put_str_request(buf, SSH_FXP_STAT, request_id, p),
        SftpRequest::Lstat(p) => put_str_request(buf, SSH_FXP_LSTAT, request_id, p),
        SftpRequest::Fstat(h) => put_handle_request(buf, SSH_FXP_FSTAT, request_id, h),
        SftpRequest::Setstat { path, attrs } => put_str_attrs_request(
            buf,
            SSH_FXP_SETSTAT,
            request_id,
            path,
            attrs,
        ),
        SftpRequest::Fsetstat { handle, attrs } => put_handle_attrs_request(
            buf,
            SSH_FXP_FSETSTAT,
            request_id,
            handle,
            attrs,
        ),
        SftpRequest::Readlink(p) => put_str_request(buf, SSH_FXP_READLINK, request_id, p),
        SftpRequest::Symlink { linkpath, targetpath } => put_two_str_request(
            buf,
            SSH_FXP_SYMLINK,
            request_id,
            targetpath,
            linkpath,
        ),
        SftpRequest::Realpath(p) => put_str_request(buf, SSH_FXP_REALPATH, request_id, p),
        SftpRequest::Limits => put_extended_prefix(buf, request_id, EXT_NAME_LIMITS),
        SftpRequest::ExpandPath(p) => put_ext_str_request(
            buf,
            request_id,
            EXT_NAME_EXPAND_PATH,
            p,
        ),
        SftpRequest::Fsync(h) => put_ext_handle_request(buf, request_id, EXT_NAME_FSYNC, h),
        SftpRequest::HardLink { oldpath, newpath } => put_ext_two_str_request(
            buf,
            request_id,
            EXT_NAME_HARDLINK,
            oldpath,
            newpath,
        ),
        SftpRequest::PosixRename { oldpath, newpath } => put_ext_two_str_request(
            buf,
            request_id,
            EXT_NAME_POSIX_RENAME,
            oldpath,
            newpath,
        ),
        SftpRequest::Cp {
            read_from_handle,
            read_from_offset,
            read_data_length,
            write_to_handle,
            write_to_offset,
        } => put_copy_data_request(
            buf,
            request_id,
            read_from_handle,
            *read_from_offset,
            *read_data_length,
            write_to_handle,
            *write_to_offset,
        ),
        SftpRequest::Write { handle, offset, data } => put_write_request(
            buf,
            request_id,
            handle,
            *offset,
            data,
        ),
    }
}


/// `body` holds, from `start` on, two strings and nothing more: first the
/// length of `first` as a big-endian `u32` and its bytes, then the same for
/// `second`.
pub open spec fn holds_two_strings(body: Seq<u8>, start: int, first: Seq<u8>, second: Seq<u8>) -> bool {
    let mid = start + 4 + first.len();
    &&& body.len() == mid + 4 + second.len()
    &&& body.subrange(start, start + 4) == be_u32(first.len() as u32)
    &&& body.subrange(start + 4, mid) == first
    &&& body.subrange(mid, mid + 4) == be_u32(second.len() as u32)
    &&& body.subrange(mid + 4, body.len() as int) == second
}

/// Where two encoded strings follow a prefix, they can be read back in order.
proof fn lemma_two_strings(prefix: Seq<u8>, first: Seq<u8>, second: Seq<u8>)
    ensures
        holds_two_strings(prefix + enc_bytes(first) + enc_bytes(second), prefix.len() as int, first, second),
        (prefix + enc_bytes(first) + enc_bytes(second)).take(prefix.len() as int) == prefix,
        (prefix + enc_bytes(first) + enc_bytes(second)).skip(prefix.len() as int) == enc_bytes(first) + enc_bytes(second),
{
    let body = prefix + enc_bytes(first) + enc_bytes(second);
    let start = prefix.len() as int;
    let mid = start + 4 + first.len();
    assert(body.subrange(start, start + 4) =~= be_u32(first.len() as u32));
    assert(body.subrange(start + 4, mid) =~= first);
    assert(body.subrange(mid, mid + 4) =~= be_u32(second.len() as u32));
    assert(body.subrange(mid + 4, body.len() as int) =~= second);
    assert(body.take(start) =~= prefix);
    assert(body.skip(start) =~= enc_bytes(first) + enc_bytes(second));
}

/// Renaming sends, after its type (18) and the id, the path being renamed and
/// then its new name, NUL bytes left out of each.
pub proof fn law_rename_old_path_first(request_id: u32, oldpath: &str, newpath: &str)
    ensures
        ({
            let rename = request_body(request_id, SftpRequest::Rename { oldpath, newpath });
            &&& rename[0] == 18u8
            &&& rename.subrange(1, 5) == be_u32(request_id)
            &&& holds_two_strings(
                rename,
                5,
                strip_nul(oldpath.spec_bytes()),
                strip_nul(newpath.spec_bytes()),
            )
        }),
{
    lemma_two_strings(
        request_prefix(SSH_FXP_RENAME, request_id),
        strip_nul(oldpath.spec_bytes()),
        strip_nul(newpath.spec_bytes()),
    );
    let rename = request_body(request_id, SftpRequest::Rename { oldpath, newpath });
    assert(rename.subrange(1, 5) =~= be_u32(request_id));
}

/// The posix-rename extension sends, after its name, the path being renamed
/// and then its new name: the same strings, in the same order, as a rename.
pub proof fn law_posix_rename_old_path_first(request_id: u32, oldpath: &str, newpath: &str)
    ensures
        ({
            let posix = request_body(request_id, SftpRequest::PosixRename { oldpath, newpath });
            let k = extended_prefix(request_id, EXT_NAME_POSIX_RENAME).len() as int;
            &&& posix.take(k) == extended_prefix(request_id, EXT_NAME_POSIX_RENAME)
            &&& holds_two_strings(
                posix,
                k,
                strip_nul(oldpath.spec_bytes()),
                strip_nul(newpath.spec_bytes()),
            )
            &&& posix.skip(k) == request_body(
                request_id,
                SftpRequest::Rename { oldpath, newpath },
            ).skip(5)
        }),
{
    let o = strip_nul(oldpath.spec_bytes());
    let n = strip_nul(newpath.spec_bytes());
    lemma_two_strings(request_prefix(SSH_FXP_RENAME, request_id), o, n);
    lemma_two_strings(extended_prefix(request_id, EXT_NAME_POSIX_RENAME), o, n);
}

/// The hardlink extension sends, after its name, the existing path and then
/// the path of the new link: the same strings, in the same order, as a
/// rename from the one to the other.
pub proof fn law_hardlink_old_path_first(request_id: u32, oldpath: &str, newpath: &str)
    ensures
        ({
            let hard = request_body(request_id, SftpRequest::HardLink { oldpath, newpath });
            let k = extended_prefix(request_id, EXT_NAME_HARDLINK).len() as int;
            &&& hard.take(k) == extended_prefix(request_id, EXT_NAME_HARDLINK)
            &&& holds_two_strings(
                hard,
                k,
                strip_nul(oldpath.spec_bytes()),
                strip_nul(newpath.spec_bytes()),
            )
            &&& hard.skip(k) == request_body(
                request_id,
                SftpRequest::Rename { oldpath, newpath },
            ).skip(5)
        }),
{
    let o = strip_nul(oldpath.spec_bytes());
    let n = strip_nul(newpath.spec_bytes());
    lemma_two_strings(request_prefix(SSH_FXP_RENAME, request_id), o, n);
    lemma_two_strings(extended_prefix(request_id, EXT_NAME_HARDLINK), o, n);
}

/// A symlink request sends, after its type (20) and the id, the target of the
/// link and then the path of the link, NUL bytes left out of each.
pub proof fn law_symlink_target_before_link(request_id: u32, linkpath: &str, targetpath: &str)
    ensures
        ({
            let body = request_body(request_id, SftpRequest::Symlink { linkpath, targetpath });
            &&& body[0] == 20u8
            &&& body.subrange(1, 5) == be_u32(request_id)
            &&& holds_two_strings(
                body,
                5,
                strip_nul(targetpath.spec_bytes()),
                strip_nul(linkpath.spec_bytes()),
            )
        }),
{
    lemma_two_strings(
        request_prefix(SSH_FXP_SYMLINK, request_id),
        strip_nul(targetpath.spec_bytes()),
        strip_nul(linkpath.spec_bytes()),
    );
    let body = request_body(request_id, SftpRequest::Symlink { linkpath, targetpath });
    assert(body.subrange(1, 5) =~= be_u32(request_id));
}

/// The attributes given to setstat, fsetstat and mkdir are sent whole, right
/// after the path or handle they apply to, so that the same attributes are
/// sent the same way by all three.
pub proof fn law_attrs_follow_target(request_id: u32, path: &str, handle: &Handle, attrs: FileAttrs)
    ensures
        ({
            let p = strip_nul(path.spec_bytes());
            let fset = request_body(request_id, SftpRequest::Fsetstat { handle, attrs });
            let set = request_body(request_id, SftpRequest::Setstat { path, attrs });
            let mk = request_body(request_id, SftpRequest::Mkdir { path, attrs });
            &&& fset.take(9 + handle@.len() as int) == seq![10u8] + be_u32(request_id) + be_u32(
                handle@.len() as u32,
            ) + handle@
            &&& fset.skip(9 + handle@.len() as int) == attrs@.encoding()
            &&& set.take(9 + p.len() as int) == seq![9u8] + be_u32(request_id) + be_u32(
                p.len() as u32,
            ) + p
            &&& set.skip(9 + p.len() as int) == attrs@.encoding()
            &&& mk.take(9 + p.len() as int) == seq![14u8] + be_u32(request_id) + be_u32(
                p.len() as u32,
            ) + p
            &&& mk.skip(9 + p.len() as int) == attrs@.encoding()
        }),
{
    let p = strip_nul(path.spec_bytes());
    let e = attrs@.encoding();
    let fset = request_body(request_id, SftpRequest::Fsetstat { handle, attrs });
    let set = request_body(request_id, SftpRequest::Setstat { path, attrs });
    let mk = request_body(request_id, SftpRequest::Mkdir { path, attrs });
    assert(fset.take(9 + handle@.len() as int) =~= seq![10u8] + be_u32(request_id) + be_u32(
        handle@.len() as u32,
    ) + handle@);
    assert(fset.skip(9 + handle@.len() as int) =~= e);
    assert(set.take(9 + p.len() as int) =~= seq![9u8] + be_u32(request_id) + be_u32(
        p.len() as u32,
    ) + p);
    assert(set.skip(9 + p.len() as int) =~= e);
    assert(mk.take(9 + p.len() as int) =~= seq![14u8] + be_u32(request_id) + be_u32(
        p.len() as u32,
    ) + p);
    assert(mk.skip(9 + p.len() as int) =~= e);
}

/// Attributes are sent as the flags saying which are set (size 1, uid and
/// gid 2, permissions 4, times 8), then each one that is set, in that order.
pub proof fn law_attrs_encoding(a: FileAttrsView)
    ensures
        ({
            let size_len: int = if a.size is Some { 8 } else { 0 };
            let id_len: int = if a.id is Some { 8 } else { 0 };
            let perm_len: int = if a.permissions is Some { 4 } else { 0 };
            let time_len: int = if a.time is Some { 8 } else { 0 };
            let e = a.encoding();
            &&& a.flags() == (if a.size is Some { 1u32 } else { 0 }) + (if a.id is Some {
                2u32
            } else {
                0
            }) + (if a.permissions is Some { 4u32 } else { 0 }) + (if a.time is Some {
                8u32
            } else {
                0
            })
            &&& e.len() == 4 + size_len + id_len + perm_len + time_len
            &&& e.take(4) == be_u32(a.flags())
            &&& (a.size matches Some(s) ==> e.subrange(4, 12) == be_u64(s))
            &&& (a.id matches Some((uid, gid)) ==> e.subrange(4 + size_len, 12 + size_len)
                == be_u32(uid) + be_u32(gid))
            &&& (a.permissions matches Some(m) ==> e.subrange(
                4 + size_len + id_len,
                8 + size_len + id_len,
            ) == be_u32(m))
            &&& (a.time matches Some((atime, mtime)) ==> e.subrange(
                4 + size_len + id_len + perm_len,
                12 + size_len + id_len + perm_len,
            ) == be_u32(atime) + be_u32(mtime))
        }),
{
    let e = a.encoding();
    let size_len: int = if a.size is Some { 8 } else { 0 };
    let id_len: int = if a.id is Some { 8 } else { 0 };
    let perm_len: int = if a.permissions is Some { 4 } else { 0 };
    assert(e.take(4) =~= be_u32(a.flags()));
    if let Some(s) = a.size {
        assert(e.subrange(4, 12) =~= be_u64(s));
    }
    if let Some((uid, gid)) = a.id {
        assert(e.subrange(4 + size_len, 12 + size_len) =~= be_u32(uid) + be_u32(gid));
    }
    if let Some(m) = a.permissions {
        assert(e.subrange(4 + size_len + id_len, 8 + size_len + id_len) =~= be_u32(m));
    }
    if let Some((atime, mtime)) = a.time {
        assert(e.subrange(4 + size_len + id_len + perm_len, 12 + size_len + id_len + perm_len)
            =~= be_u32(atime) + be_u32(mtime));
    }
}

/// Opening asks for reading with 0x1, writing with 0x2 (asked for by write or
/// by append) and appending with 0x4; creating adds 0x8, and 0x10 with
/// `Trunc` (an existing file is cut to zero length) or 0x20 with `Excl` (the
/// open fails when the file exists), so that each flag keeps a bit of its own.
pub proof fn law_open_flags_bits(options: OpenOptionsView, c: CreateFlags)
    ensures
        options.flags() == (if options.read { 1u32 } else { 0 }) + (if options.write
            || options.append {
            2u32
        } else {
            0
        }) + (if options.append { 4u32 } else { 0 }),
        CreateFlags::NoFlags.spec_bits() == 0,
        CreateFlags::Trunc.spec_bits() == 0x10,
        CreateFlags::Excl.spec_bits() == 0x20,
        SSH_FXF_CREAT == 0x8,
        ({
            let f = (options.flags() + SSH_FXF_CREAT + c.spec_bits()) as u32;
            &&& f % 8 == options.flags()
            &&& (f / 8) % 2 == 1
            &&& ((f / 16) % 2 == 1 <==> c == CreateFlags::Trunc)
            &&& ((f / 32) % 2 == 1 <==> c == CreateFlags::Excl)
            &&& f < 64
        }),
{
}


/// A request naming one path is its type, the id, then the path's length and
/// bytes (NUL bytes left out): remove 13, rmdir 15, opendir 11, stat 17,
/// lstat 7, readlink 19, realpath 16.
pub proof fn law_path_requests(request_id: u32, path: &str)
    ensures
        ({
            let p = strip_nul(path.spec_bytes());
            let tail = be_u32(request_id) + be_u32(p.len() as u32) + p;
            &&& request_body(request_id, SftpRequest::Remove(path)) == seq![13u8] + tail
            &&& request_body(request_id, SftpRequest::Rmdir(path)) == seq![15u8] + tail
            &&& request_body(request_id, SftpRequest::Opendir(path)) == seq![11u8] + tail
            &&& request_body(request_id, SftpRequest::Stat(path)) == seq![17u8] + tail
            &&& request_body(request_id, SftpRequest::Lstat(path)) == seq![7u8] + tail
            &&& request_body(request_id, SftpRequest::Readlink(path)) == seq![19u8] + tail
            &&& request_body(request_id, SftpRequest::Realpath(path)) == seq![16u8] + tail
        }),
{
    let p = strip_nul(path.spec_bytes());
    let tail = be_u32(request_id) + be_u32(p.len() as u32) + p;
    assert(request_body(request_id, SftpRequest::Remove(path)) =~= seq![13u8] + tail);
    assert(request_body(request_id, SftpRequest::Rmdir(path)) =~= seq![15u8] + tail);
    assert(request_body(request_id, SftpRequest::Opendir(path)) =~= seq![11u8] + tail);
    assert(request_body(request_id, SftpRequest::Stat(path)) =~= seq![17u8] + tail);
    assert(request_body(request_id, SftpRequest::Lstat(path)) =~= seq![7u8] + tail);
    assert(request_body(request_id, SftpRequest::Readlink(path)) =~= seq![19u8] + tail);
    assert(request_body(request_id, SftpRequest::Realpath(path)) =~= seq![16u8] + tail);
}

/// A request naming one handle is its type, the id, then the handle's length
/// and bytes: close 4, readdir 12, fstat 8; reading adds the offset (a
/// big-endian `u64`) and the length to read (a big-endian `u32`), type 5.
pub proof fn law_handle_requests(request_id: u32, handle: &Handle, offset: u64, len: u32)
    ensures
        ({
            let tail = be_u32(request_id) + be_u32(handle@.len() as u32) + handle@;
            &&& request_body(request_id, SftpRequest::Close(handle)) == seq![4u8] + tail
            &&& request_body(request_id, SftpRequest::Readdir(handle)) == seq![12u8] + tail
            &&& request_body(request_id, SftpRequest::Fstat(handle)) == seq![8u8] + tail
            &&& request_body(request_id, SftpRequest::Read { handle, offset, len }) == seq![5u8]
                + tail + be_u64(offset) + be_u32(len)
        }),
{
    let tail = be_u32(request_id) + be_u32(handle@.len() as u32) + handle@;
    assert(request_body(request_id, SftpRequest::Close(handle)) =~= seq![4u8] + tail);
    assert(request_body(request_id, SftpRequest::Readdir(handle)) =~= seq![12u8] + tail);
    assert(request_body(request_id, SftpRequest::Fstat(handle)) =~= seq![8u8] + tail);
    assert(request_body(request_id, SftpRequest::Read { handle, offset, len }) =~= seq![5u8]
        + tail + be_u64(offset) + be_u32(len));
}

/// Opening sends type 3, the id, the file name (NUL bytes left out), the open
/// flags, then the attributes to create the file with.
pub proof fn law_open_request(request_id: u32, o: OpenFileRequest)
    ensures
        ({
            let name = strip_nul(o.filename.spec_bytes());
            request_body(request_id, SftpRequest::Open(o)) == seq![3u8] + be_u32(request_id)
                + be_u32(name.len() as u32) + name + be_u32(o.flags) + o.attrs@.encoding()
        }),
{
    let name = strip_nul(o.filename.spec_bytes());
    assert(request_body(request_id, SftpRequest::Open(o)) =~= seq![3u8] + be_u32(request_id)
        + be_u32(name.len() as u32) + name + be_u32(o.flags) + o.attrs@.encoding());
}

/// Writing sends type 6, the id, the handle, the offset, then the data as its
/// length and bytes, unchanged.
pub proof fn law_write_request(request_id: u32, handle: &Handle, offset: u64, data: &[u8])
    ensures
        request_body(request_id, SftpRequest::Write { handle, offset, data }) == seq![6u8]
            + be_u32(request_id) + be_u32(handle@.len() as u32) + handle@ + be_u64(offset)
            + be_u32(data@.len() as u32) + data@,
{
    assert(request_body(request_id, SftpRequest::Write { handle, offset, data }) =~= seq![6u8]
        + be_u32(request_id) + be_u32(handle@.len() as u32) + handle@ + be_u64(offset) + be_u32(
        data@.len() as u32,
    ) + data@);
}

/// The copy-data extension sends, after its name, the handle read from, the
/// offset and the length read, then the handle written to and the offset
/// written at.
pub proof fn law_copy_data_request(
    request_id: u32,
    read_from_handle: &Handle,
    read_from_offset: u64,
    read_data_length: u64,
    write_to_handle: &Handle,
    write_to_offset: u64,
)
    ensures
        request_body(
            request_id,
            SftpRequest::Cp {
                read_from_handle,
                read_from_offset,
                read_data_length,
                write_to_handle,
                write_to_offset,
            },
        ) == extended_prefix(request_id, EXT_NAME_COPY_DATA) + be_u32(
            read_from_handle@.len() as u32,
        ) + read_from_handle@ + be_u64(read_from_offset) + be_u64(read_data_length) + be_u32(
            write_to_handle@.len() as u32,
        ) + write_to_handle@ + be_u64(write_to_offset),
{
    assert(request_body(
        request_id,
        SftpRequest::Cp {
            read_from_handle,
            read_from_offset,
            read_data_length,
            write_to_handle,
            write_to_offset,
        },
    ) =~= extended_prefix(request_id, EXT_NAME_COPY_DATA) + be_u32(
        read_from_handle@.len() as u32,
    ) + read_from_handle@ + be_u64(read_from_offset) + be_u64(read_data_length) + be_u32(
        write_to_handle@.len() as u32,
    ) + write_to_handle@ + be_u64(write_to_offset));
}

} // verus!
