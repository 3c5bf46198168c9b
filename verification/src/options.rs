//! Options used when creating an sftp session.
use std::time::Duration;

use vstd::prelude::*;

verus! {

/// What a `Duration` of the given number of microseconds is.
pub uninterp spec fn duration_of_micros(micros: u64) -> Duration;

/// `Duration::from_micros` of std: the duration is a function of its argument alone.
#[verifier::external_body]
fn duration_from_micros(micros: u64) -> (d: Duration)
    ensures
        d == duration_of_micros(micros),
{
    Duration::from_micros(micros)
}

/// Default `flush_interval`, in microseconds.
pub const DEFAULT_FLUSH_INTERVAL_MICROS: u64 = 500;

/// Default `max_pending_requests`.
pub const DEFAULT_MAX_PENDING_REQUESTS: u16 = 100;

/// Default init size of the buffer for requests.
pub const DEFAULT_REQUESTS_BUFFER_SIZE: usize = 100;

/// Default init size of the buffer for responses.
pub const DEFAULT_RESPONSES_BUFFER_SIZE: usize = 1024;

/// Options when creating an sftp session.
///
/// Every size that is set is non-zero.
#[derive(Debug, Copy, Clone)]
pub struct SftpOptions {
    read_end_buffer_size: Option<usize>,
    write_end_buffer_size: Option<usize>,
    flush_interval: Option<Duration>,
    max_pending_requests: Option<u16>,
    tokio_compat_file_write_limit: Option<usize>,
    max_read_len: Option<u32>,
    max_write_len: Option<u32>,
}

/// The options as set by the user; `None` stands for "use the default".
pub struct SftpOptionsView {
    pub read_end_buffer_size: Option<usize>,
    pub write_end_buffer_size: Option<usize>,
    pub flush_interval: Option<Duration>,
    pub max_pending_requests: Option<u16>,
    pub tokio_compat_file_write_limit: Option<usize>,
    pub max_read_len: Option<u32>,
    pub max_write_len: Option<u32>,
}

impl View for SftpOptions {
    type V = SftpOptionsView;

    closed spec fn view(&self) -> SftpOptionsView {
        SftpOptionsView {
            read_end_buffer_size: self.read_end_buffer_size,
            write_end_buffer_size: self.write_end_buffer_size,
            flush_interval: self.flush_interval,
            max_pending_requests: self.max_pending_requests,
            tokio_compat_file_write_limit: self.tokio_compat_file_write_limit,
            max_read_len: self.max_read_len,
            max_write_len: self.max_write_len,
        }
    }
}

/// A set option is never zero.
pub open spec fn nonzero_usize(o: Option<usize>) -> bool {
    o matches Some(n) ==> n > 0
}

impl SftpOptionsView {
    /// The view in which nothing is set.
    pub open spec fn unset() -> SftpOptionsView {
        SftpOptionsView {
            read_end_buffer_size: None,
            write_end_buffer_size: None,
            flush_interval: None,
            max_pending_requests: None,
            tokio_compat_file_write_limit: None,
            max_read_len: None,
            max_write_len: None,
        }
    }

    /// Every option that is set holds a non-zero value.
    pub open spec fn wf(self) -> bool {
        &&& nonzero_usize(self.read_end_buffer_size)
        &&& nonzero_usize(self.write_end_buffer_size)
        &&& nonzero_usize(self.tokio_compat_file_write_limit)
        &&& self.max_pending_requests matches Some(n) ==> n > 0
        &&& self.max_read_len matches Some(n) ==> n > 0
        &&& self.max_write_len matches Some(n) ==> n > 0
    }

    /// The flush interval in effect.
    pub open spec fn flush_interval_in_effect(self) -> Duration {
        match self.flush_interval {
            Some(d) => d,
            None => duration_of_micros(DEFAULT_FLUSH_INTERVAL_MICROS),
        }
    }

    /// `max_pending_requests` in effect.
    pub open spec fn max_pending_requests_in_effect(self) -> u16 {
        match self.max_pending_requests {
            Some(n) => n,
            None => DEFAULT_MAX_PENDING_REQUESTS,
        }
    }

    /// The init size of the buffer for requests in effect.
    pub open spec fn write_end_buffer_size_in_effect(self) -> usize {
        match self.write_end_buffer_size {
            Some(n) => n,
            None => DEFAULT_REQUESTS_BUFFER_SIZE,
        }
    }

    /// The init size of the buffer for responses in effect.
    pub open spec fn read_end_buffer_size_in_effect(self) -> usize {
        match self.read_end_buffer_size {
            Some(n) => n,
            None => DEFAULT_RESPONSES_BUFFER_SIZE,
        }
    }

    /// The write buffer limit of the tokio compat file in effect.
    pub open spec fn tokio_compat_file_write_limit_in_effect(self) -> usize {
        match self.tokio_compat_file_write_limit {
            Some(n) => n,
            None => usize::MAX,
        }
    }
}

impl SftpOptions {
    #[verifier::type_invariant]
    spec fn inv(self) -> bool {
        self@.wf()
    }

    /// Create a new [`SftpOptions`] in which nothing is set.
    pub fn new() -> (r: Self)
        ensures
            r@ == SftpOptionsView::unset(),
    {
        Self {
            read_end_buffer_size: None,
            write_end_buffer_size: None,
            flush_interval: None,
            max_pending_requests: None,
            tokio_compat_file_write_limit: None,
            max_read_len: None,
            max_write_len: None,
        }
    }

    /// Set `flush_interval`, default value is 0.5 ms.
    ///
    /// `flush_interval` decides the maximum time your requests would stay
    /// in the write buffer before it is actually sent to the remote.
    ///
    /// If `flush_interval` is set to 0, then every packet
    /// is flushed immediately.
    pub fn flush_interval(self, flush_interval: Duration) -> (r: Self)
        ensures
            r@ == (SftpOptionsView { flush_interval: Some(flush_interval), ..self@ }),
    {
        proof {
            use_type_invariant(&self);
        }
        let mut this = self;
        this.flush_interval = Some(flush_interval);
        this
    }

    /// The flush interval in effect: the one set, or 0.5 ms.
    pub fn get_flush_interval(&self) -> (r: Duration)
        ensures
            r == self@.flush_interval_in_effect(),
    {
        match self.flush_interval {
            Some(d) => d,
            None => duration_from_micros(DEFAULT_FLUSH_INTERVAL_MICROS),
        }
    }

    /// Set `max_pending_requests` (non-zero).
    ///
    /// If the pending_requests is larger than max_pending_requests, then the
    /// flush task will flush the write buffer without waiting for `flush_interval`.
    ///
    /// It is set to 100 by default.
    pub fn max_pending_requests(self, max_pending_requests: u16) -> (r: Self)
        requires
            max_pending_requests > 0,
        ensures
            r@ == (SftpOptionsView { max_pending_requests: Some(max_pending_requests), ..self@ }),
    {
        proof {
            use_type_invariant(&self);
        }
        let mut this = self;
        this.max_pending_requests = Some(max_pending_requests);
        this
    }

    /// `max_pending_requests` in effect: the one set, or 100.
    pub fn get_max_pending_requests(&self) -> (r: u16)
        ensures
            r == self@.max_pending_requests_in_effect(),
            r > 0,
    {
        proof {
            use_type_invariant(self);
        }
        match self.max_pending_requests {
            Some(n) => n,
            None => DEFAULT_MAX_PENDING_REQUESTS,
        }
    }

    /// Set the init buffer size for requests (non-zero).
    ///
    /// It is set to 100 by default.
    pub fn requests_buffer_size(self, buffer_size: usize) -> (r: Self)
        requires
            buffer_size > 0,
        ensures
            r@ == (SftpOptionsView { write_end_buffer_size: Some(buffer_size), ..self@ }),
    {
        proof {
            use_type_invariant(&self);
        }
        let mut this = self;
        this.write_end_buffer_size = Some(buffer_size);
        this
    }

    /// The init buffer size for requests in effect: the one set, or 100.
    pub fn get_write_end_buffer_size(&self) -> (r: usize)
        ensures
            r == self@.write_end_buffer_size_in_effect(),
            r > 0,
    {
        proof {
            use_type_invariant(self);
        }
        match self.write_end_buffer_size {
            Some(n) => n,
            None => DEFAULT_REQUESTS_BUFFER_SIZE,
        }
    }

    /// Set the init buffer size for responses (non-zero).
    /// If the header of the response is larger than the buffer, then the buffer
    /// will be resized to fit the size of the header.
    ///
    /// It is set to 1024 by default.
    pub fn responses_buffer_size(self, buffer_size: usize) -> (r: Self)
        requires
            buffer_size > 0,
        ensures
            r@ == (SftpOptionsView { read_end_buffer_size: Some(buffer_size), ..self@ }),
    {
        proof {
            use_type_invariant(&self);
        }
        let mut this = self;
        this.read_end_buffer_size = Some(buffer_size);
        this
    }

    /// The init buffer size for responses in effect: the one set, or 1024.
    pub fn get_read_end_buffer_size(&self) -> (r: usize)
        ensures
            r == self@.read_end_buffer_size_in_effect(),
            r > 0,
    {
        proof {
            use_type_invariant(self);
        }
        match self.read_end_buffer_size {
            Some(n) => n,
            None => DEFAULT_RESPONSES_BUFFER_SIZE,
        }
    }

    /// Set the write buffer limit for the tokio compat file (non-zero).
    ///
    /// It is set to usize::MAX by default.
    pub fn tokio_compat_file_write_limit(self, limit: usize) -> (r: Self)
        requires
            limit > 0,
        ensures
            r@ == (SftpOptionsView { tokio_compat_file_write_limit: Some(limit), ..self@ }),
    {
        proof {
            use_type_invariant(&self);
        }
        let mut this = self;
        this.tokio_compat_file_write_limit = Some(limit);
        this
    }

    /// The write buffer limit for the tokio compat file in effect: the one set,
    /// or `usize::MAX`.
    pub fn get_tokio_compat_file_write_limit(&self) -> (r: usize)
        ensures
            r == self@.tokio_compat_file_write_limit_in_effect(),
            r > 0,
    {
        proof {
            use_type_invariant(self);
        }
        match self.tokio_compat_file_write_limit {
            Some(n) => n,
            None => usize::MAX,
        }
    }

    /// Set `max_read_len` (non-zero).
    ///
    /// It can be used to reduce `max_read_len`, but cannot be used
    /// to increase `max_read_len`.
    pub fn max_read_len(self, max_read_len: u32) -> (r: Self)
        requires
            max_read_len > 0,
        ensures
            r@ == (SftpOptionsView { max_read_len: Some(max_read_len), ..self@ }),
    {
        proof {
            use_type_invariant(&self);
        }
        let mut this = self;
        this.max_read_len = Some(max_read_len);
        this
    }

    /// `max_read_len` as set, if it is.
    pub fn get_max_read_len(&self) -> (r: Option<u32>)
        ensures
            r == self@.max_read_len,
            r matches Some(n) ==> n > 0,
    {
        proof {
            use_type_invariant(self);
        }
        self.max_read_len
    }

    /// Set `max_write_len` (non-zero).
    ///
    /// It can be used to reduce `max_write_len`, but cannot be used
    /// to increase `max_write_len`.
    pub fn max_write_len(self, max_write_len: u32) -> (r: Self)
        requires
            max_write_len > 0,
        ensures
            r@ == (SftpOptionsView { max_write_len: Some(max_write_len), ..self@ }),
    {
        proof {
            use_type_invariant(&self);
        }
        let mut this = self;
        this.max_write_len = Some(max_write_len);
        this
    }

    /// `max_write_len` as set, if it is.
    pub fn get_max_write_len(&self) -> (r: Option<u32>)
        ensures
            r == self@.max_write_len,
            r matches Some(n) ==> n > 0,
    {
        proof {
            use_type_invariant(self);
        }
        self.max_write_len
    }
}

impl Default for SftpOptions {
    fn default() -> (r: Self)
        ensures
            r@ == SftpOptionsView::unset(),
    {
        Self::new()
    }
}

/// Each option, once set, is the one in effect, and setting one option leaves
/// every other option in effect as it was.
pub proof fn law_set_then_get(v: SftpOptionsView, d: Duration, n: u16, size: usize)
    ensures
        (SftpOptionsView { flush_interval: Some(d), ..v }).flush_interval_in_effect() == d,
        (SftpOptionsView { max_pending_requests: Some(n), ..v }).max_pending_requests_in_effect()
            == n,
        (SftpOptionsView { write_end_buffer_size: Some(size), ..v }).write_end_buffer_size_in_effect()
            == size,
        (SftpOptionsView { read_end_buffer_size: Some(size), ..v }).read_end_buffer_size_in_effect()
            == size,
        (SftpOptionsView { tokio_compat_file_write_limit: Some(size), ..v }).tokio_compat_file_write_limit_in_effect()
            == size,
        (SftpOptionsView { max_pending_requests: Some(n), ..v }).flush_interval_in_effect()
            == v.flush_interval_in_effect(),
        (SftpOptionsView { flush_interval: Some(d), ..v }).max_pending_requests_in_effect()
            == v.max_pending_requests_in_effect(),
        (SftpOptionsView { write_end_buffer_size: Some(size), ..v }).read_end_buffer_size_in_effect()
            == v.read_end_buffer_size_in_effect(),
        (SftpOptionsView { read_end_buffer_size: Some(size), ..v }).write_end_buffer_size_in_effect()
            == v.write_end_buffer_size_in_effect(),
{
}

/// Options in which nothing is set give the documented defaults: 0.5 ms,
/// 100 pending requests, buffers of 100 and 1024 bytes, no write limit.
pub proof fn law_defaults()
    ensures
        SftpOptionsView::unset().flush_interval_in_effect() == duration_of_micros(500),
        SftpOptionsView::unset().max_pending_requests_in_effect() == 100,
        SftpOptionsView::unset().write_end_buffer_size_in_effect() == 100,
        SftpOptionsView::unset().read_end_buffer_size_in_effect() == 1024,
        SftpOptionsView::unset().tokio_compat_file_write_limit_in_effect() == usize::MAX,
        SftpOptionsView::unset().max_read_len is None,
        SftpOptionsView::unset().max_write_len is None,
        SftpOptionsView::unset().wf(),
{
}

} // verus!
