# openssh_sftp_client

The verified core of an sftp client.

- `src/protocol.rs`, `src/encoding.rs`: the requests of sftp v3 and of the
  openssh extensions, and their wire encoding, with its specification.
- `src/write_end.rs`: `WriteEnd` serializes each request into a packet and
  queues it; `Id` and the `Awaitable*` types carry the slot that the response
  will be matched by.
- `src/writer.rs`: the buffer packets are serialized into, and how many times an
  atomic write to the pipe is attempted.
- `src/response_callbacks.rs`: the responses waited for, by slot.
- `src/options.rs`: the options of a session and their defaults.
- `src/bytes_ext.rs`: the byte containers of the `bytes` crate, as used here.

`app/` holds the I/O around it: the pipe writer, flushing the queue, and
waiting for responses across tasks.
