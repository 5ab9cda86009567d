# smbr

The verified core of a small SMB/CIFS client with a C interface.

- `src/` (verified with Verus): reading C-string arguments as UTF-8
  (`url`), taking `smb://server/share/path` URLs apart (`url`), the
  `host:port` address dialled for a server (`address`), the session and
  its connection reuse (`session`), conversion of Windows file times and
  of metadata and directory listings into the records handed out (`info`),
  the decisions around exists, append, write mode and delete (`ops`), and
  error-message text (`text`).
- `app/`: the `extern "C"` functions, raw pointers and buffers, the tokio
  runtime that drives the asynchronous `smb2` client, and floating-point
  timestamps.
