# tdx

A client for the TDX market-quotes protocol, in two parts.

- `src/` is the verified library. It holds the wire format of every
  standard command (request bytes, response parsing), the decoding
  primitives (variable-length integers, packed dates and times, zlib
  bodies, GBK/Big5 text, hex), the recognition and classification of
  security codes, and the decisions of the connection layer (pool sizes,
  heartbeat, idle connections, paging of the security list, the order of
  the security-list cache). A reply whose integer arithmetic would leave
  `i32` is the `Overflow` error. Every public
  function states in its contract what it returns; prices and volumes are
  kept as the integers the servers send.
- `app/` is the network side: `mio` TCP connections, the connection pool,
  the heartbeat threads, the high-level `StdApi`, the CSV cache of the
  security list, and the floating-point views of the replies.

Laws the library proves include: a response header read back from its
bytes is the header; hex text decodes to the bytes it was made from; a
security code built from a market and a code of digits splits back into
market, flag and code; correcting a corrected security code changes
nothing; a symbol is an index exactly when it is classified as an index or
a block; the security-list cache is sorted by code and keeps targets with
equal codes in their order; and the quotes command repairs codes only from
the stocks that were asked for, of the same market. That a compressed body
inflates back to the data is not proved: it is what the contract of the
zlib encoder takes from flate2.
