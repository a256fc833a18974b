# rust_dcp

A verified core for consumers of the Couchbase Database Change Protocol (DCP),
written in Rust and proved with Verus.

The library in `src/` holds every decision: configuration and its checks, SASL
and SCRAM authentication, the connection handshake, bucket topology, stream
requests and rollbacks, the ordering of events, collection names, processed and
durable progress, checkpoint documents, rollback mitigation, reconnects, trust
roots, and the membership registry with its vBucket assignments. Each function
states in `requires` and `ensures` what it does, and laws that span several
functions stand beside them as proof functions.

What the library takes from elsewhere (hashing, base64, random bytes, constant
time comparison, erasure, the reading of certificates and server names, and a
few renderings of the standard library) stands behind small trusted functions
in `src/crypto.rs`, `src/tls.rs`, `src/text.rs` and `src/interval.rs`.

`app/` is the Tokio runtime around the library: sockets, TLS, timers, files,
JSON and the adapters of the official SDK. It connects, reads and waits, and
hands plain values to the library. The binary framing of the KV protocol is
supplied by an implementation of its `Wire` trait.

`tests/` runs the library on concrete values.
