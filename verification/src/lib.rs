//! Core of a multi-mode intercepting TCP proxy: framed decoders for the
//! HTTP request head and the TLS ClientHello, target extraction, a
//! TTL-bounded DNS cache with jittered expiry, outbound-connection policy,
//! and the per-tunnel preamble decisions. Every function here carries a
//! contract; the listeners, sockets and byte relay live with the caller.
pub mod addr;
pub mod conf;
pub mod dns_resolver;
pub mod handshake_codec;
pub mod rng;
pub mod scan;
pub mod tcp_connector;
pub mod text;
pub mod tls_codec;
pub mod tunnel;
