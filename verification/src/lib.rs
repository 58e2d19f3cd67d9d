//! Capture pipeline for inbound webhook requests: normalization of raw
//! payloads and headers into records, batched buffering for durable
//! storage, and live fan-out of serialized records to connected viewers.

pub mod normalize;
pub mod record;
pub mod routes;
pub mod session;
pub mod storage;
pub mod text;
pub mod websocket;
