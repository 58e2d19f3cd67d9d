//! The captured-request record: one immutable value per inbound request,
//! and its serialization as one JSON object.

use vstd::prelude::*;
use vstd::string::StringSliceAdditionalSpecFns;

use crate::normalize::{
    headers_object_text, normalize_headers, parse_payload, payload_text, spec_headers_obj,
    spec_normalize_headers, spec_payload, spec_payload_text, views_of_raw_headers, Header,
    HeaderView, Payload, PayloadView, RawHeader,
};
use crate::text::{dec_u64, quoted, spec_dec, spec_quoted};

verus! {

/// One captured request: timestamp text, peer address, method, path, the
/// normalized headers in arrival order, the normalized payload, and the
/// port the request was originally addressed to. Immutable once built;
/// exactly one is produced per inbound request.
pub struct WebhookRecord {
    pub timestamp: Vec<u8>,
    pub client_ip: Vec<u8>,
    pub method: Vec<u8>,
    pub path: Vec<u8>,
    pub headers: Vec<Header>,
    pub payload: Payload,
    pub original_port: u16,
}

/// The abstract value of a `WebhookRecord`.
pub ghost struct RecordView {
    pub timestamp: Seq<u8>,
    pub client_ip: Seq<u8>,
    pub method: Seq<u8>,
    pub path: Seq<u8>,
    pub headers: Seq<HeaderView>,
    pub payload: PayloadView,
    pub original_port: u16,
}

impl View for WebhookRecord {
    type V = RecordView;

    open spec fn view(&self) -> RecordView {
        RecordView {
            timestamp: self.timestamp@,
            client_ip: self.client_ip@,
            method: self.method@,
            path: self.path@,
            headers: crate::normalize::views_of_headers(self.headers@),
            payload: self.payload@,
            original_port: self.original_port,
        }
    }
}

/// The whole record as one JSON object, fields in a fixed order.
pub open spec fn spec_record_text(r: RecordView) -> Seq<u8> {
    "{\"timestamp\":".spec_bytes() + spec_quoted(r.timestamp) + ",\"client_ip\":".spec_bytes()
        + spec_quoted(r.client_ip) + ",\"method\":".spec_bytes() + spec_quoted(r.method)
        + ",\"path\":".spec_bytes() + spec_quoted(r.path) + ",\"headers\":".spec_bytes()
        + spec_headers_obj(r.headers) + ",\"payload\":".spec_bytes()
        + spec_payload_text(r.payload) + ",\"original_port\":".spec_bytes()
        + spec_dec(r.original_port as nat) + "}".spec_bytes()
}

/// Build the record for one inbound request: normalize the payload and
/// the headers, and keep the remaining fields as they were handed in.
pub fn build_record(
    timestamp: Vec<u8>,
    client_ip: Vec<u8>,
    method: Vec<u8>,
    path: Vec<u8>,
    headers: &Vec<RawHeader>,
    body: &Vec<u8>,
    original_port: u16,
) -> (r: WebhookRecord)
    ensures
        r@.timestamp == timestamp@,
        r@.client_ip == client_ip@,
        r@.method == method@,
        r@.path == path@,
        r@.headers == spec_normalize_headers(views_of_raw_headers(headers@)),
        r@.payload == spec_payload(body@),
        r@.original_port == original_port,
{
    let normalized = normalize_headers(headers);
    let payload = parse_payload(body);
    WebhookRecord {
        timestamp,
        client_ip,
        method,
        path,
        headers: normalized,
        payload,
        original_port,
    }
}

/// Serialize one record as JSON text. This text is what viewers receive
/// and what a flushed batch holds for the record.
pub fn record_text(r: &WebhookRecord) -> (out: Vec<u8>)
    ensures
        out@ == spec_record_text(r@),
{
    let mut out: Vec<u8> = Vec::new();
    out.extend_from_slice("{\"timestamp\":".as_bytes());
    let mut part = quoted(&r.timestamp);
    out.append(&mut part);
    out.extend_from_slice(",\"client_ip\":".as_bytes());
    let mut part = quoted(&r.client_ip);
    out.append(&mut part);
    out.extend_from_slice(",\"method\":".as_bytes());
    let mut part = quoted(&r.method);
    out.append(&mut part);
    out.extend_from_slice(",\"path\":".as_bytes());
    let mut part = quoted(&r.path);
    out.append(&mut part);
    out.extend_from_slice(",\"headers\":".as_bytes());
    let mut part = headers_object_text(&r.headers);
    out.append(&mut part);
    out.extend_from_slice(",\"payload\":".as_bytes());
    let mut part = payload_text(&r.payload);
    out.append(&mut part);
    out.extend_from_slice(",\"original_port\":".as_bytes());
    let mut part = dec_u64(r.original_port as u64);
    out.append(&mut part);
    out.extend_from_slice("}".as_bytes());
    assert(out@ =~= spec_record_text(r@));
    out
}

} // verus!
