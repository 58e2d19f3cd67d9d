//! The ingestion endpoint: every inbound request, whatever its path and
//! method, becomes exactly one record, which goes to the durable buffer
//! and to the live fan-out hub; the reply is a fixed success status
//! whatever happened downstream.

use vstd::prelude::*;

use crate::normalize::{
    spec_normalize_headers, spec_payload, views_of_raw_headers, RawHeader, RawHeaderView,
};
use crate::record::{build_record, record_text, spec_record_text, RecordView, WebhookRecord};
use crate::storage::{spec_append_step, views_of_records, ArrowStorage};
use crate::websocket::{BroadcastOutcome, WebSocketHandler};

verus! {

/// Relies on chrono's Utc::now for the current UTC time and on
/// DateTime::to_rfc3339 for its RFC 3339 date-and-time text. The text
/// stands for whatever moment the clock gave, so nothing is promised of
/// its value.
#[verifier::external_body]
fn rfc3339_now() -> Vec<u8> {
    chrono::Utc::now().to_rfc3339().into_bytes()
}

/// The fixed fallback for the port a request was originally addressed
/// to, used while the true original destination is not captured.
pub const DEFAULT_ORIGINAL_PORT: u16 = 8080;

/// The fixed success status with which every ingested request is
/// answered.
pub const ACCEPTED_STATUS: u16 = 200;

/// The application state handed to the request handler: the durable
/// buffer and the fan-out hub, constructed once per process run.
pub struct AppState {
    pub storage: ArrowStorage,
    pub ws_handler: WebSocketHandler,
}

impl AppState {
    /// Both components are well formed.
    pub open spec fn wf(&self) -> bool {
        &&& self.storage.wf()
        &&& self.ws_handler.wf()
    }

    /// A fresh state: an empty buffer with the default threshold and a
    /// hub with no viewers.
    pub fn new() -> (r: AppState)
        ensures
            r.wf(),
            r.storage@.pending == Seq::<RecordView>::empty(),
            r.storage@.threshold == 100,
            r.ws_handler@ == Seq::<u64>::empty(),
    {
        AppState { storage: ArrowStorage::new(), ws_handler: WebSocketHandler::new() }
    }
}

/// What one ingested request came to: the status sent back, the
/// serialized record as broadcast to viewers, the batch detached for
/// persistence if the buffer filled, and the broadcast's outcome.
pub struct IngestOutcome {
    pub status: u16,
    pub text: Vec<u8>,
    pub flushed: Option<Vec<WebhookRecord>>,
    pub delivered: BroadcastOutcome,
}

/// The abstract values of a detached batch, if one detached.
pub open spec fn views_of_flushed(flushed: Option<Vec<WebhookRecord>>) -> Option<
    Seq<RecordView>,
> {
    match flushed {
        Some(batch) => Some(views_of_records(batch@)),
        None => None,
    }
}

/// The record that ingestion builds from one request's parts.
pub open spec fn spec_ingest_record(
    timestamp: Seq<u8>,
    client_ip: Seq<u8>,
    method: Seq<u8>,
    path: Seq<u8>,
    headers: Seq<RawHeaderView>,
    body: Seq<u8>,
) -> RecordView {
    RecordView {
        timestamp,
        client_ip,
        method,
        path,
        headers: spec_normalize_headers(headers),
        payload: spec_payload(body),
        original_port: DEFAULT_ORIGINAL_PORT,
    }
}

/// What ingesting record `r` into a buffer holding `pre` under
/// `threshold` leaves behind: the broadcast text is the record's
/// serialization, and the buffer and the detached batch move exactly as
/// one append step moves them.
pub open spec fn spec_ingested(
    r: RecordView,
    pre: Seq<RecordView>,
    threshold: nat,
    post: Seq<RecordView>,
    text: Seq<u8>,
    flushed: Option<Seq<RecordView>>,
) -> bool {
    &&& text == spec_record_text(r)
    &&& post == spec_append_step(pre, r, threshold).0
    &&& flushed == spec_append_step(pre, r, threshold).1
}

/// Ingest one request whose timestamp text is already in hand: build
/// the record, append it to the buffer, broadcast its serialization to
/// the hub, and answer with the fixed success status. Both sinks are
/// fed on every call, whatever either of them does with the record.
pub fn process_request(
    state: &mut AppState,
    timestamp: Vec<u8>,
    client_ip: Vec<u8>,
    method: Vec<u8>,
    path: Vec<u8>,
    headers: &Vec<RawHeader>,
    body: &Vec<u8>,
) -> (out: IngestOutcome)
    requires
        old(state).wf(),
    ensures
        final(state).wf(),
        out.status == ACCEPTED_STATUS,
        spec_ingested(
            spec_ingest_record(
                timestamp@,
                client_ip@,
                method@,
                path@,
                views_of_raw_headers(headers@),
                body@,
            ),
            old(state).storage@.pending,
            old(state).storage@.threshold,
            final(state).storage@.pending,
            out.text@,
            views_of_flushed(out.flushed),
        ),
        final(state).storage@.threshold == old(state).storage@.threshold,
        final(state).ws_handler@ == old(state).ws_handler@,
        out.delivered matches BroadcastOutcome::Delivered(n) ==> n >= 1,
{
    let record = build_record(
        timestamp,
        client_ip,
        method,
        path,
        headers,
        body,
        DEFAULT_ORIGINAL_PORT,
    );
    proof {
        let expect = spec_ingest_record(
            timestamp@,
            client_ip@,
            method@,
            path@,
            views_of_raw_headers(headers@),
            body@,
        );
        assert(record@ == expect);
    }
    let text = record_text(&record);
    let viewer_copy = text.clone();
    let flushed = state.storage.store_webhook(record);
    let delivered = state.ws_handler.broadcast(viewer_copy);
    IngestOutcome { status: ACCEPTED_STATUS, text, flushed, delivered }
}

/// Handle one inbound request: stamp the current UTC time, then ingest
/// the request. The timestamp text depends on the clock, so the record
/// is pinned up to it: for some timestamp text, everything holds that
/// `process_request` promises. The status is the fixed success answer
/// on every path.
pub fn handle_webhook(
    state: &mut AppState,
    client_ip: Vec<u8>,
    method: Vec<u8>,
    path: Vec<u8>,
    headers: &Vec<RawHeader>,
    body: &Vec<u8>,
) -> (out: IngestOutcome)
    requires
        old(state).wf(),
    ensures
        final(state).wf(),
        out.status == ACCEPTED_STATUS,
        exists|ts: Seq<u8>|
            #[trigger] spec_ingested(
                spec_ingest_record(
                    ts,
                    client_ip@,
                    method@,
                    path@,
                    views_of_raw_headers(headers@),
                    body@,
                ),
                old(state).storage@.pending,
                old(state).storage@.threshold,
                final(state).storage@.pending,
                out.text@,
                views_of_flushed(out.flushed),
            ),
        final(state).storage@.threshold == old(state).storage@.threshold,
        final(state).ws_handler@ == old(state).ws_handler@,
        out.delivered matches BroadcastOutcome::Delivered(n) ==> n >= 1,
{
    let stamp = rfc3339_now();
    let ghost ts: Seq<u8> = stamp@;
    let out = process_request(state, stamp, client_ip, method, path, headers, body);
    proof {
        assert(spec_ingested(
            spec_ingest_record(
                ts,
                client_ip@,
                method@,
                path@,
                views_of_raw_headers(headers@),
                body@,
            ),
            old(state).storage@.pending,
            old(state).storage@.threshold,
            state.storage@.pending,
            out.text@,
            views_of_flushed(out.flushed),
        ));
    }
    out
}

} // verus!
