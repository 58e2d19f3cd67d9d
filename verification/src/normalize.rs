//! Payload and header normalization: raw request bytes become a canonical
//! structured payload, and raw header values become text that is always
//! printable, whatever the sender put on the wire.

use vstd::prelude::*;
use vstd::string::StringSliceAdditionalSpecFns;
use vstd::utf8::valid_utf8;

use crate::text::{dec_u64, quoted, spec_dec, spec_quoted};

verus! {

/// What serde_json's parser accepts and how it reprints what it parsed:
/// the compact text of the value parsed from `bytes`, or `None` where the
/// bytes are not a JSON document. Both depend on the bytes alone.
pub uninterp spec fn json_canon_of(bytes: Seq<u8>) -> Option<Seq<u8>>;

/// What lossy UTF-8 decoding yields on `bytes`: a function of the bytes
/// alone.
pub uninterp spec fn lossy_utf8_of(bytes: Seq<u8>) -> Seq<u8>;

/// Relies on serde_json::from_slice, which parses a JSON document out of
/// exactly the byte sequences that hold one, and on serde_json::Value's
/// to_string, which prints the parsed value compactly; the outcome of the
/// two together depends on the bytes alone.
#[verifier::external_body]
fn parse_json_canonical(bytes: &Vec<u8>) -> (r: Option<Vec<u8>>)
    ensures
        match r {
            Some(t) => json_canon_of(bytes@) == Some(t@),
            None => json_canon_of(bytes@) is None,
        },
{
    match serde_json::from_slice::<serde_json::Value>(bytes.as_slice()) {
        Ok(v) => Some(v.to_string().into_bytes()),
        Err(_) => None,
    }
}

/// Relies on String::from_utf8_lossy: its result depends on the bytes
/// alone, valid UTF-8 comes back unchanged, and the result is itself
/// valid UTF-8.
#[verifier::external_body]
fn lossy_utf8(bytes: &Vec<u8>) -> (r: Vec<u8>)
    ensures
        r@ == lossy_utf8_of(bytes@),
        valid_utf8(bytes@) ==> r@ == bytes@,
        valid_utf8(r@),
{
    String::from_utf8_lossy(bytes.as_slice()).into_owned().into_bytes()
}

/// Relies on str::from_utf8, which accepts exactly the valid UTF-8 byte
/// sequences.
#[verifier::external_body]
fn utf8_ok(bytes: &Vec<u8>) -> (r: bool)
    ensures
        r == valid_utf8(bytes@),
{
    core::str::from_utf8(bytes.as_slice()).is_ok()
}

/// The normalized payload of one captured request: either the canonical
/// text of the structured data the body held, or a fallback that wraps
/// the lossily decoded body when the body was not structured.
pub enum Payload {
    Json(Vec<u8>),
    Anomaly(Vec<u8>),
}

/// The abstract value of a `Payload`.
pub ghost enum PayloadView {
    Json(Seq<u8>),
    Anomaly(Seq<u8>),
}

impl View for Payload {
    type V = PayloadView;

    open spec fn view(&self) -> PayloadView {
        match self {
            Payload::Json(t) => PayloadView::Json(t@),
            Payload::Anomaly(t) => PayloadView::Anomaly(t@),
        }
    }
}

/// What normalization makes of a request body: the canonical text where
/// the body parses as structured data, the lossily decoded bytes where it
/// does not. Total: every byte sequence is normalized to something.
pub open spec fn spec_payload(bytes: Seq<u8>) -> PayloadView {
    match json_canon_of(bytes) {
        Some(t) => PayloadView::Json(t),
        None => PayloadView::Anomaly(lossy_utf8_of(bytes)),
    }
}

/// How a payload stands inside the serialized record: parsed data is
/// spliced in as it is, a fallback becomes a one-field wrapper object.
pub open spec fn spec_payload_text(p: PayloadView) -> Seq<u8> {
    match p {
        PayloadView::Json(t) => t,
        PayloadView::Anomaly(t) => "{\"anomaly_payload\":".spec_bytes() + spec_quoted(t)
            + "}".spec_bytes(),
    }
}

/// Normalize a raw request body. Never fails and never rejects input:
/// bytes that do not parse as structured data become the fallback
/// wrapper's content, decoded lossily.
pub fn parse_payload(payload: &Vec<u8>) -> (r: Payload)
    ensures
        r@ == spec_payload(payload@),
{
    match parse_json_canonical(payload) {
        Some(t) => Payload::Json(t),
        None => Payload::Anomaly(lossy_utf8(payload)),
    }
}

/// Serialize a normalized payload for its place in the record document.
pub fn payload_text(p: &Payload) -> (r: Vec<u8>)
    ensures
        r@ == spec_payload_text(p@),
{
    match p {
        Payload::Json(t) => t.clone(),
        Payload::Anomaly(t) => {
            let mut out: Vec<u8> = Vec::new();
            out.extend_from_slice("{\"anomaly_payload\":".as_bytes());
            let mut q = quoted(t);
            out.append(&mut q);
            out.extend_from_slice("}".as_bytes());
            assert(out@ =~= spec_payload_text(p@));
            out
        },
    }
}

/// One header as it arrived: a name and a raw value that need not be
/// text.
pub struct RawHeader {
    pub name: Vec<u8>,
    pub value: Vec<u8>,
}

/// The abstract value of a `RawHeader`.
pub ghost struct RawHeaderView {
    pub name: Seq<u8>,
    pub value: Seq<u8>,
}

impl View for RawHeader {
    type V = RawHeaderView;

    open spec fn view(&self) -> RawHeaderView {
        RawHeaderView { name: self.name@, value: self.value@ }
    }
}

/// One normalized header: the name and a value that is always valid
/// text, either the original value or a placeholder naming its length.
pub struct Header {
    pub name: Vec<u8>,
    pub text: Vec<u8>,
}

/// The abstract value of a `Header`.
pub ghost struct HeaderView {
    pub name: Seq<u8>,
    pub text: Seq<u8>,
}

impl View for Header {
    type V = HeaderView;

    open spec fn view(&self) -> HeaderView {
        HeaderView { name: self.name@, text: self.text@ }
    }
}

/// What normalization makes of one raw header value: the value itself
/// where it is valid UTF-8, otherwise a placeholder stating the byte
/// length.
pub open spec fn spec_header_text(value: Seq<u8>) -> Seq<u8> {
    if valid_utf8(value) {
        value
    } else {
        "<binary: ".spec_bytes() + spec_dec(value.len()) + " bytes>".spec_bytes()
    }
}

/// What normalization makes of one raw header.
pub open spec fn spec_normalize_header(h: RawHeaderView) -> HeaderView {
    HeaderView { name: h.name, text: spec_header_text(h.value) }
}

/// Normalize one raw header value.
pub fn normalize_header_value(value: &Vec<u8>) -> (r: Vec<u8>)
    ensures
        r@ == spec_header_text(value@),
{
    if utf8_ok(value) {
        value.clone()
    } else {
        let mut out: Vec<u8> = Vec::new();
        out.extend_from_slice("<binary: ".as_bytes());
        let mut digits = dec_u64(value.len() as u64);
        out.append(&mut digits);
        out.extend_from_slice(" bytes>".as_bytes());
        assert(out@ =~= spec_header_text(value@));
        out
    }
}

/// The abstract values of a vector of raw headers.
pub open spec fn views_of_raw_headers(hs: Seq<RawHeader>) -> Seq<RawHeaderView> {
    hs.map_values(|h: RawHeader| h@)
}

/// The entries of `hs` that are not under `name`, in their order.
pub open spec fn spec_remove_name(hs: Seq<HeaderView>, name: Seq<u8>) -> Seq<HeaderView>
    decreases hs.len(),
{
    if hs.len() == 0 {
        Seq::empty()
    } else if hs.last().name == name {
        spec_remove_name(hs.drop_last(), name)
    } else {
        spec_remove_name(hs.drop_last(), name).push(hs.last())
    }
}

/// What normalization makes of a whole header set: a mapping with one
/// entry per distinct name. A repeated name keeps only its last value,
/// and the surviving entries stand in arrival order.
pub open spec fn spec_normalize_headers(hs: Seq<RawHeaderView>) -> Seq<HeaderView>
    decreases hs.len(),
{
    if hs.len() == 0 {
        Seq::empty()
    } else {
        spec_remove_name(spec_normalize_headers(hs.drop_last()), hs.last().name).push(
            spec_normalize_header(hs.last()),
        )
    }
}

proof fn lemma_remove_name_absent(hs: Seq<HeaderView>, name: Seq<u8>)
    requires
        forall|i: int| 0 <= i < hs.len() ==> hs[i].name != name,
    ensures
        spec_remove_name(hs, name) == hs,
    decreases hs.len(),
{
    if hs.len() == 0 {
        assert(spec_remove_name(hs, name) =~= hs);
    } else {
        let rest = hs.drop_last();
        assert forall|i: int| 0 <= i < rest.len() implies rest[i].name != name by {
            assert(rest[i] == hs[i]);
        }
        lemma_remove_name_absent(rest, name);
        assert(hs.last().name != name);
        assert(spec_remove_name(hs, name) =~= hs);
    }
}

proof fn lemma_remove_name_single(hs: Seq<HeaderView>, name: Seq<u8>, k: int)
    requires
        0 <= k < hs.len(),
        hs[k].name == name,
        forall|i: int| 0 <= i < hs.len() && i != k ==> hs[i].name != name,
    ensures
        spec_remove_name(hs, name) == hs.remove(k),
    decreases hs.len(),
{
    let rest = hs.drop_last();
    if k == hs.len() - 1 {
        assert forall|i: int| 0 <= i < rest.len() implies rest[i].name != name by {
            assert(rest[i] == hs[i]);
        }
        lemma_remove_name_absent(rest, name);
        assert(spec_remove_name(hs, name) =~= hs.remove(k));
    } else {
        assert(hs.last().name != name);
        assert(rest[k] == hs[k]);
        assert forall|i: int| 0 <= i < rest.len() && i != k implies rest[i].name != name by {
            assert(rest[i] == hs[i]);
        }
        lemma_remove_name_single(rest, name, k);
        assert(spec_remove_name(hs, name) =~= hs.remove(k));
    }
}

proof fn lemma_remove_name_spares_no_match(hs: Seq<HeaderView>, name: Seq<u8>)
    ensures
        forall|i: int|
            0 <= i < spec_remove_name(hs, name).len() ==> #[trigger] spec_remove_name(
                hs,
                name,
            )[i].name != name,
    decreases hs.len(),
{
    if hs.len() > 0 {
        let rest = hs.drop_last();
        lemma_remove_name_spares_no_match(rest, name);
        let res = spec_remove_name(hs, name);
        let sub = spec_remove_name(rest, name);
        assert forall|i: int| 0 <= i < res.len() implies res[i].name != name by {
            if hs.last().name == name {
                assert(res[i] == sub[i]);
            } else if i < sub.len() {
                assert(res[i] == sub[i]);
            } else {
                assert(res[i] == hs.last());
            }
        }
    }
}

proof fn lemma_remove_name_keeps_distinct(hs: Seq<HeaderView>, name: Seq<u8>)
    requires
        forall|i: int, j: int| 0 <= i < j < hs.len() ==> hs[i].name != hs[j].name,
    ensures
        forall|i: int, j: int|
            0 <= i < j < spec_remove_name(hs, name).len() ==> spec_remove_name(hs, name)[i].name
                != spec_remove_name(hs, name)[j].name,
    decreases hs.len(),
{
    if hs.len() > 0 {
        let rest = hs.drop_last();
        assert forall|i: int, j: int| 0 <= i < j < rest.len() implies rest[i].name
            != rest[j].name by {
            assert(rest[i] == hs[i]);
            assert(rest[j] == hs[j]);
        }
        lemma_remove_name_keeps_distinct(rest, name);
        let res = spec_remove_name(hs, name);
        let sub = spec_remove_name(rest, name);
        assert forall|i: int, j: int| 0 <= i < j < res.len() implies res[i].name
            != res[j].name by {
            if hs.last().name == name {
                assert(res[i] == sub[i]);
                assert(res[j] == sub[j]);
            } else if j < sub.len() {
                assert(res[i] == sub[i]);
                assert(res[j] == sub[j]);
            } else {
                assert(res[i] == sub[i]);
                assert(res[j] == hs.last());
                lemma_remove_name_membership(rest, name, i);
                let k = choose|k: int| 0 <= k < rest.len() && rest[k] == sub[i];
                assert(rest[k] == hs[k]);
                assert(hs[k].name != hs.last().name);
            }
        }
    }
}

proof fn lemma_remove_name_membership(hs: Seq<HeaderView>, name: Seq<u8>, i: int)
    requires
        0 <= i < spec_remove_name(hs, name).len(),
    ensures
        exists|k: int|
            0 <= k < hs.len() && hs[k] == #[trigger] spec_remove_name(hs, name)[i],
    decreases hs.len(),
{
    if hs.len() > 0 {
        let rest = hs.drop_last();
        let cleaned = spec_remove_name(hs, name);
        if hs.last().name != name && i == cleaned.len() - 1 {
            assert(hs[hs.len() - 1] == cleaned[i]);
        } else {
            lemma_remove_name_membership(rest, name, i);
            let k = choose|k: int| 0 <= k < rest.len() && rest[k] == spec_remove_name(
                rest,
                name,
            )[i];
            assert(hs[k] == cleaned[i]);
        }
    }
}

/// Normalized header sets are mappings: no two entries of
/// `spec_normalize_headers` stand under the same name, whatever
/// repetitions the raw set held.
pub proof fn lemma_normalized_headers_form_mapping(hs: Seq<RawHeaderView>)
    ensures
        forall|i: int, j: int|
            0 <= i < j < spec_normalize_headers(hs).len() ==> spec_normalize_headers(hs)[i].name
                != spec_normalize_headers(hs)[j].name,
    decreases hs.len(),
{
    if hs.len() > 0 {
        let rest = hs.drop_last();
        lemma_normalized_headers_form_mapping(rest);
        let prev = spec_normalize_headers(rest);
        let name = hs.last().name;
        lemma_remove_name_keeps_distinct(prev, name);
        lemma_remove_name_spares_no_match(prev, name);
        let cleaned = spec_remove_name(prev, name);
        let whole = spec_normalize_headers(hs);
        assert forall|i: int, j: int| 0 <= i < j < whole.len() implies whole[i].name
            != whole[j].name by {
            if j < cleaned.len() {
                assert(whole[i] == cleaned[i]);
                assert(whole[j] == cleaned[j]);
            } else {
                assert(whole[i] == cleaned[i]);
                assert(whole[j].name == name);
            }
        }
    }
}

/// Whether two byte strings hold the same bytes.
fn bytes_eq(a: &Vec<u8>, b: &Vec<u8>) -> (r: bool)
    ensures
        r == (a@ == b@),
{
    if a.len() != b.len() {
        return false;
    }
    let mut i: usize = 0;
    while i < a.len()
        invariant
            i <= a@.len(),
            a@.len() == b@.len(),
            forall|j: int| 0 <= j < i ==> a@[j] == b@[j],
        decreases a@.len() - i,
    {
        if a[i] != b[i] {
            return false;
        }
        i = i + 1;
    }
    assert(a@ =~= b@);
    true
}

/// Normalize a whole header set into the record's header mapping: each
/// value normalized, one entry per distinct name with the last value
/// winning, surviving entries in arrival order.
pub fn normalize_headers(headers: &Vec<RawHeader>) -> (r: Vec<Header>)
    ensures
        views_of_headers(r@) == spec_normalize_headers(views_of_raw_headers(headers@)),
{
    let ghost raw = views_of_raw_headers(headers@);
    let mut out: Vec<Header> = Vec::new();
    let mut i: usize = 0;
    while i < headers.len()
        invariant
            i <= headers@.len(),
            raw == views_of_raw_headers(headers@),
            raw.len() == headers@.len(),
            forall|j: int| 0 <= j < headers@.len() ==> raw[j] == headers@[j]@,
            views_of_headers(out@) == spec_normalize_headers(raw.take(i as int)),
        decreases headers@.len() - i,
    {
        let ghost prev = spec_normalize_headers(raw.take(i as int));
        proof {
            lemma_normalized_headers_form_mapping(raw.take(i as int));
            assert(raw.take(i + 1).drop_last() =~= raw.take(i as int));
            assert(raw.take(i + 1).last() == raw[i as int]);
        }
        let h = &headers[i];
        let text = normalize_header_value(&h.value);
        // Drop the one earlier entry under this name, if there is one.
        let mut j: usize = 0;
        let mut found = false;
        let mut at: usize = 0;
        while !found && j < out.len()
            invariant
                j <= out@.len(),
                views_of_headers(out@) == prev,
                prev.len() == out@.len(),
                forall|l: int| 0 <= l < out@.len() ==> prev[l] == out@[l]@,
                !found ==> forall|l: int| 0 <= l < j ==> prev[l].name != h.name@,
                found ==> at < out@.len() && prev[at as int].name == h.name@,
            decreases out@.len() - j,
        {
            if bytes_eq(&out[j].name, &h.name) {
                found = true;
                at = j;
            }
            j = j + 1;
        }
        proof {
            if found {
                assert forall|l: int| 0 <= l < prev.len() && l != at implies prev[l].name
                    != h.name@ by {
                    assert(prev[l].name != prev[at as int].name);
                }
                lemma_remove_name_single(prev, h.name@, at as int);
            } else {
                lemma_remove_name_absent(prev, h.name@);
            }
        }
        if found {
            out.remove(at);
            assert(views_of_headers(out@) =~= prev.remove(at as int));
        }
        out.push(Header { name: h.name.clone(), text });
        proof {
            assert(views_of_headers(out@) =~= spec_remove_name(prev, raw[i as int].name).push(
                spec_normalize_header(raw[i as int]),
            ));
        }
        i = i + 1;
    }
    proof {
        assert(raw.take(raw.len() as int) =~= raw);
    }
    out
}

/// Normalization is a pure function of its input and total on it: the
/// same body bytes always normalize to the same payload, the same raw
/// header always normalizes to the same text, on every call — and no
/// input is rejected, since neither `parse_payload` nor
/// `normalize_headers` requires anything of its argument.
pub proof fn lemma_normalization_deterministic(
    body_a: Seq<u8>,
    body_b: Seq<u8>,
    header_a: RawHeaderView,
    header_b: RawHeaderView,
)
    requires
        body_a == body_b,
        header_a == header_b,
    ensures
        spec_payload(body_a) == spec_payload(body_b),
        spec_normalize_header(header_a) == spec_normalize_header(header_b),
{
}

/// The serialized form of one normalized header inside the headers
/// object.
pub open spec fn spec_header_item(h: HeaderView) -> Seq<u8> {
    spec_quoted(h.name) + seq![58u8] + spec_quoted(h.text)
}

/// The members of the headers object, in arrival order, separated by
/// commas.
pub open spec fn spec_headers_inner(hs: Seq<HeaderView>) -> Seq<u8>
    decreases hs.len(),
{
    if hs.len() == 0 {
        Seq::empty()
    } else if hs.len() == 1 {
        spec_header_item(hs[0])
    } else {
        spec_headers_inner(hs.drop_last()) + seq![44u8] + spec_header_item(hs.last())
    }
}

/// The headers of a record as one JSON object, names in arrival order.
pub open spec fn spec_headers_obj(hs: Seq<HeaderView>) -> Seq<u8> {
    seq![123u8] + spec_headers_inner(hs) + seq![125u8]
}

/// The abstract values of a vector of normalized headers.
pub open spec fn views_of_headers(hs: Seq<Header>) -> Seq<HeaderView> {
    hs.map_values(|h: Header| h@)
}

/// Serialize an already-normalized header set as one JSON object, in
/// the order given.
pub fn headers_object_text(headers: &Vec<Header>) -> (r: Vec<u8>)
    ensures
        r@ == spec_headers_obj(views_of_headers(headers@)),
{
    let ghost hviews = views_of_headers(headers@);
    let mut out: Vec<u8> = Vec::new();
    out.push(123);
    let mut i: usize = 0;
    while i < headers.len()
        invariant
            i <= headers@.len(),
            hviews == views_of_headers(headers@),
            hviews.len() == headers@.len(),
            forall|j: int| 0 <= j < headers@.len() ==> hviews[j] == headers@[j]@,
            out@ == seq![123u8] + spec_headers_inner(hviews.take(i as int)),
        decreases headers@.len() - i,
    {
        assert(hviews.take(i + 1).drop_last() =~= hviews.take(i as int));
        assert(hviews.take(i + 1).last() == hviews[i as int]);
        if i > 0 {
            out.push(44);
        }
        let h = &headers[i];
        let mut name_q = quoted(&h.name);
        out.append(&mut name_q);
        out.push(58);
        let mut text_q = quoted(&h.text);
        out.append(&mut text_q);
        proof {
            if i == 0 {
                assert(spec_headers_inner(hviews.take(1)) =~= spec_header_item(hviews[0]));
            }
            assert(out@ =~= seq![123u8] + spec_headers_inner(hviews.take(i + 1)));
        }
        i = i + 1;
    }
    out.push(125);
    proof {
        assert(hviews.take(hviews.len() as int) =~= hviews);
        assert(out@ =~= spec_headers_obj(hviews));
    }
    out
}

/// Turn a raw header set into one JSON object: normalize every value,
/// keep one member per distinct name with the last value winning, and
/// print the surviving members in arrival order.
pub fn headers_to_json(headers: &Vec<RawHeader>) -> (r: Vec<u8>)
    ensures
        r@ == spec_headers_obj(spec_normalize_headers(views_of_raw_headers(headers@))),
{
    let normalized = normalize_headers(headers);
    headers_object_text(&normalized)
}

} // verus!
