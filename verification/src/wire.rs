//! Between the parts of a body and its bytes, and the whole way between
//! field values and what the transport carries.

use vstd::prelude::*;
use crate::error::{DecodeError, DecodeErrorView};
use crate::json::{
    json_object_bytes, json_object_members, json_valid, object_members, Member, RawJson,
};
use crate::marshal::{
    check_fits, check_valid, find_member, lemma_lookup_none, lookup, payload_of, same_lookups,
    same_payload, valid_values,
    body_kind, BodyKind, decode_request_from, decode_response_from, decoded, encode_request_parts,
    encode_response_parts, fits, kind_of, request_parts, request_values_of, response_parts,
    response_values_of,
};
use crate::schema::{Block, EndpointDefinition, EndpointView, Precedence, strategy_of};
use crate::value::{
    bytes_view, FieldValue, Payload, PayloadView, RequestParts, RequestPartsView, ResponseParts,
    ResponsePartsView, ValueView, WireRequest, WireRequestView, WireResponse, WireResponseView,
};
use vstd::slice::slice_to_vec;

verus! {

/// The bytes of a body: none where there is no body, the bytes of the value
/// where one value is the body, the bytes of the object where members are.
pub open spec fn body_of(payload: PayloadView) -> Option<Seq<u8>> {
    match payload {
        PayloadView::Empty => None,
        PayloadView::Value(j) => Some(j),
        PayloadView::Object(ms) => Some(json_object_bytes(ms)),
    }
}

/// The parts of the body that bytes hold, for a struct with a body of this
/// kind. Where the struct has no body, whatever came is passed over. Where
/// one value is the body, the bytes have to hold a JSON value; where members
/// are, a JSON object.
pub open spec fn payload_from(kind: BodyKind, body: Option<Seq<u8>>) -> Result<
    PayloadView,
    DecodeErrorView,
> {
    match kind {
        BodyKind::Empty => Ok(PayloadView::Empty),
        BodyKind::Whole => match body {
            Some(b) => if json_valid(b) {
                Ok(PayloadView::Value(b))
            } else {
                Err(DecodeErrorView::InvalidBody)
            },
            None => Err(DecodeErrorView::InvalidBody),
        },
        BodyKind::Object => match body {
            Some(b) => match json_object_members(b) {
                Some(ms) => Ok(PayloadView::Object(ms)),
                None => Err(DecodeErrorView::InvalidBody),
            },
            None => Err(DecodeErrorView::InvalidBody),
        },
    }
}

/// Whether the bytes that are written for a body are read as that body
/// again, or as one that is the same to a decoder.
pub open spec fn body_returns(kind: BodyKind, payload: PayloadView) -> bool {
    match payload_from(kind, body_of(payload)) {
        Ok(p) => same_payload(p, payload),
        Err(_) => false,
    }
}

/// A request with its body as bytes.
pub open spec fn seal_request(parts: RequestPartsView) -> WireRequestView {
    WireRequestView {
        method: parts.method,
        path: parts.path,
        query: parts.query,
        headers: parts.headers,
        body: body_of(parts.payload),
    }
}

/// A response with its body as bytes.
pub open spec fn seal_response(parts: ResponsePartsView) -> WireResponseView {
    WireResponseView {
        status: parts.status,
        headers: parts.headers,
        body: body_of(parts.payload),
    }
}

/// The request that an endpoint makes of the values of its request fields.
pub open spec fn wire_request(ep: EndpointView, prec: Precedence, values: Seq<ValueView>)
    -> WireRequestView {
    seal_request(request_parts(ep, prec, values))
}

/// The response that an endpoint makes of the values of its response fields.
pub open spec fn wire_response(ep: EndpointView, values: Seq<ValueView>) -> WireResponseView {
    seal_response(response_parts(ep, values))
}

/// The values of the request fields that a request holds.
pub open spec fn request_read(ep: EndpointView, prec: Precedence, wire: WireRequestView) -> Result<
    Seq<ValueView>,
    DecodeErrorView,
> {
    match payload_from(kind_of(strategy_of(ep.request_fields, Block::Request)), wire.body) {
        Err(e) => Err(e),
        Ok(payload) => request_values_of(ep, prec, wire.path, wire.query, wire.headers, payload),
    }
}

/// The values of the response fields that a response holds.
pub open spec fn response_read(ep: EndpointView, wire: WireResponseView) -> Result<
    Seq<ValueView>,
    DecodeErrorView,
> {
    match payload_from(kind_of(strategy_of(ep.response_fields, Block::Response)), wire.body) {
        Err(e) => Err(e),
        Ok(payload) => response_values_of(ep, wire.headers, payload),
    }
}

/// The bytes of a body in parts.
pub fn write_payload(payload: &Payload) -> (body: Option<Vec<u8>>)
    ensures
        bytes_view(body) == body_of(payload.deep_view()),
{
    match payload {
        Payload::Empty => None,
        Payload::Value(j) => Some(j.to_bytes()),
        Payload::Object(ms) => Some(RawJson::object(ms).to_bytes()),
    }
}

/// What a result of reading a body stands for.
pub open spec fn payload_read(r: Result<Payload, DecodeError>) -> Result<
    PayloadView,
    DecodeErrorView,
> {
    match r {
        Ok(p) => Ok(p.deep_view()),
        Err(e) => Err(e.deep_view()),
    }
}

/// The parts of the body that bytes hold, for a struct with a body of this kind.
pub fn read_payload(kind: BodyKind, body: &Option<Vec<u8>>) -> (r: Result<Payload, DecodeError>)
    ensures
        payload_read(r) == payload_from(kind, bytes_view(*body)),
{
    match kind {
        BodyKind::Empty => Ok(Payload::Empty),
        BodyKind::Whole => match body {
            Some(b) => match RawJson::from_bytes(slice_to_vec(b.as_slice())) {
                Some(j) => Ok(Payload::Value(j)),
                None => Err(DecodeError::InvalidBody),
            },
            None => Err(DecodeError::InvalidBody),
        },
        BodyKind::Object => match body {
            Some(b) => match object_members(b.as_slice()) {
                Some(ms) => Ok(Payload::Object(ms)),
                None => Err(DecodeError::InvalidBody),
            },
            None => Err(DecodeError::InvalidBody),
        },
    }
}

impl RequestParts {
    /// The request with its body as bytes.
    pub fn seal(self) -> (wire: WireRequest)
        ensures
            wire.deep_view() == seal_request(self.deep_view()),
    {
        let body = write_payload(&self.payload);
        WireRequest {
            method: self.method,
            path: self.path,
            query: self.query,
            headers: self.headers,
            body,
        }
    }
}

impl ResponseParts {
    /// The response with its body as bytes.
    pub fn seal(self) -> (wire: WireResponse)
        ensures
            wire.deep_view() == seal_response(self.deep_view()),
    {
        let body = write_payload(&self.payload);
        WireResponse { status: self.status, headers: self.headers, body }
    }
}

/// From the values of the request fields to the request that the transport takes.
pub fn encode_request(def: &EndpointDefinition, prec: Precedence, values: &Vec<FieldValue>) -> (wire:
    WireRequest)
    requires
        fits(def.deep_view().request_fields, values.deep_view()),
    ensures
        wire.deep_view() == wire_request(def.deep_view(), prec, values.deep_view()),
{
    encode_request_parts(def, prec, values).seal()
}

/// From a request that came over the wire to the values of the request fields.
pub fn decode_request(def: &EndpointDefinition, prec: Precedence, wire: &WireRequest) -> (r: Result<
    Vec<FieldValue>,
    DecodeError,
>)
    ensures
        decoded(r) == request_read(def.deep_view(), prec, wire.deep_view()),
{
    let kind = body_kind(def.request_fields(), Block::Request);
    match read_payload(kind, &wire.body) {
        Err(e) => Err(e),
        Ok(payload) => decode_request_from(
            def,
            prec,
            wire.path.as_str(),
            &wire.query,
            &wire.headers,
            &payload,
        ),
    }
}

/// From the values of the response fields to the response that the transport takes.
pub fn encode_response(def: &EndpointDefinition, values: &Vec<FieldValue>) -> (wire: WireResponse)
    requires
        fits(def.deep_view().response_fields, values.deep_view()),
    ensures
        wire.deep_view() == wire_response(def.deep_view(), values.deep_view()),
{
    encode_response_parts(def, values).seal()
}

/// From a response that came over the wire to the values of the response
/// fields, whatever its status.
pub fn decode_response(def: &EndpointDefinition, wire: &WireResponse) -> (r: Result<
    Vec<FieldValue>,
    DecodeError,
>)
    ensures
        decoded(r) == response_read(def.deep_view(), wire.deep_view()),
{
    let kind = body_kind(def.response_fields(), Block::Response);
    match read_payload(kind, &wire.body) {
        Err(e) => Err(e),
        Ok(payload) => decode_response_from(def, &wire.headers, &payload),
    }
}

/// Whether two runs of bytes are the same.
pub fn same_bytes(a: &[u8], b: &[u8]) -> (r: bool)
    ensures
        r == (a@ == b@),
{
    if a.len() != b.len() {
        return false;
    }
    let mut i: usize = 0;
    while i < a.len()
        invariant
            i <= a.len(),
            a.len() == b.len(),
            forall|k: int| 0 <= k < i ==> a@[k] == b@[k],
        decreases a.len() - i,
    {
        if a[i] != b[i] {
            return false;
        }
        i += 1;
    }
    assert(a@ =~= b@);
    true
}

/// What was found, as bytes.
pub open spec fn found_view(x: Option<RawJson>) -> Option<Seq<u8>> {
    match x {
        Some(j) => Some(j@),
        None => None,
    }
}

fn same_found(x: &Option<RawJson>, y: &Option<RawJson>) -> (r: bool)
    ensures
        r == (found_view(*x) == found_view(*y)),
{
    match (x, y) {
        (Some(a), Some(b)) => same_bytes(a.as_bytes(), b.as_bytes()),
        (None, None) => true,
        _ => false,
    }
}

/// Every key of `a` gives the same in `b` as in `a`.
pub open spec fn lookups_within(a: Seq<(Seq<char>, Seq<u8>)>, b: Seq<(Seq<char>, Seq<u8>)>)
    -> bool {
    forall|k: int| 0 <= k < a.len() ==> lookup(b, (#[trigger] a[k]).0) == lookup(a, a[k].0)
}

fn check_within(a: &Vec<Member>, b: &Vec<Member>) -> (r: bool)
    ensures
        r == lookups_within(a.deep_view(), b.deep_view()),
{
    let ghost av = a.deep_view();
    let ghost bv = b.deep_view();
    let mut i: usize = 0;
    while i < a.len()
        invariant
            i <= a.len(),
            av == a.deep_view(),
            bv == b.deep_view(),
            forall|k: int| 0 <= k < i ==> lookup(bv, (#[trigger] av[k]).0) == lookup(av, av[k].0),
        decreases a.len() - i,
    {
        let key = a[i].key.as_str();
        assert(av[i as int].0 == key@);
        let in_a = find_member(a, key);
        let in_b = find_member(b, key);
        assert(in_a.deep_view() == found_view(in_a));
        assert(in_b.deep_view() == found_view(in_b));
        if !same_found(&in_a, &in_b) {
            return false;
        }
        i += 1;
    }
    true
}

/// Whether two runs of members give the same member for every key.
pub fn lookups_agree(a: &Vec<Member>, b: &Vec<Member>) -> (r: bool)
    ensures
        r == same_lookups(a.deep_view(), b.deep_view()),
{
    let r = check_within(a, b) && check_within(b, a);
    proof {
        let av = a.deep_view();
        let bv = b.deep_view();
        if r {
            assert forall|name: Seq<char>| #[trigger] lookup(av, name) == lookup(bv, name) by {
                if exists|k: int| 0 <= k < av.len() && (#[trigger] av[k]).0 == name {
                    let k = choose|k: int| 0 <= k < av.len() && (#[trigger] av[k]).0 == name;
                    assert(lookup(bv, av[k].0) == lookup(av, av[k].0));
                } else if exists|k: int| 0 <= k < bv.len() && (#[trigger] bv[k]).0 == name {
                    let k = choose|k: int| 0 <= k < bv.len() && (#[trigger] bv[k]).0 == name;
                    assert(lookup(av, bv[k].0) == lookup(bv, bv[k].0));
                } else {
                    lemma_lookup_none(av, name);
                    lemma_lookup_none(bv, name);
                }
            }
        } else {
            if !lookups_within(av, bv) {
                let k = choose|k: int|
                    0 <= k < av.len() && lookup(bv, (#[trigger] av[k]).0) != lookup(av, av[k].0);
                assert(lookup(av, av[k].0) != lookup(bv, av[k].0));
            } else {
                let k = choose|k: int|
                    0 <= k < bv.len() && lookup(av, (#[trigger] bv[k]).0) != lookup(bv, bv[k].0);
                assert(lookup(av, bv[k].0) != lookup(bv, bv[k].0));
            }
        }
    }
    r
}

/// Whether two bodies in parts are the same to a decoder.
pub fn payloads_agree(p: &Payload, q: &Payload) -> (r: bool)
    ensures
        r == same_payload(p.deep_view(), q.deep_view()),
{
    match (p, q) {
        (Payload::Empty, Payload::Empty) => true,
        (Payload::Value(a), Payload::Value(b)) => same_bytes(a.as_bytes(), b.as_bytes()),
        (Payload::Object(a), Payload::Object(b)) => lookups_agree(a, b),
        _ => false,
    }
}

/// Whether `body`, the bytes that were written for `payload`, are read as
/// that body again.
pub fn check_body(kind: BodyKind, payload: &Payload, body: &Option<Vec<u8>>) -> (r: bool)
    requires
        bytes_view(*body) == body_of(payload.deep_view()),
    ensures
        r == body_returns(kind, payload.deep_view()),
{
    match read_payload(kind, body) {
        Ok(p) => payloads_agree(&p, payload),
        Err(_) => false,
    }
}

/// From the values of the request fields to a request of which it is
/// checked that decoding it gives the values back: nothing where the values
/// are not valid for the fields, and nothing where reading the bytes of the
/// body does not give the body that was written.
pub fn encode_request_checked(
    def: &EndpointDefinition,
    prec: Precedence,
    values: &Vec<FieldValue>,
) -> (r: Option<WireRequest>)
    ensures
        r is Some <==> valid_values(def.deep_view().request_fields, values.deep_view())
            && body_returns(
            kind_of(strategy_of(def.deep_view().request_fields, Block::Request)),
            payload_of(def.deep_view().request_fields, values.deep_view(), Block::Request),
        ),
        r matches Some(w) ==> w.deep_view() == wire_request(
            def.deep_view(),
            prec,
            values.deep_view(),
        ) && request_read(def.deep_view(), prec, w.deep_view()) == Ok::<
            Seq<ValueView>,
            DecodeErrorView,
        >(values.deep_view()),
{
    if !check_valid(def.request_fields(), values) {
        return None;
    }
    let _ = def.is_well_formed();
    let parts = encode_request_parts(def, prec, values);
    let kind = body_kind(def.request_fields(), Block::Request);
    let body = write_payload(&parts.payload);
    if !check_body(kind, &parts.payload, &body) {
        return None;
    }
    proof {
        crate::laws::law_request_wire_round_trip(def.deep_view(), prec, values.deep_view());
    }
    Some(
        WireRequest {
            method: parts.method,
            path: parts.path,
            query: parts.query,
            headers: parts.headers,
            body,
        },
    )
}

/// From the values of the response fields to a response of which it is
/// checked that decoding it gives the values back: nothing where the values
/// are not of the kinds that the fields take, and nothing where reading the
/// bytes of the body does not give the body that was written.
pub fn encode_response_checked(def: &EndpointDefinition, values: &Vec<FieldValue>) -> (r: Option<
    WireResponse,
>)
    ensures
        r is Some <==> fits(def.deep_view().response_fields, values.deep_view()) && body_returns(
            kind_of(strategy_of(def.deep_view().response_fields, Block::Response)),
            payload_of(def.deep_view().response_fields, values.deep_view(), Block::Response),
        ),
        r matches Some(w) ==> w.deep_view() == wire_response(def.deep_view(), values.deep_view())
            && response_read(def.deep_view(), w.deep_view()) == Ok::<
            Seq<ValueView>,
            DecodeErrorView,
        >(values.deep_view()),
{
    if !check_fits(def.response_fields(), values) {
        return None;
    }
    let _ = def.is_well_formed();
    let parts = encode_response_parts(def, values);
    let kind = body_kind(def.response_fields(), Block::Response);
    let body = write_payload(&parts.payload);
    if !check_body(kind, &parts.payload, &body) {
        return None;
    }
    proof {
        crate::laws::law_response_wire_round_trip(def.deep_view(), values.deep_view());
    }
    Some(WireResponse { status: parts.status, headers: parts.headers, body })
}

} // verus!
