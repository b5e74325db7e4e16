//! Which decoder a response goes to: the one of the error type for a
//! response with an error status, the one of the response struct otherwise.

use vstd::prelude::*;
use vstd::slice::slice_to_vec;
use crate::error::{DecodeError, DecodeErrorView};
use crate::json::{json_valid, RawJson};
use crate::schema::{EndpointDefinition, EndpointView};
use crate::value::{FieldValue, ValueView, WireResponse, WireResponseView};
use crate::wire::{decode_response, response_read};

verus! {

/// The lowest status that marks a response as an error.
pub const FIRST_ERROR_STATUS: u16 = 400;

/// Whether a status marks a response as an error.
pub open spec fn is_error_status(status: u16) -> bool {
    status >= FIRST_ERROR_STATUS
}

/// An error that the other side reported: the status, the error type of the
/// endpoint if it names one, and the payload as it came.
#[derive(Debug)]
pub struct DomainError {
    pub status: u16,
    pub error_type: Option<String>,
    pub payload: RawJson,
}

pub struct DomainErrorView {
    pub status: u16,
    pub error_type: Option<Seq<char>>,
    pub payload: Seq<u8>,
}

impl DeepView for DomainError {
    type V = DomainErrorView;

    open spec fn deep_view(&self) -> DomainErrorView {
        DomainErrorView {
            status: self.status,
            error_type: self.error_type.deep_view(),
            payload: self.payload@,
        }
    }
}

/// Why a response gives no values: it could not be decoded, or it is an
/// error that was decoded.
#[derive(Debug)]
pub enum Failure {
    Decode(DecodeError),
    Domain(DomainError),
}

pub enum FailureView {
    Decode(DecodeErrorView),
    Domain(DomainErrorView),
}

impl DeepView for Failure {
    type V = FailureView;

    open spec fn deep_view(&self) -> FailureView {
        match self {
            Failure::Decode(e) => FailureView::Decode(e.deep_view()),
            Failure::Domain(e) => FailureView::Domain(e.deep_view()),
        }
    }
}

/// What a response gives. With an error status it is decoded as an error
/// and as nothing else: its body has to hold a JSON value, which is the
/// payload of the error. With another status it is decoded as the response struct.
pub open spec fn outcome(ep: EndpointView, wire: WireResponseView) -> Result<
    Seq<ValueView>,
    FailureView,
> {
    if is_error_status(wire.status) {
        match wire.body {
            Some(b) => if json_valid(b) {
                Err(
                    FailureView::Domain(
                        DomainErrorView {
                            status: wire.status,
                            error_type: ep.error_type,
                            payload: b,
                        },
                    ),
                )
            } else {
                Err(FailureView::Decode(DecodeErrorView::InvalidBody))
            },
            None => Err(FailureView::Decode(DecodeErrorView::InvalidBody)),
        }
    } else {
        match response_read(ep, wire) {
            Ok(vs) => Ok(vs),
            Err(e) => Err(FailureView::Decode(e)),
        }
    }
}

/// What a result of receiving stands for.
pub open spec fn received(r: Result<Vec<FieldValue>, Failure>) -> Result<
    Seq<ValueView>,
    FailureView,
> {
    match r {
        Ok(vs) => Ok(vs.deep_view()),
        Err(e) => Err(e.deep_view()),
    }
}

/// Whether a status marks a response as an error.
pub fn error_status(status: u16) -> (r: bool)
    ensures
        r == is_error_status(status),
{
    status >= FIRST_ERROR_STATUS
}

/// Decodes a response: as an error where its status says so, as the response struct otherwise.
pub fn receive(def: &EndpointDefinition, wire: &WireResponse) -> (r: Result<
    Vec<FieldValue>,
    Failure,
>)
    ensures
        received(r) == outcome(def.deep_view(), wire.deep_view()),
{
    if error_status(wire.status) {
        match &wire.body {
            Some(b) => match RawJson::from_bytes(slice_to_vec(b.as_slice())) {
                Some(payload) => {
                    let error_type = match def.error_type() {
                        Some(t) => Some(t.clone()),
                        None => None,
                    };
                    Err(Failure::Domain(DomainError { status: wire.status, error_type, payload }))
                },
                None => Err(Failure::Decode(DecodeError::InvalidBody)),
            },
            None => Err(Failure::Decode(DecodeError::InvalidBody)),
        }
    } else {
        match decode_response(def, wire) {
            Ok(vs) => Ok(vs),
            Err(e) => Err(Failure::Decode(e)),
        }
    }
}

/// A response with an error status never gives values, and what it gives
/// does not depend on the fields of the response struct: two endpoints with
/// the same error type give the same.
pub proof fn law_error_first(ep: EndpointView, other: EndpointView, wire: WireResponseView)
    requires
        is_error_status(wire.status),
        ep.error_type == other.error_type,
    ensures
        outcome(ep, wire) is Err,
        outcome(ep, wire) == outcome(other, wire),
{
}

} // verus!
