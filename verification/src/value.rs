//! The values of fields, and what travels on the wire.

use vstd::prelude::*;
use crate::json::{Member, RawJson};
use crate::schema::Method;

verus! {

/// The value of one field.
#[derive(Debug)]
pub enum FieldValue {
    /// No value: the field is left out.
    Absent,
    /// Text, for a path segment, a query pair or a header.
    Text(String),
    /// A JSON value, for a member of the body or the whole body.
    Json(RawJson),
}

pub enum ValueView {
    Absent,
    Text(Seq<char>),
    Json(Seq<u8>),
}

impl DeepView for FieldValue {
    type V = ValueView;

    open spec fn deep_view(&self) -> ValueView {
        match self {
            FieldValue::Absent => ValueView::Absent,
            FieldValue::Text(t) => ValueView::Text(t@),
            FieldValue::Json(j) => ValueView::Json(j@),
        }
    }
}

/// A name with a text: a query pair or a header.
#[derive(Debug)]
pub struct Pair {
    pub name: String,
    pub value: String,
}

impl DeepView for Pair {
    type V = (Seq<char>, Seq<char>);

    open spec fn deep_view(&self) -> (Seq<char>, Seq<char>) {
        (self.name@, self.value@)
    }
}

/// A body before it is written as bytes, or after it was read from them.
#[derive(Debug)]
pub enum Payload {
    /// No body.
    Empty,
    /// One JSON value that is the whole body.
    Value(RawJson),
    /// The members of the object that is the body.
    Object(Vec<Member>),
}

pub enum PayloadView {
    Empty,
    Value(Seq<u8>),
    Object(Seq<(Seq<char>, Seq<u8>)>),
}

impl DeepView for Payload {
    type V = PayloadView;

    open spec fn deep_view(&self) -> PayloadView {
        match self {
            Payload::Empty => PayloadView::Empty,
            Payload::Value(j) => PayloadView::Value(j@),
            Payload::Object(ms) => PayloadView::Object(ms.deep_view()),
        }
    }
}

/// A request with its body still in parts.
#[derive(Debug)]
pub struct RequestParts {
    pub method: Method,
    pub path: String,
    pub query: Vec<Pair>,
    pub headers: Vec<Pair>,
    pub payload: Payload,
}

pub struct RequestPartsView {
    pub method: Method,
    pub path: Seq<char>,
    pub query: Seq<(Seq<char>, Seq<char>)>,
    pub headers: Seq<(Seq<char>, Seq<char>)>,
    pub payload: PayloadView,
}

impl DeepView for RequestParts {
    type V = RequestPartsView;

    open spec fn deep_view(&self) -> RequestPartsView {
        RequestPartsView {
            method: self.method,
            path: self.path@,
            query: self.query.deep_view(),
            headers: self.headers.deep_view(),
            payload: self.payload.deep_view(),
        }
    }
}

/// A response with its body still in parts.
#[derive(Debug)]
pub struct ResponseParts {
    pub status: u16,
    pub headers: Vec<Pair>,
    pub payload: Payload,
}

pub struct ResponsePartsView {
    pub status: u16,
    pub headers: Seq<(Seq<char>, Seq<char>)>,
    pub payload: PayloadView,
}

impl DeepView for ResponseParts {
    type V = ResponsePartsView;

    open spec fn deep_view(&self) -> ResponsePartsView {
        ResponsePartsView {
            status: self.status,
            headers: self.headers.deep_view(),
            payload: self.payload.deep_view(),
        }
    }
}

/// The bytes of a body, where there is one.
pub open spec fn bytes_view(body: Option<Vec<u8>>) -> Option<Seq<u8>> {
    match body {
        Some(b) => Some(b@),
        None => None,
    }
}

/// A request as the transport takes it.
#[derive(Debug)]
pub struct WireRequest {
    pub method: Method,
    pub path: String,
    pub query: Vec<Pair>,
    pub headers: Vec<Pair>,
    pub body: Option<Vec<u8>>,
}

pub struct WireRequestView {
    pub method: Method,
    pub path: Seq<char>,
    pub query: Seq<(Seq<char>, Seq<char>)>,
    pub headers: Seq<(Seq<char>, Seq<char>)>,
    pub body: Option<Seq<u8>>,
}

impl DeepView for WireRequest {
    type V = WireRequestView;

    open spec fn deep_view(&self) -> WireRequestView {
        WireRequestView {
            method: self.method,
            path: self.path@,
            query: self.query.deep_view(),
            headers: self.headers.deep_view(),
            body: bytes_view(self.body),
        }
    }
}

/// A response as the transport gives it.
#[derive(Debug)]
pub struct WireResponse {
    pub status: u16,
    pub headers: Vec<Pair>,
    pub body: Option<Vec<u8>>,
}

pub struct WireResponseView {
    pub status: u16,
    pub headers: Seq<(Seq<char>, Seq<char>)>,
    pub body: Option<Seq<u8>>,
}

impl DeepView for WireResponse {
    type V = WireResponseView;

    open spec fn deep_view(&self) -> WireResponseView {
        WireResponseView {
            status: self.status,
            headers: self.headers.deep_view(),
            body: bytes_view(self.body),
        }
    }
}

} // verus!
