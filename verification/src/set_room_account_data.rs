//! The endpoint that stores account data for a room:
//! `PUT /_matrix/client/*/user/{userId}/rooms/{roomId}/account_data/{type}`.

use vstd::prelude::*;
use vstd::string::StringExecFns;
use crate::compile::{compile, compile_read, compiled};
use crate::description::{
    entry_view, RawDescription, RawItem, RawItemView, RawSection, RawSectionView, tagged_view,
};
use crate::dispatch::{Failure, FailureView, outcome, receive};
use crate::error::{CompileError, DecodeError, DecodeErrorView};
use crate::json::RawJson;
use crate::marshal::{check_fits, fits};
use crate::schema::{EndpointDefinition, Precedence};
use crate::value::{FieldValue, ValueView, WireRequest, WireRequestView, WireResponse};
use crate::wire::{
    decode_request, encode_request, encode_response, request_read, wire_request, wire_response,
};

verus! {

/// The metadata entries of the endpoint.
pub open spec fn metadata_items() -> Seq<RawItemView> {
    seq![
        entry_view("description"@, "Associate account data with a room."@),
        entry_view("method"@, "PUT"@),
        entry_view("name"@, "set_room_account_data"@),
        entry_view(
            "legacy_path"@,
            "/_matrix/client/r0/user/:user_id/rooms/:room_id/account_data/:event_type"@,
        ),
        entry_view(
            "stable_path"@,
            "/_matrix/client/v3/user/:user_id/rooms/:room_id/account_data/:event_type"@,
        ),
        entry_view("rate_limited"@, "false"@),
        entry_view("authentication"@, "AccessToken"@),
        entry_view("introduced"@, "1.0"@),
    ]
}

/// The fields of the request: the data as the whole body, and the three
/// path fields in the order of the path.
pub open spec fn request_items() -> Seq<RawItemView> {
    seq![
        tagged_view("body"@, "data"@, "&'a RawJsonValue"@),
        tagged_view("path"@, "user_id"@, "&'a UserId"@),
        tagged_view("path"@, "room_id"@, "&'a RoomId"@),
        tagged_view("path"@, "event_type"@, "&'a str"@),
    ]
}

/// The description of the endpoint.
pub open spec fn description_view() -> Seq<RawSectionView> {
    seq![
        RawSectionView { name: "metadata"@, items: metadata_items() },
        RawSectionView { name: "request"@, items: request_items() },
        RawSectionView { name: "response"@, items: Seq::empty() },
        RawSectionView { name: "error"@, items: seq![entry_view(""@, "crate::Error"@)] },
    ]
}

/// The description of the endpoint.
pub fn description() -> (d: RawDescription)
    ensures
        d.deep_view() == description_view(),
{
    let mut metadata: Vec<RawItem> = Vec::new();
    metadata.push(RawItem::entry("description", "Associate account data with a room."));
    metadata.push(RawItem::entry("method", "PUT"));
    metadata.push(RawItem::entry("name", "set_room_account_data"));
    metadata.push(
        RawItem::entry(
            "legacy_path",
            "/_matrix/client/r0/user/:user_id/rooms/:room_id/account_data/:event_type",
        ),
    );
    metadata.push(
        RawItem::entry(
            "stable_path",
            "/_matrix/client/v3/user/:user_id/rooms/:room_id/account_data/:event_type",
        ),
    );
    metadata.push(RawItem::entry("rate_limited", "false"));
    metadata.push(RawItem::entry("authentication", "AccessToken"));
    metadata.push(RawItem::entry("introduced", "1.0"));
    assert(metadata.deep_view() =~= metadata_items());
    let mut request: Vec<RawItem> = Vec::new();
    request.push(RawItem::tagged("body", "data", "&'a RawJsonValue"));
    request.push(RawItem::tagged("path", "user_id", "&'a UserId"));
    request.push(RawItem::tagged("path", "room_id", "&'a RoomId"));
    request.push(RawItem::tagged("path", "event_type", "&'a str"));
    assert(request.deep_view() =~= request_items());
    let response: Vec<RawItem> = Vec::new();
    assert(response.deep_view() =~= Seq::<RawItemView>::empty());
    let mut error: Vec<RawItem> = Vec::new();
    error.push(RawItem::entry("", "crate::Error"));
    assert(error.deep_view() =~= seq![entry_view(""@, "crate::Error"@)]);
    let mut sections: Vec<RawSection> = Vec::new();
    sections.push(RawSection::new("metadata", metadata));
    sections.push(RawSection::new("request", request));
    sections.push(RawSection::new("response", response));
    sections.push(RawSection::new("error", error));
    let d = RawDescription { sections };
    assert(d.deep_view() =~= description_view());
    d
}

/// The endpoint, compiled from its description.
pub fn endpoint() -> (r: Result<EndpointDefinition, CompileError>)
    ensures
        compile_read(r) == compiled(description_view()),
{
    compile(&description())
}

/// The data to store, with the user, the room and the type of the data.
#[derive(Debug)]
pub struct Request {
    /// Arbitrary JSON to store as config data.
    pub data: RawJson,
    /// The event type of the account data to set.
    pub event_type: String,
    /// The ID of the room to set account data on.
    pub room_id: String,
    /// The ID of the user to set account data for.
    pub user_id: String,
}

pub struct RequestView {
    pub data: Seq<u8>,
    pub event_type: Seq<char>,
    pub room_id: Seq<char>,
    pub user_id: Seq<char>,
}

impl DeepView for Request {
    type V = RequestView;

    open spec fn deep_view(&self) -> RequestView {
        RequestView {
            data: self.data@,
            event_type: self.event_type@,
            room_id: self.room_id@,
            user_id: self.user_id@,
        }
    }
}

/// The values of the request fields, in the order of the description.
pub open spec fn request_values(r: RequestView) -> Seq<ValueView> {
    seq![
        ValueView::Json(r.data),
        ValueView::Text(r.user_id),
        ValueView::Text(r.room_id),
        ValueView::Text(r.event_type),
    ]
}

/// The request that values of the request fields stand for, if they are
/// one JSON value and three texts.
pub open spec fn request_of(values: Seq<ValueView>) -> Option<RequestView> {
    if values.len() == 4 && values[0] is Json && values[1] is Text && values[2] is Text
        && values[3] is Text {
        Some(
            RequestView {
                data: values[0]->Json_0,
                user_id: values[1]->Text_0,
                room_id: values[2]->Text_0,
                event_type: values[3]->Text_0,
            },
        )
    } else {
        None
    }
}

/// The request that a wire request holds, read by `def`.
pub open spec fn request_from(
    def: crate::schema::EndpointView,
    prec: Precedence,
    wire: WireRequestView,
) -> Result<RequestView, DecodeErrorView> {
    match request_read(def, prec, wire) {
        Err(e) => Err(e),
        Ok(values) => match request_of(values) {
            Some(r) => Ok(r),
            None => Err(DecodeErrorView::InvalidBody),
        },
    }
}

/// What a result of decoding a request stands for.
pub open spec fn request_decoded(r: Result<Request, DecodeError>) -> Result<
    RequestView,
    DecodeErrorView,
> {
    match r {
        Ok(x) => Ok(x.deep_view()),
        Err(e) => Err(e.deep_view()),
    }
}

impl Request {
    /// Creates a new `Request` with the given data, event type, room ID and user ID.
    pub fn new(data: &RawJson, event_type: &str, room_id: &str, user_id: &str) -> (r: Request)
        ensures
            r.deep_view() == (RequestView {
                data: data@,
                event_type: event_type@,
                room_id: room_id@,
                user_id: user_id@,
            }),
    {
        Request {
            data: data.duplicate(),
            event_type: String::from_str(event_type),
            room_id: String::from_str(room_id),
            user_id: String::from_str(user_id),
        }
    }

    /// The values of the request fields, in the order of the description.
    pub fn values(&self) -> (v: Vec<FieldValue>)
        ensures
            v.deep_view() == request_values(self.deep_view()),
    {
        let mut v: Vec<FieldValue> = Vec::new();
        v.push(FieldValue::Json(self.data.duplicate()));
        v.push(FieldValue::Text(self.user_id.clone()));
        v.push(FieldValue::Text(self.room_id.clone()));
        v.push(FieldValue::Text(self.event_type.clone()));
        assert(v.deep_view() =~= request_values(self.deep_view()));
        v
    }

    /// The request that values of the request fields stand for.
    pub fn from_values(values: &Vec<FieldValue>) -> (r: Option<Request>)
        ensures
            r.deep_view() == request_of(values.deep_view()),
    {
        if values.len() != 4 {
            return None;
        }
        proof {
            assert(values.deep_view()[0] == values[0].deep_view());
            assert(values.deep_view()[1] == values[1].deep_view());
            assert(values.deep_view()[2] == values[2].deep_view());
            assert(values.deep_view()[3] == values[3].deep_view());
        }
        match (&values[0], &values[1], &values[2], &values[3]) {
            (
                FieldValue::Json(data),
                FieldValue::Text(user_id),
                FieldValue::Text(room_id),
                FieldValue::Text(event_type),
            ) => Some(
                Request {
                    data: data.duplicate(),
                    event_type: event_type.clone(),
                    room_id: room_id.clone(),
                    user_id: user_id.clone(),
                },
            ),
            _ => None,
        }
    }

    /// The request as the transport takes it, by the endpoint `def`; nothing
    /// where the fields of `def` do not take the values of this request.
    pub fn encode(&self, def: &EndpointDefinition, prec: Precedence) -> (r: Option<WireRequest>)
        ensures
            r is Some <==> fits(def.deep_view().request_fields, request_values(self.deep_view())),
            r matches Some(w) ==> w.deep_view() == wire_request(
                def.deep_view(),
                prec,
                request_values(self.deep_view()),
            ),
    {
        let values = self.values();
        if check_fits(def.request_fields(), &values) {
            Some(encode_request(def, prec, &values))
        } else {
            None
        }
    }

    /// The request that came over the wire, read by the endpoint `def`.
    pub fn decode(def: &EndpointDefinition, prec: Precedence, wire: &WireRequest) -> (r: Result<
        Request,
        DecodeError,
    >)
        ensures
            request_decoded(r) == request_from(def.deep_view(), prec, wire.deep_view()),
    {
        match decode_request(def, prec, wire) {
            Err(e) => Err(e),
            Ok(values) => match Request::from_values(&values) {
                Some(r) => Ok(r),
                None => Err(DecodeError::InvalidBody),
            },
        }
    }
}

/// The response: it has no fields.
#[derive(Clone, Copy, Debug, PartialEq, Eq, Structural)]
pub struct Response {}

impl Default for Response {
    fn default() -> (r: Response)
        ensures
            r == (Response {  }),
    {
        Response {  }
    }
}

impl Response {
    /// Creates an empty `Response`.
    pub fn new() -> (r: Response)
        ensures
            r == (Response {  }),
    {
        Response {  }
    }

    /// The values of the response fields: none.
    pub fn values(&self) -> (v: Vec<FieldValue>)
        ensures
            v.deep_view() == Seq::<ValueView>::empty(),
    {
        let v: Vec<FieldValue> = Vec::new();
        assert(v.deep_view() =~= Seq::<ValueView>::empty());
        v
    }

    /// The response as the transport takes it, by the endpoint `def`;
    /// nothing where `def` has response fields.
    pub fn encode(&self, def: &EndpointDefinition) -> (r: Option<WireResponse>)
        ensures
            r is Some <==> def.deep_view().response_fields.len() == 0,
            r matches Some(w) ==> w.deep_view() == wire_response(
                def.deep_view(),
                Seq::<ValueView>::empty(),
            ),
    {
        let values = self.values();
        if check_fits(def.response_fields(), &values) {
            Some(encode_response(def, &values))
        } else {
            None
        }
    }

    /// The response that came over the wire, read by the endpoint `def`:
    /// what `receive` gives, without the values.
    pub fn decode(def: &EndpointDefinition, wire: &WireResponse) -> (r: Result<Response, Failure>)
        ensures
            r is Ok <==> outcome(def.deep_view(), wire.deep_view()) is Ok,
            r matches Err(e) ==> outcome(def.deep_view(), wire.deep_view()) == Err::<
                Seq<ValueView>,
                FailureView,
            >(e.deep_view()),
    {
        match receive(def, wire) {
            Ok(_) => Ok(Response::new()),
            Err(e) => Err(e),
        }
    }
}

} // verus!
