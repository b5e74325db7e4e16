//! From field values to the parts of a request or response, and back.

use vstd::prelude::*;
use crate::error::{DecodeError, DecodeErrorView};
use crate::json::{Member, RawJson};
use crate::schema::{
    Block, EndpointDefinition, EndpointView, FieldDescriptor, FieldView, lemma_positions,
    lemma_rank, Location, positions, Precedence, rank, selected, Strategy, strategy_of,
};
use crate::template::{lemma_count_names, match_path, render};
use crate::value::{
    FieldValue, Pair, Payload, PayloadView, RequestParts, RequestPartsView, ResponseParts,
    ResponsePartsView, ValueView,
};

verus! {

/// The status of a response that carries the values of the response struct.
pub const STATUS_OK: u16 = 200;

/// Whether a value is of the kind that the role of a field takes.
pub open spec fn fits_one(f: FieldView, v: ValueView) -> bool {
    match f.location {
        Location::Path | Location::Header => v is Text,
        Location::Query => v is Text || (v is Absent && !f.required),
        Location::BodyMember => v is Json || (v is Absent && !f.required),
        Location::NewtypeBody => v is Json,
    }
}

/// One value for each field, each of the kind that the field takes.
pub open spec fn fits(fields: Seq<FieldView>, values: Seq<ValueView>) -> bool {
    &&& fields.len() == values.len()
    &&& forall|i: int| 0 <= i < fields.len() ==> fits_one(#[trigger] fields[i], values[i])
}

/// The text of a value; none for a value that is no text.
pub open spec fn text_of(v: ValueView) -> Seq<char> {
    match v {
        ValueView::Text(t) => t,
        _ => Seq::empty(),
    }
}

/// Values that an endpoint can carry and give back: one of the right kind for
/// each field, and no slash in the text of a path field.
pub open spec fn valid_values(fields: Seq<FieldView>, values: Seq<ValueView>) -> bool {
    &&& fits(fields, values)
    &&& forall|i: int|
        0 <= i < fields.len() && (#[trigger] fields[i]).location == Location::Path ==> !text_of(
            values[i],
        ).contains('/')
}

/// Whether `values` are values that an endpoint with these fields can carry and give back.
pub fn check_valid(fields: &Vec<FieldDescriptor>, values: &Vec<FieldValue>) -> (r: bool)
    ensures
        r == valid_values(fields.deep_view(), values.deep_view()),
{
    if !check_fits(fields, values) {
        return false;
    }
    let ghost fs = fields.deep_view();
    let ghost vs = values.deep_view();
    let mut i: usize = 0;
    while i < fields.len()
        invariant
            i <= fields.len(),
            fs == fields.deep_view(),
            vs == values.deep_view(),
            fits(fs, vs),
            forall|k: int|
                0 <= k < i && (#[trigger] fs[k]).location == Location::Path ==> !text_of(
                    vs[k],
                ).contains('/'),
        decreases fields.len() - i,
    {
        assert(fits_one(fs[i as int], vs[i as int]));
        if fields[i].location == Location::Path {
            match &values[i] {
                FieldValue::Text(t) => {
                    if crate::text::has_char(t.as_str(), '/') {
                        return false;
                    }
                },
                _ => {},
            }
        }
        i += 1;
    }
    true
}

/// The texts of the path fields among the first `n`, in declaration order.
pub open spec fn path_texts(fields: Seq<FieldView>, values: Seq<ValueView>, n: int) -> Seq<
    Seq<char>,
>
    decreases n,
{
    if n <= 0 {
        Seq::empty()
    } else if fields[n - 1].location == Location::Path {
        path_texts(fields, values, n - 1).push(text_of(values[n - 1]))
    } else {
        path_texts(fields, values, n - 1)
    }
}

/// A pair for each field with role `loc` among the first `n` that holds a
/// text, under the name of the field, in declaration order.
pub open spec fn pairs_at(
    fields: Seq<FieldView>,
    values: Seq<ValueView>,
    loc: Location,
    n: int,
) -> Seq<(Seq<char>, Seq<char>)>
    decreases n,
{
    if n <= 0 {
        Seq::empty()
    } else {
        let init = pairs_at(fields, values, loc, n - 1);
        match values[n - 1] {
            ValueView::Text(t) => if fields[n - 1].location == loc {
                init.push((fields[n - 1].name, t))
            } else {
                init
            },
            _ => init,
        }
    }
}

/// A member for each member field among the first `n` that holds a JSON
/// value, under the name of the field, in declaration order. A field that
/// holds no value gives no member.
pub open spec fn members_at(fields: Seq<FieldView>, values: Seq<ValueView>, n: int) -> Seq<
    (Seq<char>, Seq<u8>),
>
    decreases n,
{
    if n <= 0 {
        Seq::empty()
    } else {
        let init = members_at(fields, values, n - 1);
        match values[n - 1] {
            ValueView::Json(j) => if fields[n - 1].location == Location::BodyMember {
                init.push((fields[n - 1].name, j))
            } else {
                init
            },
            _ => init,
        }
    }
}

/// The bytes of a value; none for a value that is no JSON value.
pub open spec fn json_of(v: ValueView) -> Seq<u8> {
    match v {
        ValueView::Json(j) => j,
        _ => Seq::empty(),
    }
}

/// The body of a struct, in parts: the value of the whole-body field, or the
/// object of the member fields, or nothing.
pub open spec fn payload_of(fields: Seq<FieldView>, values: Seq<ValueView>, block: Block)
    -> PayloadView {
    match strategy_of(fields, block) {
        Strategy::Newtype(i) => PayloadView::Value(json_of(values[i])),
        Strategy::Empty => PayloadView::Empty,
        Strategy::Object => PayloadView::Object(members_at(fields, values, fields.len() as int)),
    }
}

/// The parts of the request that an endpoint makes of the values of its request fields.
pub open spec fn request_parts(ep: EndpointView, prec: Precedence, values: Seq<ValueView>)
    -> RequestPartsView {
    let fields = ep.request_fields;
    let n = fields.len() as int;
    RequestPartsView {
        method: ep.metadata.method,
        path: render(selected(ep, prec)->0, path_texts(fields, values, n)),
        query: pairs_at(fields, values, Location::Query, n),
        headers: pairs_at(fields, values, Location::Header, n),
        payload: payload_of(fields, values, Block::Request),
    }
}

/// The parts of the response that an endpoint makes of the values of its response fields.
pub open spec fn response_parts(ep: EndpointView, values: Seq<ValueView>) -> ResponsePartsView {
    let fields = ep.response_fields;
    let n = fields.len() as int;
    ResponsePartsView {
        status: STATUS_OK,
        headers: pairs_at(fields, values, Location::Header, n),
        payload: payload_of(fields, values, Block::Response),
    }
}

/// There is one path text for each path field.
pub proof fn lemma_path_texts_len(fields: Seq<FieldView>, values: Seq<ValueView>, n: int)
    requires
        0 <= n <= fields.len(),
    ensures
        path_texts(fields, values, n).len() == rank(fields, Location::Path, n),
    decreases n,
{
    if n > 0 {
        lemma_path_texts_len(fields, values, n - 1);
    }
}

/// Whether `values` holds one value for each field, each of the kind that the field takes.
pub fn check_fits(fields: &Vec<FieldDescriptor>, values: &Vec<FieldValue>) -> (r: bool)
    ensures
        r == fits(fields.deep_view(), values.deep_view()),
{
    if fields.len() != values.len() {
        return false;
    }
    let mut i: usize = 0;
    while i < fields.len()
        invariant
            i <= fields.len(),
            fields.len() == values.len(),
            forall|k: int|
                0 <= k < i ==> fits_one(
                    #[trigger] fields.deep_view()[k],
                    values.deep_view()[k],
                ),
        decreases fields.len() - i,
    {
        let f = &fields[i];
        let ok = match f.location {
            Location::Path | Location::Header => match &values[i] {
                FieldValue::Text(_) => true,
                _ => false,
            },
            Location::Query => match &values[i] {
                FieldValue::Text(_) => true,
                FieldValue::Absent => !f.required,
                _ => false,
            },
            Location::BodyMember => match &values[i] {
                FieldValue::Json(_) => true,
                FieldValue::Absent => !f.required,
                _ => false,
            },
            Location::NewtypeBody => match &values[i] {
                FieldValue::Json(_) => true,
                _ => false,
            },
        };
        assert(ok == fits_one(fields.deep_view()[i as int], values.deep_view()[i as int]));
        if !ok {
            return false;
        }
        i += 1;
    }
    true
}

/// The texts of the path fields, in declaration order.
fn collect_path(fields: &Vec<FieldDescriptor>, values: &Vec<FieldValue>) -> (r: Vec<String>)
    requires
        fits(fields.deep_view(), values.deep_view()),
    ensures
        r.deep_view() == path_texts(fields.deep_view(), values.deep_view(), fields.len() as int),
{
    let ghost fs = fields.deep_view();
    let ghost vs = values.deep_view();
    let mut r: Vec<String> = Vec::new();
    let mut i: usize = 0;
    while i < fields.len()
        invariant
            i <= fields.len(),
            fs == fields.deep_view(),
            vs == values.deep_view(),
            fits(fs, vs),
            r.deep_view() == path_texts(fs, vs, i as int),
        decreases fields.len() - i,
    {
        let ghost before = r.deep_view();
        assert(fits_one(fs[i as int], vs[i as int]));
        if fields[i].location == Location::Path {
            match &values[i] {
                FieldValue::Text(t) => {
                    r.push(t.clone());
                    assert(r.deep_view() == before.push(t@));
                },
                _ => {},
            }
        }
        i += 1;
    }
    r
}

/// A pair for each field with role `loc` that holds a text.
fn collect_pairs(fields: &Vec<FieldDescriptor>, values: &Vec<FieldValue>, loc: Location) -> (r:
    Vec<Pair>)
    requires
        fields.len() == values.len(),
    ensures
        r.deep_view() == pairs_at(
            fields.deep_view(),
            values.deep_view(),
            loc,
            fields.len() as int,
        ),
{
    let ghost fs = fields.deep_view();
    let ghost vs = values.deep_view();
    let mut r: Vec<Pair> = Vec::new();
    let mut i: usize = 0;
    while i < fields.len()
        invariant
            i <= fields.len(),
            fields.len() == values.len(),
            fs == fields.deep_view(),
            vs == values.deep_view(),
            r.deep_view() == pairs_at(fs, vs, loc, i as int),
        decreases fields.len() - i,
    {
        let ghost before = r.deep_view();
        match &values[i] {
            FieldValue::Text(t) => {
                if fields[i].location == loc {
                    let p = Pair { name: fields[i].name.clone(), value: t.clone() };
                    r.push(p);
                    assert(r.deep_view() == before.push((fields[i as int].name@, t@)));
                }
            },
            _ => {},
        }
        i += 1;
    }
    r
}

/// A member for each member field that holds a JSON value.
fn collect_members(fields: &Vec<FieldDescriptor>, values: &Vec<FieldValue>) -> (r: Vec<Member>)
    requires
        fields.len() == values.len(),
    ensures
        r.deep_view() == members_at(fields.deep_view(), values.deep_view(), fields.len() as int),
{
    let ghost fs = fields.deep_view();
    let ghost vs = values.deep_view();
    let mut r: Vec<Member> = Vec::new();
    let mut i: usize = 0;
    while i < fields.len()
        invariant
            i <= fields.len(),
            fields.len() == values.len(),
            fs == fields.deep_view(),
            vs == values.deep_view(),
            r.deep_view() == members_at(fs, vs, i as int),
        decreases fields.len() - i,
    {
        let ghost before = r.deep_view();
        match &values[i] {
            FieldValue::Json(j) => {
                if fields[i].location == Location::BodyMember {
                    let m = Member { key: fields[i].name.clone(), value: j.duplicate() };
                    r.push(m);
                    assert(r.deep_view() == before.push((fields[i as int].name@, j@)));
                }
            },
            _ => {},
        }
        i += 1;
    }
    r
}

/// The index of the first field with role `loc`, if there is one.
fn first_at(fields: &Vec<FieldDescriptor>, loc: Location) -> (r: Option<usize>)
    ensures
        match r {
            Some(i) => positions(fields.deep_view(), loc).len() > 0 && positions(
                fields.deep_view(),
                loc,
            )[0] == i && i < fields.len(),
            None => positions(fields.deep_view(), loc).len() == 0,
        },
{
    let ps = crate::classify::positions_of(fields, loc);
    proof {
        lemma_positions(fields.deep_view(), loc);
    }
    if ps.len() > 0 {
        Some(ps[0])
    } else {
        None
    }
}

/// The body of a struct, in parts.
fn collect_payload(fields: &Vec<FieldDescriptor>, values: &Vec<FieldValue>, block: Block) -> (r:
    Payload)
    requires
        fits(fields.deep_view(), values.deep_view()),
    ensures
        r.deep_view() == payload_of(fields.deep_view(), values.deep_view(), block),
{
    match first_at(fields, Location::NewtypeBody) {
        Some(i) => {
            proof {
                lemma_positions(fields.deep_view(), Location::NewtypeBody);
                assert(fits_one(fields.deep_view()[i as int], values.deep_view()[i as int]));
            }
            match &values[i] {
                FieldValue::Json(j) => Payload::Value(j.duplicate()),
                _ => {
                    proof {
                        assert(false);
                    }
                    Payload::Empty
                },
            }
        },
        None => {
            let no_member = match first_at(fields, Location::BodyMember) {
                Some(_) => false,
                None => true,
            };
            if block == Block::Request && no_member {
                Payload::Empty
            } else {
                Payload::Object(collect_members(fields, values))
            }
        },
    }
}

/// The parts of a request: the path of the template that `prec` selects
/// with the path fields in the places of its variables, the query pairs and
/// the headers of the fields that hold a text, and the body in parts.
pub fn encode_request_parts(
    def: &EndpointDefinition,
    prec: Precedence,
    values: &Vec<FieldValue>,
) -> (parts: RequestParts)
    requires
        fits(def.deep_view().request_fields, values.deep_view()),
    ensures
        parts.deep_view() == request_parts(def.deep_view(), prec, values.deep_view()),
{
    let fields = def.request_fields();
    let template = def.template(prec);
    let texts = collect_path(fields, values);
    proof {
        let fs = fields.deep_view();
        let n = fs.len() as int;
        lemma_path_texts_len(fs, values.deep_view(), n);
        lemma_rank(fs, Location::Path, n);
        assert(fs.take(n) == fs);
        lemma_count_names(template.deep_view());
    }
    let path = template.render(&texts);
    RequestParts {
        method: def.metadata().method,
        path,
        query: collect_pairs(fields, values, Location::Query),
        headers: collect_pairs(fields, values, Location::Header),
        payload: collect_payload(fields, values, Block::Request),
    }
}

/// The parts of a response: the headers of the fields that hold a text, and the body in parts.
pub fn encode_response_parts(def: &EndpointDefinition, values: &Vec<FieldValue>) -> (parts:
    ResponseParts)
    requires
        fits(def.deep_view().response_fields, values.deep_view()),
    ensures
        parts.deep_view() == response_parts(def.deep_view(), values.deep_view()),
{
    let fields = def.response_fields();
    ResponseParts {
        status: STATUS_OK,
        headers: collect_pairs(fields, values, Location::Header),
        payload: collect_payload(fields, values, Block::Response),
    }
}

/// The value of the last pair with this name, if there is one.
pub open spec fn lookup<V>(pairs: Seq<(Seq<char>, V)>, name: Seq<char>) -> Option<V>
    decreases pairs.len(),
{
    if pairs.len() == 0 {
        None
    } else if pairs.last().0 == name {
        Some(pairs.last().1)
    } else {
        lookup(pairs.drop_last(), name)
    }
}

/// In two runs of pairs, one behind the other, a name is found in the
/// second, or else in the first.
pub proof fn lemma_lookup_concat<V>(a: Seq<(Seq<char>, V)>, b: Seq<(Seq<char>, V)>, key: Seq<char>)
    ensures
        lookup(a + b, key) == match lookup(b, key) {
            Some(x) => Some(x),
            None => lookup(a, key),
        },
    decreases b.len(),
{
    if b.len() == 0 {
        assert(a + b =~= a);
    } else {
        assert((a + b).last() == b.last());
        assert((a + b).drop_last() =~= a + b.drop_last());
        lemma_lookup_concat(a, b.drop_last(), key);
    }
}

/// A name that no pair has is not found.
pub proof fn lemma_lookup_none<V>(ms: Seq<(Seq<char>, V)>, key: Seq<char>)
    requires
        forall|k: int| 0 <= k < ms.len() ==> (#[trigger] ms[k]).0 != key,
    ensures
        lookup(ms, key) is None,
    decreases ms.len(),
{
    if ms.len() > 0 {
        assert(ms[ms.len() - 1].0 != key);
        assert forall|k: int| 0 <= k < ms.drop_last().len() implies (#[trigger] ms.drop_last()[k]).0
            != key by {
            assert(ms.drop_last()[k] == ms[k]);
        }
        lemma_lookup_none(ms.drop_last(), key);
    }
}

/// Whether two runs of pairs give the same for every name.
pub open spec fn same_lookups<V>(a: Seq<(Seq<char>, V)>, b: Seq<(Seq<char>, V)>) -> bool {
    forall|name: Seq<char>| #[trigger] lookup(a, name) == lookup(b, name)
}

/// Whether two bodies in parts are the same to a decoder: both absent, the
/// same value, or objects that give the same member for every name.
pub open spec fn same_payload(p: PayloadView, q: PayloadView) -> bool {
    match (p, q) {
        (PayloadView::Empty, PayloadView::Empty) => true,
        (PayloadView::Value(a), PayloadView::Value(b)) => a == b,
        (PayloadView::Object(a), PayloadView::Object(b)) => same_lookups(a, b),
        _ => false,
    }
}

/// The members of a body that is an object; none for another body.
pub open spec fn members_in(payload: PayloadView) -> Seq<(Seq<char>, Seq<u8>)> {
    match payload {
        PayloadView::Object(ms) => ms,
        _ => Seq::empty(),
    }
}

/// The value of one field, from the parts that came over the wire. A path
/// field takes the captured text at `k`. A query pair, a header and a
/// member are found by the name of the field; where none is found, a
/// required field is missing and another holds no value. A whole-body field
/// takes the body.
pub open spec fn decode_one(
    f: FieldView,
    k: int,
    captured: Seq<Seq<char>>,
    query: Seq<(Seq<char>, Seq<char>)>,
    headers: Seq<(Seq<char>, Seq<char>)>,
    payload: PayloadView,
) -> Result<ValueView, DecodeErrorView> {
    match f.location {
        Location::Path => Ok(ValueView::Text(captured[k])),
        Location::Query => match lookup(query, f.name) {
            Some(t) => Ok(ValueView::Text(t)),
            None => if f.required {
                Err(DecodeErrorView::MissingQuery(f.name))
            } else {
                Ok(ValueView::Absent)
            },
        },
        Location::Header => match lookup(headers, f.name) {
            Some(t) => Ok(ValueView::Text(t)),
            None => if f.required {
                Err(DecodeErrorView::MissingHeader(f.name))
            } else {
                Ok(ValueView::Absent)
            },
        },
        Location::BodyMember => match lookup(members_in(payload), f.name) {
            Some(j) => Ok(ValueView::Json(j)),
            None => if f.required {
                Err(DecodeErrorView::MissingMember(f.name))
            } else {
                Ok(ValueView::Absent)
            },
        },
        Location::NewtypeBody => match payload {
            PayloadView::Value(j) => Ok(ValueView::Json(j)),
            _ => Err(DecodeErrorView::InvalidBody),
        },
    }
}

/// The values of the first `n` fields, or the error of the first field, in
/// declaration order, that has none.
pub open spec fn decode_fields(
    fields: Seq<FieldView>,
    captured: Seq<Seq<char>>,
    query: Seq<(Seq<char>, Seq<char>)>,
    headers: Seq<(Seq<char>, Seq<char>)>,
    payload: PayloadView,
    n: int,
) -> Result<Seq<ValueView>, DecodeErrorView>
    decreases n,
{
    if n <= 0 {
        Ok(Seq::empty())
    } else {
        match decode_fields(fields, captured, query, headers, payload, n - 1) {
            Err(e) => Err(e),
            Ok(vs) => match decode_one(
                fields[n - 1],
                rank(fields, Location::Path, n - 1) as int,
                captured,
                query,
                headers,
                payload,
            ) {
                Err(e) => Err(e),
                Ok(v) => Ok(vs.push(v)),
            },
        }
    }
}

/// Whether a body in parts is of the kind that the strategy asks for. Where
/// the struct has no body, whatever came is passed over.
pub open spec fn payload_fits(strategy: Strategy, payload: PayloadView) -> bool {
    match strategy {
        Strategy::Newtype(_) => payload is Value,
        Strategy::Object => payload is Object,
        Strategy::Empty => true,
    }
}

/// The values of the request fields that a path, query pairs, headers and
/// a body in parts hold: the path has to have the shape of the template that
/// `prec` selects, the body has to be of the kind of the struct, and every
/// required field has to be there.
pub open spec fn request_values_of(
    ep: EndpointView,
    prec: Precedence,
    path: Seq<char>,
    query: Seq<(Seq<char>, Seq<char>)>,
    headers: Seq<(Seq<char>, Seq<char>)>,
    payload: PayloadView,
) -> Result<Seq<ValueView>, DecodeErrorView> {
    let fields = ep.request_fields;
    match match_path(selected(ep, prec)->0, path) {
        None => Err(DecodeErrorView::PathMismatch),
        Some(captured) => if !payload_fits(strategy_of(fields, Block::Request), payload) {
            Err(DecodeErrorView::InvalidBody)
        } else {
            decode_fields(fields, captured, query, headers, payload, fields.len() as int)
        },
    }
}

/// The values of the request fields that the parts of a request hold.
pub open spec fn request_values(ep: EndpointView, prec: Precedence, parts: RequestPartsView)
    -> Result<Seq<ValueView>, DecodeErrorView> {
    request_values_of(ep, prec, parts.path, parts.query, parts.headers, parts.payload)
}

/// The values of the response fields that headers and a body in parts hold.
pub open spec fn response_values_of(
    ep: EndpointView,
    headers: Seq<(Seq<char>, Seq<char>)>,
    payload: PayloadView,
) -> Result<Seq<ValueView>, DecodeErrorView> {
    let fields = ep.response_fields;
    if !payload_fits(strategy_of(fields, Block::Response), payload) {
        Err(DecodeErrorView::InvalidBody)
    } else {
        decode_fields(
            fields,
            Seq::empty(),
            Seq::empty(),
            headers,
            payload,
            fields.len() as int,
        )
    }
}

/// The values of the response fields that the parts of a response hold.
pub open spec fn response_values(ep: EndpointView, parts: ResponsePartsView) -> Result<
    Seq<ValueView>,
    DecodeErrorView,
> {
    response_values_of(ep, parts.headers, parts.payload)
}

/// What a result of decoding stands for.
pub open spec fn decoded(r: Result<Vec<FieldValue>, DecodeError>) -> Result<
    Seq<ValueView>,
    DecodeErrorView,
> {
    match r {
        Ok(vs) => Ok(vs.deep_view()),
        Err(e) => Err(e.deep_view()),
    }
}

/// The text of the last pair with this name.
pub fn find_pair(pairs: &Vec<Pair>, name: &str) -> (r: Option<String>)
    ensures
        r.deep_view() == lookup(pairs.deep_view(), name@),
{
    let ghost ps = pairs.deep_view();
    let mut i: usize = pairs.len();
    assert(ps.take(i as int) == ps);
    while i > 0
        invariant
            i <= pairs.len(),
            ps == pairs.deep_view(),
            lookup(ps, name@) == lookup(ps.take(i as int), name@),
        decreases i,
    {
        proof {
            assert(ps.take(i as int).drop_last() == ps.take(i - 1));
            assert(ps.take(i as int).last() == ps[i - 1]);
        }
        i -= 1;
        if crate::text::same_text(pairs[i].name.as_str(), name) {
            return Some(pairs[i].value.clone());
        }
    }
    assert(ps.take(0).len() == 0);
    None
}

/// The value of the last member with this key.
pub fn find_member(members: &Vec<Member>, key: &str) -> (r: Option<RawJson>)
    ensures
        r.deep_view() == lookup(members.deep_view(), key@),
{
    let ghost ms = members.deep_view();
    let mut i: usize = members.len();
    assert(ms.take(i as int) == ms);
    while i > 0
        invariant
            i <= members.len(),
            ms == members.deep_view(),
            lookup(ms, key@) == lookup(ms.take(i as int), key@),
        decreases i,
    {
        proof {
            assert(ms.take(i as int).drop_last() == ms.take(i - 1));
            assert(ms.take(i as int).last() == ms[i - 1]);
        }
        i -= 1;
        if crate::text::same_text(members[i].key.as_str(), key) {
            return Some(members[i].value.duplicate());
        }
    }
    assert(ms.take(0).len() == 0);
    None
}

/// The value of one field.
fn value_of(
    f: &FieldDescriptor,
    k: usize,
    captured: &Vec<String>,
    query: &Vec<Pair>,
    headers: &Vec<Pair>,
    payload: &Payload,
) -> (r: Result<FieldValue, DecodeError>)
    requires
        f.location == Location::Path ==> k < captured.len(),
    ensures
        match r {
            Ok(v) => decode_one(
                f.deep_view(),
                k as int,
                captured.deep_view(),
                query.deep_view(),
                headers.deep_view(),
                payload.deep_view(),
            ) == Ok::<ValueView, DecodeErrorView>(v.deep_view()),
            Err(e) => decode_one(
                f.deep_view(),
                k as int,
                captured.deep_view(),
                query.deep_view(),
                headers.deep_view(),
                payload.deep_view(),
            ) == Err::<ValueView, DecodeErrorView>(e.deep_view()),
        },
{
    match f.location {
        Location::Path => Ok(FieldValue::Text(captured[k].clone())),
        Location::Query => match find_pair(query, f.name.as_str()) {
            Some(t) => Ok(FieldValue::Text(t)),
            None => if f.required {
                Err(DecodeError::MissingQuery(f.name.clone()))
            } else {
                Ok(FieldValue::Absent)
            },
        },
        Location::Header => match find_pair(headers, f.name.as_str()) {
            Some(t) => Ok(FieldValue::Text(t)),
            None => if f.required {
                Err(DecodeError::MissingHeader(f.name.clone()))
            } else {
                Ok(FieldValue::Absent)
            },
        },
        Location::BodyMember => {
            let found = match payload {
                Payload::Object(ms) => find_member(ms, f.name.as_str()),
                _ => None,
            };
            match found {
                Some(j) => Ok(FieldValue::Json(j)),
                None => if f.required {
                    Err(DecodeError::MissingMember(f.name.clone()))
                } else {
                    Ok(FieldValue::Absent)
                },
            }
        },
        Location::NewtypeBody => match payload {
            Payload::Value(j) => Ok(FieldValue::Json(j.duplicate())),
            _ => Err(DecodeError::InvalidBody),
        },
    }
}

/// The values of all fields, or the error of the first that has none.
fn values_of(
    fields: &Vec<FieldDescriptor>,
    captured: &Vec<String>,
    query: &Vec<Pair>,
    headers: &Vec<Pair>,
    payload: &Payload,
) -> (r: Result<Vec<FieldValue>, DecodeError>)
    requires
        rank(fields.deep_view(), Location::Path, fields.len() as int) <= captured.len(),
    ensures
        decoded(r) == decode_fields(
            fields.deep_view(),
            captured.deep_view(),
            query.deep_view(),
            headers.deep_view(),
            payload.deep_view(),
            fields.len() as int,
        ),
{
    let ghost fs = fields.deep_view();
    let ghost cs = captured.deep_view();
    let ghost qs = query.deep_view();
    let ghost hs = headers.deep_view();
    let ghost pv = payload.deep_view();
    let mut values: Vec<FieldValue> = Vec::new();
    let mut k: usize = 0;
    let mut i: usize = 0;
    assert(values.deep_view() == Seq::<ValueView>::empty());
    while i < fields.len()
        invariant
            i <= fields.len(),
            fs == fields.deep_view(),
            cs == captured.deep_view(),
            qs == query.deep_view(),
            hs == headers.deep_view(),
            pv == payload.deep_view(),
            k == rank(fs, Location::Path, i as int),
            rank(fs, Location::Path, fields.len() as int) <= captured.len(),
            decode_fields(fs, cs, qs, hs, pv, i as int) == Ok::<
                Seq<ValueView>,
                DecodeErrorView,
            >(values.deep_view()),
        decreases fields.len() - i,
    {
        let ghost before = values.deep_view();
        proof {
            lemma_rank_monotone(fs, Location::Path, i + 1, fields.len() as int);
        }
        match value_of(&fields[i], k, captured, query, headers, payload) {
            Err(e) => {
                proof {
                    lemma_decode_fails(fs, cs, qs, hs, pv, i + 1, fields.len() as int);
                }
                return Err(e);
            },
            Ok(v) => {
                let ghost view = v.deep_view();
                values.push(v);
                assert(values.deep_view() == before.push(view));
            },
        }
        if fields[i].location == Location::Path {
            k += 1;
        }
        i += 1;
    }
    Ok(values)
}

/// Among more fields there are no fewer of a role.
pub proof fn lemma_rank_monotone(fields: Seq<FieldView>, loc: Location, n: int, m: int)
    requires
        n <= m,
    ensures
        rank(fields, loc, n) <= rank(fields, loc, m),
    decreases m - n,
{
    if n < m {
        lemma_rank_monotone(fields, loc, n, m - 1);
    }
}

/// Where the first `n` fields give an error, the first `m` give the same one.
pub proof fn lemma_decode_fails(
    fields: Seq<FieldView>,
    captured: Seq<Seq<char>>,
    query: Seq<(Seq<char>, Seq<char>)>,
    headers: Seq<(Seq<char>, Seq<char>)>,
    payload: PayloadView,
    n: int,
    m: int,
)
    requires
        n <= m,
        decode_fields(fields, captured, query, headers, payload, n) is Err,
    ensures
        decode_fields(fields, captured, query, headers, payload, m) == decode_fields(
            fields,
            captured,
            query,
            headers,
            payload,
            n,
        ),
    decreases m - n,
{
    if n < m {
        lemma_decode_fails(fields, captured, query, headers, payload, n, m - 1);
    }
}

/// Bodies that are the same to a decoder give the same values.
pub proof fn lemma_same_payload(
    fields: Seq<FieldView>,
    captured: Seq<Seq<char>>,
    query: Seq<(Seq<char>, Seq<char>)>,
    headers: Seq<(Seq<char>, Seq<char>)>,
    p: PayloadView,
    q: PayloadView,
    n: int,
)
    requires
        same_payload(p, q),
    ensures
        decode_fields(fields, captured, query, headers, p, n) == decode_fields(
            fields,
            captured,
            query,
            headers,
            q,
            n,
        ),
    decreases n,
{
    if n > 0 {
        lemma_same_payload(fields, captured, query, headers, p, q, n - 1);
        let f = fields[n - 1];
        assert(lookup(members_in(p), f.name) == lookup(members_in(q), f.name)) by {
            match (p, q) {
                (PayloadView::Object(a), PayloadView::Object(b)) => {
                    assert(lookup(a, f.name) == lookup(b, f.name));
                },
                _ => {},
            }
        }
    }
}

/// Whether a body in parts is of the kind that the struct asks for.
fn check_payload(fields: &Vec<FieldDescriptor>, block: Block, payload: &Payload) -> (r: bool)
    ensures
        r == payload_fits(strategy_of(fields.deep_view(), block), payload.deep_view()),
{
    match first_at(fields, Location::NewtypeBody) {
        Some(_) => match payload {
            Payload::Value(_) => true,
            _ => false,
        },
        None => {
            let no_member = match first_at(fields, Location::BodyMember) {
                Some(_) => false,
                None => true,
            };
            if block == Block::Request && no_member {
                true
            } else {
                match payload {
                    Payload::Object(_) => true,
                    _ => false,
                }
            }
        },
    }
}

/// The values of the request fields, from a path, query pairs, headers and a body in parts.
pub fn decode_request_from(
    def: &EndpointDefinition,
    prec: Precedence,
    path: &str,
    query: &Vec<Pair>,
    headers: &Vec<Pair>,
    payload: &Payload,
) -> (r: Result<Vec<FieldValue>, DecodeError>)
    ensures
        decoded(r) == request_values_of(
            def.deep_view(),
            prec,
            path@,
            query.deep_view(),
            headers.deep_view(),
            payload.deep_view(),
        ),
{
    let fields = def.request_fields();
    let template = def.template(prec);
    match template.capture(path) {
        None => Err(DecodeError::PathMismatch),
        Some(captured) => {
            if !check_payload(fields, Block::Request, payload) {
                return Err(DecodeError::InvalidBody);
            }
            proof {
                let fs = fields.deep_view();
                let n = fs.len() as int;
                crate::template::lemma_capture_len(
                    template.deep_view(),
                    crate::template::split(path@),
                );
                lemma_count_names(template.deep_view());
                lemma_rank(fs, Location::Path, n);
                assert(fs.take(n) == fs);
            }
            values_of(fields, &captured, query, headers, payload)
        },
    }
}

/// The values of the request fields, from the parts of a request.
pub fn decode_request_parts(def: &EndpointDefinition, prec: Precedence, parts: &RequestParts) -> (r:
    Result<Vec<FieldValue>, DecodeError>)
    ensures
        decoded(r) == request_values(def.deep_view(), prec, parts.deep_view()),
{
    decode_request_from(
        def,
        prec,
        parts.path.as_str(),
        &parts.query,
        &parts.headers,
        &parts.payload,
    )
}

/// The values of the response fields, from headers and a body in parts.
pub fn decode_response_from(def: &EndpointDefinition, headers: &Vec<Pair>, payload: &Payload) -> (r:
    Result<Vec<FieldValue>, DecodeError>)
    ensures
        decoded(r) == response_values_of(def.deep_view(), headers.deep_view(), payload.deep_view()),
{
    let fields = def.response_fields();
    if !check_payload(fields, Block::Response, payload) {
        return Err(DecodeError::InvalidBody);
    }
    let _ = def.is_well_formed();
    let none: Vec<String> = Vec::new();
    let no_query: Vec<Pair> = Vec::new();
    assert(none.deep_view() == Seq::<Seq<char>>::empty());
    assert(no_query.deep_view() == Seq::<(Seq<char>, Seq<char>)>::empty());
    values_of(fields, &none, &no_query, headers, payload)
}

/// The values of the response fields, from the parts of a response.
pub fn decode_response_parts(def: &EndpointDefinition, parts: &ResponseParts) -> (r: Result<
    Vec<FieldValue>,
    DecodeError,
>)
    ensures
        decoded(r) == response_values(def.deep_view(), parts.deep_view()),
{
    decode_response_from(def, &parts.headers, &parts.payload)
}

/// The kind of body that a struct has.
pub enum BodyKind {
    Empty,
    Whole,
    Object,
}

/// The kind of a body strategy.
pub open spec fn kind_of(strategy: Strategy) -> BodyKind {
    match strategy {
        Strategy::Empty => BodyKind::Empty,
        Strategy::Newtype(_) => BodyKind::Whole,
        Strategy::Object => BodyKind::Object,
    }
}

/// The kind of body that the fields of a struct ask for.
pub fn body_kind(fields: &Vec<FieldDescriptor>, block: Block) -> (k: BodyKind)
    ensures
        k == kind_of(strategy_of(fields.deep_view(), block)),
{
    match first_at(fields, Location::NewtypeBody) {
        Some(_) => BodyKind::Whole,
        None => {
            let no_member = match first_at(fields, Location::BodyMember) {
                Some(_) => false,
                None => true,
            };
            if block == Block::Request && no_member {
                BodyKind::Empty
            } else {
                BodyKind::Object
            }
        },
    }
}

} // verus!
