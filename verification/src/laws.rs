//! What holds of encoding and decoding together.

use vstd::prelude::*;
use crate::error::DecodeErrorView;
use crate::json::{json_object_bytes, json_object_members, json_valid};
use crate::marshal::{
    lemma_same_payload, same_lookups,
    BodyKind, decode_fields, decode_one, fits, fits_one, kind_of, lemma_path_texts_len, lookup,
    members_at, pairs_at, path_texts, payload_of, request_parts, request_values, response_parts,
    response_values, text_of, valid_values,
};
use crate::schema::{
    Block, distinct_names, EndpointView, FieldView, lemma_positions, lemma_rank, Location,
    positions, Precedence, rank, selected, strategy_of, struct_rules, well_formed,
};
use crate::template::{
    match_path,
    all_clean, clean_template, lemma_count_names, lemma_match_render, lemma_template_clean,
};
use crate::value::{PayloadView, ValueView};
use crate::wire::{
    body_of, body_returns, payload_from, request_read, response_read, wire_request, wire_response,
};

verus! {

proof fn lemma_pairs_none(
    fields: Seq<FieldView>,
    values: Seq<ValueView>,
    loc: Location,
    n: int,
    name: Seq<char>,
)
    requires
        0 <= n <= fields.len(),
        forall|j: int| 0 <= j < n ==> (#[trigger] fields[j]).name != name,
    ensures
        lookup(pairs_at(fields, values, loc, n), name) is None,
    decreases n,
{
    if n > 0 {
        lemma_pairs_none(fields, values, loc, n - 1, name);
        let init = pairs_at(fields, values, loc, n - 1);
        let all = pairs_at(fields, values, loc, n);
        if all != init {
            assert(all.last().0 == fields[n - 1].name);
            assert(all.drop_last() == init);
        }
    }
}

proof fn lemma_pairs_found(
    fields: Seq<FieldView>,
    values: Seq<ValueView>,
    loc: Location,
    n: int,
    i: int,
)
    requires
        0 <= i < n <= fields.len(),
        distinct_names(fields),
        fields[i].location == loc,
    ensures
        lookup(pairs_at(fields, values, loc, n), fields[i].name) == match values[i] {
            ValueView::Text(t) => Some(t),
            _ => None::<Seq<char>>,
        },
    decreases n,
{
    let init = pairs_at(fields, values, loc, n - 1);
    let all = pairs_at(fields, values, loc, n);
    if n - 1 == i {
        if all != init {
            assert(all.last().0 == fields[i].name);
        } else {
            lemma_pairs_none(fields, values, loc, n - 1, fields[i].name);
        }
    } else {
        lemma_pairs_found(fields, values, loc, n - 1, i);
        if all != init {
            assert(all.last().0 == fields[n - 1].name);
            assert(fields[i].name != fields[n - 1].name);
            assert(all.drop_last() == init);
        }
    }
}

proof fn lemma_members_none(
    fields: Seq<FieldView>,
    values: Seq<ValueView>,
    n: int,
    name: Seq<char>,
)
    requires
        0 <= n <= fields.len(),
        forall|j: int| 0 <= j < n ==> (#[trigger] fields[j]).name != name,
    ensures
        lookup(members_at(fields, values, n), name) is None,
    decreases n,
{
    if n > 0 {
        lemma_members_none(fields, values, n - 1, name);
        let init = members_at(fields, values, n - 1);
        let all = members_at(fields, values, n);
        if all != init {
            assert(all.last().0 == fields[n - 1].name);
            assert(all.drop_last() == init);
        }
    }
}

proof fn lemma_members_found(fields: Seq<FieldView>, values: Seq<ValueView>, n: int, i: int)
    requires
        0 <= i < n <= fields.len(),
        distinct_names(fields),
        fields[i].location == Location::BodyMember,
    ensures
        lookup(members_at(fields, values, n), fields[i].name) == match values[i] {
            ValueView::Json(j) => Some(j),
            _ => None::<Seq<u8>>,
        },
    decreases n,
{
    let init = members_at(fields, values, n - 1);
    let all = members_at(fields, values, n);
    if n - 1 == i {
        if all != init {
            assert(all.last().0 == fields[i].name);
        } else {
            lemma_members_none(fields, values, n - 1, fields[i].name);
        }
    } else {
        lemma_members_found(fields, values, n - 1, i);
        if all != init {
            assert(all.last().0 == fields[n - 1].name);
            assert(fields[i].name != fields[n - 1].name);
            assert(all.drop_last() == init);
        }
    }
}

/// The texts of the first path fields stay where they are when more fields follow.
proof fn lemma_path_texts_prefix(fields: Seq<FieldView>, values: Seq<ValueView>, m: int, n: int)
    requires
        0 <= m <= n <= fields.len(),
    ensures
        path_texts(fields, values, m).len() <= path_texts(fields, values, n).len(),
        forall|k: int|
            0 <= k < path_texts(fields, values, m).len() ==> path_texts(fields, values, n)[k]
                == path_texts(fields, values, m)[k],
    decreases n - m,
{
    if m < n {
        lemma_path_texts_prefix(fields, values, m, n - 1);
    }
}

proof fn lemma_path_texts_clean(fields: Seq<FieldView>, values: Seq<ValueView>, n: int)
    requires
        0 <= n <= fields.len(),
        valid_values(fields, values),
    ensures
        all_clean(path_texts(fields, values, n)),
    decreases n,
{
    if n > 0 {
        lemma_path_texts_clean(fields, values, n - 1);
        let init = path_texts(fields, values, n - 1);
        let all = path_texts(fields, values, n);
        if fields[n - 1].location == Location::Path {
            assert forall|k: int| 0 <= k < all.len() implies !(#[trigger] all[k]).contains(
                '/',
            ) by {
                if k < init.len() {
                    assert(all[k] == init[k]);
                }
            }
        }
    }
}

/// Decoding what was made of the values gives the first `n` of them back.
proof fn lemma_decode_encoded(
    fields: Seq<FieldView>,
    values: Seq<ValueView>,
    block: Block,
    n: int,
)
    requires
        0 <= n <= fields.len(),
        struct_rules(fields),
        fits(fields, values),
    ensures
        decode_fields(
            fields,
            path_texts(fields, values, fields.len() as int),
            pairs_at(fields, values, Location::Query, fields.len() as int),
            pairs_at(fields, values, Location::Header, fields.len() as int),
            payload_of(fields, values, block),
            n,
        ) == Ok::<Seq<ValueView>, DecodeErrorView>(values.take(n)),
    decreases n,
{
    let len = fields.len() as int;
    let captured = path_texts(fields, values, len);
    let query = pairs_at(fields, values, Location::Query, len);
    let headers = pairs_at(fields, values, Location::Header, len);
    let payload = payload_of(fields, values, block);
    if n == 0 {
        assert(values.take(0) == Seq::<ValueView>::empty());
    } else {
        lemma_decode_encoded(fields, values, block, n - 1);
        let f = fields[n - 1];
        let v = values[n - 1];
        let k = rank(fields, Location::Path, n - 1) as int;
        assert(fits_one(f, v));
        lemma_positions(fields, Location::NewtypeBody);
        lemma_positions(fields, Location::BodyMember);
        let whole = positions(fields, Location::NewtypeBody);
        let members = positions(fields, Location::BodyMember);
        match f.location {
            Location::Path => {
                lemma_path_texts_len(fields, values, n - 1);
                lemma_path_texts_len(fields, values, n);
                lemma_path_texts_prefix(fields, values, n, len);
                assert(path_texts(fields, values, n)[k] == text_of(v));
            },
            Location::Query => {
                lemma_pairs_found(fields, values, Location::Query, len, n - 1);
            },
            Location::Header => {
                lemma_pairs_found(fields, values, Location::Header, len, n - 1);
            },
            Location::BodyMember => {
                assert(members.contains(n - 1));
                assert(whole.len() == 0);
                assert(payload == PayloadView::Object(members_at(fields, values, len)));
                lemma_members_found(fields, values, len, n - 1);
            },
            Location::NewtypeBody => {
                assert(whole.contains(n - 1));
                assert(whole.len() == 1);
                assert(whole[0] == n - 1);
            },
        }
        assert(decode_one(f, k, captured, query, headers, payload) == Ok::<
            ValueView,
            DecodeErrorView,
        >(v));
        assert(values.take(n - 1).push(v) == values.take(n));
    }
}

/// Decoding the parts that were made of the values of a request gives the
/// values back: for every endpoint, whichever template is preferred, and
/// every valid assignment of values to its request fields.
pub proof fn law_request_round_trip(ep: EndpointView, prec: Precedence, values: Seq<ValueView>)
    requires
        well_formed(ep),
        valid_values(ep.request_fields, values),
    ensures
        request_values(ep, prec, request_parts(ep, prec, values)) == Ok::<
            Seq<ValueView>,
            DecodeErrorView,
        >(values),
{
    let fields = ep.request_fields;
    let len = fields.len() as int;
    let t = selected(ep, prec)->0;
    let texts = path_texts(fields, values, len);
    assert(clean_template(t)) by {
        if ep.metadata.legacy_path is Some {
            lemma_template_clean(ep.metadata.legacy_path->0);
        }
        if ep.metadata.stable_path is Some {
            lemma_template_clean(ep.metadata.stable_path->0);
        }
    }
    lemma_count_names(t);
    lemma_rank(fields, Location::Path, len);
    assert(fields.take(len) == fields);
    lemma_path_texts_len(fields, values, len);
    lemma_path_texts_clean(fields, values, len);
    lemma_match_render(t, texts);
    lemma_decode_encoded(fields, values, Block::Request, len);
    assert(values.take(len) == values);
}

/// Decoding the parts that were made of the values of a response gives the
/// values back: for every endpoint and every assignment of values of the
/// right kinds to its response fields.
pub proof fn law_response_round_trip(ep: EndpointView, values: Seq<ValueView>)
    requires
        well_formed(ep),
        fits(ep.response_fields, values),
    ensures
        response_values(ep, response_parts(ep, values)) == Ok::<Seq<ValueView>, DecodeErrorView>(
            values,
        ),
{
    let fields = ep.response_fields;
    let len = fields.len() as int;
    lemma_decode_encoded(fields, values, Block::Response, len);
    assert(values.take(len) == values);
    lemma_path_texts_len(fields, values, len);
    assert(path_texts(fields, values, len) == Seq::<Seq<char>>::empty());
    lemma_no_pairs(fields, values, Location::Query, len);
}

/// Where no field has role `loc`, no pair is made for it.
proof fn lemma_no_pairs(fields: Seq<FieldView>, values: Seq<ValueView>, loc: Location, n: int)
    requires
        0 <= n <= fields.len(),
        rank(fields, loc, fields.len() as int) == 0,
    ensures
        pairs_at(fields, values, loc, n) == Seq::<(Seq<char>, Seq<char>)>::empty(),
        rank(fields, loc, n) == 0,
    decreases n,
{
    crate::marshal::lemma_rank_monotone(fields, loc, n, fields.len() as int);
    if n > 0 {
        lemma_no_pairs(fields, values, loc, n - 1);
    }
}

/// A body that is absent, and a body that is one JSON value, are read as
/// they were written. A body that is an object is, if the members that are
/// read from the bytes of the object give, for every name, what the members
/// that were written give.
pub proof fn law_body_returns(j: Seq<u8>, ms: Seq<(Seq<char>, Seq<u8>)>)
    ensures
        body_returns(BodyKind::Empty, PayloadView::Empty),
        json_valid(j) ==> body_returns(BodyKind::Whole, PayloadView::Value(j)),
        json_object_members(json_object_bytes(ms)) is Some && same_lookups(
            json_object_members(json_object_bytes(ms))->0,
            ms,
        ) ==> body_returns(BodyKind::Object, PayloadView::Object(ms)),
{
}

/// Decoding the request that was made of the values gives the values back,
/// bytes of the body included, wherever the body is read as it was written.
pub proof fn law_request_wire_round_trip(ep: EndpointView, prec: Precedence, values: Seq<ValueView>)
    requires
        well_formed(ep),
        valid_values(ep.request_fields, values),
    ensures
        body_returns(
            kind_of(strategy_of(ep.request_fields, Block::Request)),
            payload_of(ep.request_fields, values, Block::Request),
        ) ==> request_read(ep, prec, wire_request(ep, prec, values)) == Ok::<
            Seq<ValueView>,
            DecodeErrorView,
        >(values),
{
    law_request_round_trip(ep, prec, values);
    let fields = ep.request_fields;
    let kind = kind_of(strategy_of(fields, Block::Request));
    let payload = payload_of(fields, values, Block::Request);
    let parts = request_parts(ep, prec, values);
    if body_returns(kind, payload) {
        let read = payload_from(kind, body_of(payload))->Ok_0;
        let captured = match_path(selected(ep, prec)->0, parts.path);
        if captured is Some {
            lemma_same_payload(
                fields,
                captured->0,
                parts.query,
                parts.headers,
                read,
                payload,
                fields.len() as int,
            );
        }
    }
}

/// Decoding the response that was made of the values gives the values back,
/// bytes of the body included, wherever the body is read as it was written.
pub proof fn law_response_wire_round_trip(ep: EndpointView, values: Seq<ValueView>)
    requires
        well_formed(ep),
        fits(ep.response_fields, values),
    ensures
        body_returns(
            kind_of(strategy_of(ep.response_fields, Block::Response)),
            payload_of(ep.response_fields, values, Block::Response),
        ) ==> response_read(ep, wire_response(ep, values)) == Ok::<
            Seq<ValueView>,
            DecodeErrorView,
        >(values),
{
    law_response_round_trip(ep, values);
    let fields = ep.response_fields;
    let kind = kind_of(strategy_of(fields, Block::Response));
    let payload = payload_of(fields, values, Block::Response);
    let parts = response_parts(ep, values);
    if body_returns(kind, payload) {
        let read = payload_from(kind, body_of(payload))->Ok_0;
        lemma_same_payload(
            fields,
            Seq::empty(),
            Seq::empty(),
            parts.headers,
            read,
            payload,
            fields.len() as int,
        );
    }
}

/// A member field that holds no value gives no member: no member of the
/// encoded object has its name.
pub proof fn law_absent_member_omitted(fields: Seq<FieldView>, values: Seq<ValueView>, i: int)
    requires
        distinct_names(fields),
        fields.len() == values.len(),
        0 <= i < fields.len(),
        fields[i].location == Location::BodyMember,
        values[i] is Absent,
    ensures
        lookup(members_at(fields, values, fields.len() as int), fields[i].name) is None,
{
    lemma_members_found(fields, values, fields.len() as int, i);
}

/// The values that decoding gives are one for each field, each as
/// `decode_one` reads it.
pub proof fn lemma_decoded_values(
    fields: Seq<FieldView>,
    captured: Seq<Seq<char>>,
    query: Seq<(Seq<char>, Seq<char>)>,
    headers: Seq<(Seq<char>, Seq<char>)>,
    payload: PayloadView,
    n: int,
)
    requires
        0 <= n,
    ensures
        decode_fields(fields, captured, query, headers, payload, n) matches Ok(vs) ==> vs.len()
            == n && forall|i: int|
            0 <= i < n ==> decode_one(
                fields[i],
                rank(fields, Location::Path, i) as int,
                captured,
                query,
                headers,
                payload,
            ) == Ok::<ValueView, DecodeErrorView>(#[trigger] vs[i]),
    decreases n,
{
    if n > 0 {
        lemma_decoded_values(fields, captured, query, headers, payload, n - 1);
    }
}

/// Decoding a body object that has no member with the name of a member
/// field that need not be there gives no value for that field.
pub proof fn law_missing_member_absent(
    fields: Seq<FieldView>,
    captured: Seq<Seq<char>>,
    query: Seq<(Seq<char>, Seq<char>)>,
    headers: Seq<(Seq<char>, Seq<char>)>,
    members: Seq<(Seq<char>, Seq<u8>)>,
    i: int,
)
    requires
        0 <= i < fields.len(),
        fields[i].location == Location::BodyMember,
        !fields[i].required,
        lookup(members, fields[i].name) is None,
    ensures
        decode_fields(
            fields,
            captured,
            query,
            headers,
            PayloadView::Object(members),
            fields.len() as int,
        ) matches Ok(vs) ==> vs[i] == ValueView::Absent,
{
    lemma_decoded_values(
        fields,
        captured,
        query,
        headers,
        PayloadView::Object(members),
        fields.len() as int,
    );
}

} // verus!
