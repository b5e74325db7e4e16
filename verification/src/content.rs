//! Tagged content: an object in which the value of one member, the tag, says
//! which variant the other members belong to.

use vstd::prelude::*;
use crate::error::{DecodeError, DecodeErrorView};
use crate::json::{json_string_bytes, json_string_value, Member, RawJson};
use crate::marshal::{find_member, lemma_lookup_concat, lemma_lookup_none, lookup};
use crate::text::same_text;

verus! {

/// Whether the value of a field is a member of its own or gives its members
/// to the object that holds the field.
#[derive(Clone, Copy, Debug, PartialEq, Eq, Structural)]
pub enum Merge {
    Nest,
    Flatten,
}

/// Whether a field is always written or left out when it holds no value.
#[derive(Clone, Copy, Debug, PartialEq, Eq, Structural)]
pub enum Omission {
    Always,
    IfAbsent,
}

/// A field of a variant: the key of its member, and how it is written.
#[derive(Debug)]
pub struct ContentField {
    pub key: String,
    pub omission: Omission,
    pub merge: Merge,
}

pub struct ContentFieldView {
    pub key: Seq<char>,
    pub omission: Omission,
    pub merge: Merge,
}

impl DeepView for ContentField {
    type V = ContentFieldView;

    open spec fn deep_view(&self) -> ContentFieldView {
        ContentFieldView { key: self.key@, omission: self.omission, merge: self.merge }
    }
}

/// A variant: the key and the value of the tag, and the fields.
#[derive(Debug)]
pub struct Variant {
    pub tag_key: String,
    pub tag: String,
    pub fields: Vec<ContentField>,
}

pub struct VariantView {
    pub tag_key: Seq<char>,
    pub tag: Seq<char>,
    pub fields: Seq<ContentFieldView>,
}

impl DeepView for Variant {
    type V = VariantView;

    open spec fn deep_view(&self) -> VariantView {
        VariantView { tag_key: self.tag_key@, tag: self.tag@, fields: self.fields.deep_view() }
    }
}

/// The value of a field of a variant.
#[derive(Debug)]
pub enum ContentValue {
    /// No value.
    Absent,
    /// One JSON value, for a field that is a member of its own.
    Json(RawJson),
    /// Members, for a field that gives them to the object.
    Members(Vec<Member>),
}

pub enum ContentValueView {
    Absent,
    Json(Seq<u8>),
    Members(Seq<(Seq<char>, Seq<u8>)>),
}

impl DeepView for ContentValue {
    type V = ContentValueView;

    open spec fn deep_view(&self) -> ContentValueView {
        match self {
            ContentValue::Absent => ContentValueView::Absent,
            ContentValue::Json(j) => ContentValueView::Json(j@),
            ContentValue::Members(ms) => ContentValueView::Members(ms.deep_view()),
        }
    }
}

/// The members that the first `n` fields give: a member under its key for
/// a nested field that holds a JSON value, its own members for a flattened
/// field that holds members, and nothing for any other.
pub open spec fn field_members(
    fields: Seq<ContentFieldView>,
    values: Seq<ContentValueView>,
    n: int,
) -> Seq<(Seq<char>, Seq<u8>)>
    decreases n,
{
    if n <= 0 {
        Seq::empty()
    } else {
        let init = field_members(fields, values, n - 1);
        if n - 1 < values.len() {
            match values[n - 1] {
                ContentValueView::Json(j) => if fields[n - 1].merge == Merge::Nest {
                    init.push((fields[n - 1].key, j))
                } else {
                    init
                },
                ContentValueView::Members(ms) => if fields[n - 1].merge == Merge::Flatten {
                    init + ms
                } else {
                    init
                },
                ContentValueView::Absent => init,
            }
        } else {
            init
        }
    }
}

/// The members of the object of a variant: the tag first, then what the fields give.
pub open spec fn variant_members(v: VariantView, values: Seq<ContentValueView>) -> Seq<
    (Seq<char>, Seq<u8>),
> {
    seq![(v.tag_key, json_string_bytes(v.tag))] + field_members(
        v.fields,
        values,
        v.fields.len() as int,
    )
}

/// Whether one of the first `n` fields is nested under this key.
pub open spec fn is_nest_key(fields: Seq<ContentFieldView>, key: Seq<char>, n: int) -> bool
    decreases n,
{
    if n <= 0 {
        false
    } else {
        (fields[n - 1].merge == Merge::Nest && fields[n - 1].key == key) || is_nest_key(
            fields,
            key,
            n - 1,
        )
    }
}

/// Whether a key is the key of the tag or of a nested field.
pub open spec fn claimed(v: VariantView, key: Seq<char>) -> bool {
    key == v.tag_key || is_nest_key(v.fields, key, v.fields.len() as int)
}

/// Those of the first `n` members that are neither the tag nor the member of a nested field.
pub open spec fn unclaimed(v: VariantView, members: Seq<(Seq<char>, Seq<u8>)>, n: int) -> Seq<
    (Seq<char>, Seq<u8>),
>
    decreases n,
{
    if n <= 0 {
        Seq::empty()
    } else {
        let init = unclaimed(v, members, n - 1);
        if claimed(v, members[n - 1].0) {
            init
        } else {
            init.push(members[n - 1])
        }
    }
}

/// The value of one field, from the members of an object. A nested field
/// takes the member under its key; where there is none, a field that is
/// always written is missing and another holds no value. A flattened field
/// takes the members that nothing else claims.
pub open spec fn content_one(
    v: VariantView,
    f: ContentFieldView,
    members: Seq<(Seq<char>, Seq<u8>)>,
) -> Result<ContentValueView, DecodeErrorView> {
    match f.merge {
        Merge::Nest => match lookup(members, f.key) {
            Some(j) => Ok(ContentValueView::Json(j)),
            None => match f.omission {
                Omission::IfAbsent => Ok(ContentValueView::Absent),
                Omission::Always => Err(DecodeErrorView::MissingMember(f.key)),
            },
        },
        Merge::Flatten => Ok(
            ContentValueView::Members(unclaimed(v, members, members.len() as int)),
        ),
    }
}

/// The values of the first `n` fields, or the error of the first that has none.
pub open spec fn content_fields(v: VariantView, members: Seq<(Seq<char>, Seq<u8>)>, n: int)
    -> Result<Seq<ContentValueView>, DecodeErrorView>
    decreases n,
{
    if n <= 0 {
        Ok(Seq::empty())
    } else {
        match content_fields(v, members, n - 1) {
            Err(e) => Err(e),
            Ok(vs) => match content_one(v, v.fields[n - 1], members) {
                Err(e) => Err(e),
                Ok(x) => Ok(vs.push(x)),
            },
        }
    }
}

/// The values of the fields of a variant that the members of an object
/// hold. The tag has to be there and has to be a string that is the tag of
/// the variant.
pub open spec fn variant_values(v: VariantView, members: Seq<(Seq<char>, Seq<u8>)>) -> Result<
    Seq<ContentValueView>,
    DecodeErrorView,
> {
    match lookup(members, v.tag_key) {
        None => Err(DecodeErrorView::MissingMember(v.tag_key)),
        Some(j) => if json_string_value(j) == Some(v.tag) {
            content_fields(v, members, v.fields.len() as int)
        } else {
            Err(DecodeErrorView::WrongVariant)
        },
    }
}

/// A copy of members.
pub fn copy_members(members: &Vec<Member>) -> (r: Vec<Member>)
    ensures
        r.deep_view() == members.deep_view(),
{
    let mut r: Vec<Member> = Vec::new();
    let mut i: usize = 0;
    while i < members.len()
        invariant
            i <= members.len(),
            r.len() == i,
            forall|k: int|
                0 <= k < i ==> (#[trigger] r[k]).deep_view() == members[k].deep_view(),
        decreases members.len() - i,
    {
        r.push(Member { key: members[i].key.clone(), value: members[i].value.duplicate() });
        i += 1;
    }
    assert(r.deep_view() =~= members.deep_view());
    r
}

/// The members of the object of a variant.
pub fn encode_variant(v: &Variant, values: &Vec<ContentValue>) -> (r: Vec<Member>)
    ensures
        r.deep_view() == variant_members(v.deep_view(), values.deep_view()),
{
    let ghost fs = v.fields.deep_view();
    let ghost vs = values.deep_view();
    let mut r: Vec<Member> = Vec::new();
    r.push(Member { key: v.tag_key.clone(), value: RawJson::string(v.tag.as_str()) });
    let ghost head = r.deep_view();
    assert(head == seq![(v.tag_key@, json_string_bytes(v.tag@))]);
    let mut i: usize = 0;
    assert(head + Seq::<(Seq<char>, Seq<u8>)>::empty() == head);
    while i < v.fields.len()
        invariant
            i <= v.fields.len(),
            fs == v.fields.deep_view(),
            vs == values.deep_view(),
            r.deep_view() == head + field_members(fs, vs, i as int),
        decreases v.fields.len() - i,
    {
        let ghost before = r.deep_view();
        let ghost init = field_members(fs, vs, i as int);
        if i < values.len() {
            match &values[i] {
                ContentValue::Json(j) => {
                    if v.fields[i].merge == Merge::Nest {
                        r.push(Member { key: v.fields[i].key.clone(), value: j.duplicate() });
                        assert(r.deep_view() == before.push((fs[i as int].key, j@)));
                        assert(head + init.push((fs[i as int].key, j@)) == (head + init).push(
                            (fs[i as int].key, j@),
                        ));
                    }
                },
                ContentValue::Members(ms) => {
                    if v.fields[i].merge == Merge::Flatten {
                        let mut more = copy_members(ms);
                        let ghost added = more.deep_view();
                        r.append(&mut more);
                        assert(r.deep_view() =~= before + added);
                        assert(head + (init + added) == (head + init) + added);
                    }
                },
                ContentValue::Absent => {},
            }
        }
        i += 1;
    }
    r
}

/// Whether one of the fields is nested under this key.
fn nest_key(fields: &Vec<ContentField>, key: &str) -> (r: bool)
    ensures
        r == is_nest_key(fields.deep_view(), key@, fields.len() as int),
{
    let ghost fs = fields.deep_view();
    let mut i: usize = 0;
    while i < fields.len()
        invariant
            i <= fields.len(),
            fs == fields.deep_view(),
            !is_nest_key(fs, key@, i as int),
        decreases fields.len() - i,
    {
        if fields[i].merge == Merge::Nest && same_text(fields[i].key.as_str(), key) {
            proof {
                lemma_nest_key_stays(fs, key@, i + 1, fields.len() as int);
            }
            return true;
        }
        i += 1;
    }
    false
}

proof fn lemma_nest_key_stays(fields: Seq<ContentFieldView>, key: Seq<char>, n: int, m: int)
    requires
        n <= m,
        is_nest_key(fields, key, n),
    ensures
        is_nest_key(fields, key, m),
    decreases m - n,
{
    if n < m {
        lemma_nest_key_stays(fields, key, n, m - 1);
    }
}

/// The members that nothing claims.
fn collect_unclaimed(v: &Variant, members: &Vec<Member>) -> (r: Vec<Member>)
    ensures
        r.deep_view() == unclaimed(v.deep_view(), members.deep_view(), members.len() as int),
{
    let ghost vv = v.deep_view();
    let ghost ms = members.deep_view();
    let mut r: Vec<Member> = Vec::new();
    let mut i: usize = 0;
    while i < members.len()
        invariant
            i <= members.len(),
            vv == v.deep_view(),
            ms == members.deep_view(),
            r.deep_view() == unclaimed(vv, ms, i as int),
        decreases members.len() - i,
    {
        let ghost before = r.deep_view();
        let key = members[i].key.as_str();
        assert(ms[i as int] == (members[i as int].key@, members[i as int].value@));
        if !(same_text(key, v.tag_key.as_str()) || nest_key(&v.fields, key)) {
            r.push(Member { key: members[i].key.clone(), value: members[i].value.duplicate() });
            assert(r.deep_view() == before.push(ms[i as int]));
        }
        i += 1;
    }
    r
}

/// What a result of decoding content stands for.
pub open spec fn content_read(r: Result<Vec<ContentValue>, DecodeError>) -> Result<
    Seq<ContentValueView>,
    DecodeErrorView,
> {
    match r {
        Ok(vs) => Ok(vs.deep_view()),
        Err(e) => Err(e.deep_view()),
    }
}

proof fn lemma_content_fails(v: VariantView, members: Seq<(Seq<char>, Seq<u8>)>, n: int, m: int)
    requires
        n <= m,
        content_fields(v, members, n) is Err,
    ensures
        content_fields(v, members, m) == content_fields(v, members, n),
    decreases m - n,
{
    if n < m {
        lemma_content_fails(v, members, n, m - 1);
    }
}

/// The values of the fields of a variant, from the members of an object.
pub fn decode_variant(v: &Variant, members: &Vec<Member>) -> (r: Result<
    Vec<ContentValue>,
    DecodeError,
>)
    ensures
        content_read(r) == variant_values(v.deep_view(), members.deep_view()),
{
    let ghost vv = v.deep_view();
    let ghost ms = members.deep_view();
    match find_member(members, v.tag_key.as_str()) {
        None => {
            return Err(DecodeError::MissingMember(v.tag_key.clone()));
        },
        Some(j) => match j.as_string() {
            Some(t) => {
                if !same_text(t.as_str(), v.tag.as_str()) {
                    return Err(DecodeError::WrongVariant);
                }
            },
            None => {
                return Err(DecodeError::WrongVariant);
            },
        },
    }
    let mut values: Vec<ContentValue> = Vec::new();
    let mut i: usize = 0;
    assert(values.deep_view() == Seq::<ContentValueView>::empty());
    while i < v.fields.len()
        invariant
            i <= v.fields.len(),
            vv == v.deep_view(),
            ms == members.deep_view(),
            lookup(ms, vv.tag_key) is Some,
            json_string_value(lookup(ms, vv.tag_key)->0) == Some(vv.tag),
            content_fields(vv, ms, i as int) == Ok::<Seq<ContentValueView>, DecodeErrorView>(
                values.deep_view(),
            ),
        decreases v.fields.len() - i,
    {
        let ghost before = values.deep_view();
        let f = &v.fields[i];
        assert(vv.fields[i as int] == f.deep_view());
        let x = match f.merge {
            Merge::Nest => match find_member(members, f.key.as_str()) {
                Some(j) => ContentValue::Json(j),
                None => match f.omission {
                    Omission::IfAbsent => ContentValue::Absent,
                    Omission::Always => {
                        proof {
                            lemma_content_fails(vv, ms, i + 1, v.fields.len() as int);
                        }
                        return Err(DecodeError::MissingMember(f.key.clone()));
                    },
                },
            },
            Merge::Flatten => ContentValue::Members(collect_unclaimed(v, members)),
        };
        let ghost view = x.deep_view();
        values.push(x);
        assert(values.deep_view() == before.push(view));
        i += 1;
    }
    Ok(values)
}

/// The rules of a variant: the keys of its nested fields are all different
/// and none is the key of the tag, and at most one field is flattened.
pub open spec fn variant_rules(v: VariantView) -> bool {
    &&& forall|i: int, j: int|
        0 <= i < j < v.fields.len() && (#[trigger] v.fields[i]).merge == Merge::Nest && (
        #[trigger] v.fields[j]).merge == Merge::Nest ==> v.fields[i].key != v.fields[j].key
    &&& forall|i: int|
        0 <= i < v.fields.len() && (#[trigger] v.fields[i]).merge == Merge::Nest
            ==> v.fields[i].key != v.tag_key
    &&& forall|i: int, j: int|
        0 <= i < j < v.fields.len() ==> !((#[trigger] v.fields[i]).merge == Merge::Flatten && (
        #[trigger] v.fields[j]).merge == Merge::Flatten)
}

/// No member has a key that the tag or a nested field claims.
pub open spec fn all_unclaimed(v: VariantView, ms: Seq<(Seq<char>, Seq<u8>)>) -> bool {
    forall|k: int| 0 <= k < ms.len() ==> !claimed(v, (#[trigger] ms[k]).0)
}

/// Whether a value is one that a field of the variant takes: a JSON value
/// for a nested field, or none where the field may be left out; members
/// with keys that nothing else claims for a flattened field.
pub open spec fn value_fits(v: VariantView, f: ContentFieldView, x: ContentValueView) -> bool {
    match f.merge {
        Merge::Nest => x is Json || (x is Absent && f.omission == Omission::IfAbsent),
        Merge::Flatten => x is Members && all_unclaimed(v, x->Members_0),
    }
}

/// One value for each field of the variant, each one that the field takes.
pub open spec fn content_fits(v: VariantView, values: Seq<ContentValueView>) -> bool {
    &&& values.len() == v.fields.len()
    &&& forall|i: int|
        0 <= i < v.fields.len() ==> value_fits(v, #[trigger] v.fields[i], values[i])
}

proof fn lemma_nest_key(fields: Seq<ContentFieldView>, i: int, n: int)
    requires
        0 <= i < n,
        fields[i].merge == Merge::Nest,
    ensures
        is_nest_key(fields, fields[i].key, n),
    decreases n,
{
    if n - 1 > i {
        lemma_nest_key(fields, i, n - 1);
    }
}

/// A key that the variant claims, and that is the key of none of the first
/// `n` nested fields, is the key of none of the members that they give.
proof fn lemma_members_lack(v: VariantView, values: Seq<ContentValueView>, n: int, key: Seq<char>)
    requires
        0 <= n <= v.fields.len(),
        content_fits(v, values),
        claimed(v, key),
        forall|q: int|
            0 <= q < n && (#[trigger] v.fields[q]).merge == Merge::Nest ==> v.fields[q].key
                != key,
    ensures
        lookup(field_members(v.fields, values, n), key) is None,
    decreases n,
{
    if n > 0 {
        lemma_members_lack(v, values, n - 1, key);
        let init = field_members(v.fields, values, n - 1);
        let f = v.fields[n - 1];
        assert(value_fits(v, f, values[n - 1]));
        match values[n - 1] {
            ContentValueView::Json(j) => {
                if f.merge == Merge::Nest {
                    assert(init.push((f.key, j)).drop_last() == init);
                }
            },
            ContentValueView::Members(ms) => {
                if f.merge == Merge::Flatten {
                    lemma_lookup_concat(init, ms, key);
                    assert forall|k: int| 0 <= k < ms.len() implies (#[trigger] ms[k]).0
                        != key by {
                        assert(!claimed(v, ms[k].0));
                    }
                    lemma_lookup_none(ms, key);
                }
            },
            ContentValueView::Absent => {},
        }
    }
}

/// The member of a nested field is found under its key among what the
/// first `n` fields give, if the field holds a value, and not otherwise.
proof fn lemma_member_found(v: VariantView, values: Seq<ContentValueView>, n: int, i: int)
    requires
        0 <= i < n <= v.fields.len(),
        variant_rules(v),
        content_fits(v, values),
        v.fields[i].merge == Merge::Nest,
    ensures
        lookup(field_members(v.fields, values, n), v.fields[i].key) == match values[i] {
            ContentValueView::Json(j) => Some(j),
            _ => None::<Seq<u8>>,
        },
    decreases n,
{
    let key = v.fields[i].key;
    let init = field_members(v.fields, values, n - 1);
    let f = v.fields[n - 1];
    assert(value_fits(v, f, values[n - 1]));
    lemma_nest_key(v.fields, i, v.fields.len() as int);
    if n - 1 == i {
        match values[i] {
            ContentValueView::Json(j) => {},
            _ => {
                lemma_members_lack(v, values, i, key);
            },
        }
    } else {
        lemma_member_found(v, values, n - 1, i);
        match values[n - 1] {
            ContentValueView::Json(j) => {
                if f.merge == Merge::Nest {
                    assert(f.key != key);
                    assert(init.push((f.key, j)).drop_last() == init);
                }
            },
            ContentValueView::Members(ms) => {
                if f.merge == Merge::Flatten {
                    lemma_lookup_concat(init, ms, key);
                    assert forall|k: int| 0 <= k < ms.len() implies (#[trigger] ms[k]).0
                        != key by {
                        assert(!claimed(v, ms[k].0));
                    }
                    lemma_lookup_none(ms, key);
                }
            },
            ContentValueView::Absent => {},
        }
    }
}

proof fn lemma_unclaimed_prefix(
    v: VariantView,
    a: Seq<(Seq<char>, Seq<u8>)>,
    b: Seq<(Seq<char>, Seq<u8>)>,
    n: int,
)
    requires
        n <= a.len(),
    ensures
        unclaimed(v, a + b, n) == unclaimed(v, a, n),
    decreases n,
{
    if n > 0 {
        lemma_unclaimed_prefix(v, a, b, n - 1);
        assert((a + b)[n - 1] == a[n - 1]);
    }
}

proof fn lemma_unclaimed_concat(
    v: VariantView,
    a: Seq<(Seq<char>, Seq<u8>)>,
    b: Seq<(Seq<char>, Seq<u8>)>,
    n: int,
)
    requires
        0 <= n <= b.len(),
    ensures
        unclaimed(v, a + b, a.len() + n) == unclaimed(v, a, a.len() as int) + unclaimed(v, b, n),
    decreases n,
{
    if n == 0 {
        lemma_unclaimed_prefix(v, a, b, a.len() as int);
        assert(unclaimed(v, a, a.len() as int) + Seq::<(Seq<char>, Seq<u8>)>::empty()
            =~= unclaimed(v, a, a.len() as int));
    } else {
        lemma_unclaimed_concat(v, a, b, n - 1);
        assert((a + b)[a.len() + n - 1] == b[n - 1]);
        let x = unclaimed(v, a, a.len() as int);
        let y = unclaimed(v, b, n - 1);
        if !claimed(v, b[n - 1].0) {
            assert((x + y).push(b[n - 1]) =~= x + y.push(b[n - 1]));
        }
    }
}

proof fn lemma_unclaimed_all(v: VariantView, ms: Seq<(Seq<char>, Seq<u8>)>, n: int)
    requires
        0 <= n <= ms.len(),
        all_unclaimed(v, ms),
    ensures
        unclaimed(v, ms, n) == ms.take(n),
    decreases n,
{
    if n == 0 {
        assert(ms.take(0) =~= Seq::<(Seq<char>, Seq<u8>)>::empty());
    } else {
        lemma_unclaimed_all(v, ms, n - 1);
        assert(!claimed(v, ms[n - 1].0));
        assert(ms.take(n - 1).push(ms[n - 1]) =~= ms.take(n));
    }
}

/// The members of the flattened fields among the first `n`.
pub open spec fn flat_members(
    fields: Seq<ContentFieldView>,
    values: Seq<ContentValueView>,
    n: int,
) -> Seq<(Seq<char>, Seq<u8>)>
    decreases n,
{
    if n <= 0 {
        Seq::empty()
    } else {
        let init = flat_members(fields, values, n - 1);
        match values[n - 1] {
            ContentValueView::Members(ms) => if fields[n - 1].merge == Merge::Flatten {
                init + ms
            } else {
                init
            },
            _ => init,
        }
    }
}

/// Of what the first `n` fields give, the members that nothing claims are
/// those of the flattened fields.
proof fn lemma_unclaimed_members(v: VariantView, values: Seq<ContentValueView>, n: int)
    requires
        0 <= n <= v.fields.len(),
        content_fits(v, values),
    ensures
        unclaimed(
            v,
            field_members(v.fields, values, n),
            field_members(v.fields, values, n).len() as int,
        ) == flat_members(v.fields, values, n),
    decreases n,
{
    if n > 0 {
        lemma_unclaimed_members(v, values, n - 1);
        let init = field_members(v.fields, values, n - 1);
        let f = v.fields[n - 1];
        assert(value_fits(v, f, values[n - 1]));
        match values[n - 1] {
            ContentValueView::Json(j) => {
                if f.merge == Merge::Nest {
                    let one = seq![(f.key, j)];
                    assert(init.push((f.key, j)) =~= init + one);
                    lemma_unclaimed_concat(v, init, one, 1);
                    lemma_nest_key(v.fields, n - 1, v.fields.len() as int);
                    assert(unclaimed(v, one, 0) =~= Seq::<(Seq<char>, Seq<u8>)>::empty());
                    assert(unclaimed(v, one, 1) =~= Seq::<(Seq<char>, Seq<u8>)>::empty());
                    assert(unclaimed(v, init, init.len() as int) + Seq::<
                        (Seq<char>, Seq<u8>),
                    >::empty() =~= unclaimed(v, init, init.len() as int));
                }
            },
            ContentValueView::Members(ms) => {
                if f.merge == Merge::Flatten {
                    lemma_unclaimed_concat(v, init, ms, ms.len() as int);
                    lemma_unclaimed_all(v, ms, ms.len() as int);
                    assert(ms.take(ms.len() as int) =~= ms);
                }
            },
            ContentValueView::Absent => {},
        }
    }
}

/// Where one field is flattened, the members of the flattened fields are its members.
proof fn lemma_flat_members(v: VariantView, values: Seq<ContentValueView>, p: int, n: int)
    requires
        0 <= p < v.fields.len(),
        0 <= n <= v.fields.len(),
        variant_rules(v),
        content_fits(v, values),
        v.fields[p].merge == Merge::Flatten,
    ensures
        flat_members(v.fields, values, n) == if n > p {
            values[p]->Members_0
        } else {
            Seq::<(Seq<char>, Seq<u8>)>::empty()
        },
    decreases n,
{
    if n > 0 {
        lemma_flat_members(v, values, p, n - 1);
        assert(value_fits(v, v.fields[p], values[p]));
        assert(value_fits(v, v.fields[n - 1], values[n - 1]));
        if n - 1 == p {
            assert(Seq::<(Seq<char>, Seq<u8>)>::empty() + values[p]->Members_0
                =~= values[p]->Members_0);
        } else if n - 1 < p {
            assert(!(v.fields[n - 1].merge == Merge::Flatten && v.fields[p].merge
                == Merge::Flatten));
        } else {
            assert(!(v.fields[p].merge == Merge::Flatten && v.fields[n - 1].merge
                == Merge::Flatten));
        }
    }
}

proof fn lemma_content_decoded(v: VariantView, values: Seq<ContentValueView>, n: int)
    requires
        0 <= n <= v.fields.len(),
        variant_rules(v),
        content_fits(v, values),
    ensures
        content_fields(v, variant_members(v, values), n) == Ok::<
            Seq<ContentValueView>,
            DecodeErrorView,
        >(values.take(n)),
    decreases n,
{
    let len = v.fields.len() as int;
    let head = seq![(v.tag_key, json_string_bytes(v.tag))];
    let given = field_members(v.fields, values, len);
    let all = variant_members(v, values);
    if n == 0 {
        assert(values.take(0) =~= Seq::<ContentValueView>::empty());
    } else {
        lemma_content_decoded(v, values, n - 1);
        let f = v.fields[n - 1];
        let x = values[n - 1];
        assert(value_fits(v, f, x));
        match f.merge {
            Merge::Nest => {
                lemma_member_found(v, values, len, n - 1);
                lemma_lookup_concat(head, given, f.key);
                assert(head[0].0 != f.key);
                assert(lookup(head.drop_last(), f.key) is None);
            },
            Merge::Flatten => {
                lemma_unclaimed_concat(v, head, given, given.len() as int);
                lemma_unclaimed_members(v, values, len);
                lemma_flat_members(v, values, n - 1, len);
                assert(claimed(v, head[0].0));
                assert(unclaimed(v, head, 0) =~= Seq::<(Seq<char>, Seq<u8>)>::empty());
                assert(unclaimed(v, head, 1) =~= Seq::<(Seq<char>, Seq<u8>)>::empty());
                assert(Seq::<(Seq<char>, Seq<u8>)>::empty() + x->Members_0 =~= x->Members_0);
                assert(all.len() == head.len() + given.len());
            },
        }
        assert(content_one(v, f, all) == Ok::<ContentValueView, DecodeErrorView>(x));
        assert(values.take(n - 1).push(x) =~= values.take(n));
    }
}

/// Decoding the members that were made of the values of a variant gives
/// the values back: for every variant that keeps the rules and every
/// assignment of values that its fields take, provided that the tag, written
/// as a JSON string, is read as the tag again.
pub proof fn law_variant_round_trip(v: VariantView, values: Seq<ContentValueView>)
    requires
        variant_rules(v),
        content_fits(v, values),
    ensures
        json_string_value(json_string_bytes(v.tag)) == Some(v.tag) ==> variant_values(
            v,
            variant_members(v, values),
        ) == Ok::<Seq<ContentValueView>, DecodeErrorView>(values),
{
    let len = v.fields.len() as int;
    let head = seq![(v.tag_key, json_string_bytes(v.tag))];
    let given = field_members(v.fields, values, len);
    lemma_content_decoded(v, values, len);
    assert(values.take(len) =~= values);
    lemma_members_lack(v, values, len, v.tag_key);
    lemma_lookup_concat(head, given, v.tag_key);
    assert(head.last().0 == v.tag_key);
}

/// A nested field that holds no value gives no member: no member of the
/// object of the variant has its key.
pub proof fn law_absent_field_omitted(v: VariantView, values: Seq<ContentValueView>, i: int)
    requires
        variant_rules(v),
        content_fits(v, values),
        0 <= i < v.fields.len(),
        v.fields[i].merge == Merge::Nest,
        values[i] is Absent,
    ensures
        lookup(variant_members(v, values), v.fields[i].key) is None,
{
    let len = v.fields.len() as int;
    let head = seq![(v.tag_key, json_string_bytes(v.tag))];
    let given = field_members(v.fields, values, len);
    lemma_member_found(v, values, len, i);
    lemma_lookup_concat(head, given, v.fields[i].key);
    assert(head[0].0 != v.fields[i].key);
    assert(lookup(head.drop_last(), v.fields[i].key) is None);
}

} // verus!
