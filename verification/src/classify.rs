//! The field classifier: gives each declared field its role, and holds the
//! fields of a struct to the rules that span them.

use vstd::prelude::*;
use crate::error::{ValidationError, ValidationErrorView};
use crate::schema::{
    Block, body_exclusive, FieldDescriptor, FieldView, Location, ParsedField, ParsedFieldView,
    positions, roles_required, Tag,
};
use crate::text::{chars_of, same_text};

verus! {

/// The role that an attribute stands for. A field without one is a member of the body.
pub open spec fn role_of(tag: Option<Tag>) -> Location {
    match tag {
        None => Location::BodyMember,
        Some(Tag::Path) => Location::Path,
        Some(Tag::Query) => Location::Query,
        Some(Tag::Header) => Location::Header,
        Some(Tag::Body) => Location::NewtypeBody,
    }
}

/// A declared type of the form `Option<..>`.
pub open spec fn is_optional_type(ty: Seq<char>) -> bool {
    ty.len() >= 8 && ty.take(7) == "Option<"@ && ty.last() == '>'
}

/// Whether a value is always expected: always for a path segment, a header
/// and a whole body; for a query pair and a body member unless the declared
/// type is optional.
pub open spec fn required_of(loc: Location, ty: Seq<char>) -> bool {
    match loc {
        Location::Query | Location::BodyMember => !is_optional_type(ty),
        _ => true,
    }
}

/// The descriptor of a declared field.
pub open spec fn describe(f: ParsedFieldView) -> FieldView {
    FieldView {
        name: f.name,
        ty: f.ty,
        location: role_of(f.tag),
        required: required_of(role_of(f.tag), f.ty),
    }
}

/// The descriptors of the declared fields of a struct.
pub open spec fn describe_all(parsed: Seq<ParsedFieldView>) -> Seq<FieldView> {
    parsed.map_values(|f: ParsedFieldView| describe(f))
}

/// What classification gives for the declared fields of a struct: their
/// descriptors, unless two fields are each the whole body, or one is and
/// another is a member.
pub open spec fn classified(block: Block, parsed: Seq<ParsedFieldView>) -> Result<
    Seq<FieldView>,
    ValidationErrorView,
> {
    let fields = describe_all(parsed);
    let whole = positions(fields, Location::NewtypeBody);
    let members = positions(fields, Location::BodyMember);
    if whole.len() >= 2 {
        Err(
            ValidationErrorView::DuplicateNewtypeBody {
                block,
                first: fields[whole[0]].name,
                second: fields[whole[1]].name,
            },
        )
    } else if whole.len() == 1 && members.len() >= 1 {
        Err(
            ValidationErrorView::BodyConflict {
                block,
                whole: fields[whole[0]].name,
                member: fields[members[0]].name,
            },
        )
    } else {
        Ok(fields)
    }
}

/// The role that an attribute stands for.
pub fn role(tag: Option<Tag>) -> (loc: Location)
    ensures
        loc == role_of(tag),
{
    match tag {
        None => Location::BodyMember,
        Some(Tag::Path) => Location::Path,
        Some(Tag::Query) => Location::Query,
        Some(Tag::Header) => Location::Header,
        Some(Tag::Body) => Location::NewtypeBody,
    }
}

/// Whether a declared type is of the form `Option<..>`.
pub fn optional_type(ty: &str) -> (r: bool)
    ensures
        r == is_optional_type(ty@),
{
    let chars = chars_of(ty);
    let n = chars.len();
    if n < 8 {
        return false;
    }
    chars[n - 1] == '>' && same_text(ty.substring_char(0, 7), "Option<")
}

/// The descriptor of a declared field.
pub fn descriptor(f: &ParsedField) -> (d: FieldDescriptor)
    ensures
        d.deep_view() == describe(f.deep_view()),
{
    let location = role(f.tag);
    let required = match location {
        Location::Query | Location::BodyMember => !optional_type(f.ty.as_str()),
        _ => true,
    };
    FieldDescriptor { name: f.name.clone(), ty: f.ty.clone(), location, required }
}

/// The indices of the fields with role `loc`, in declaration order.
pub fn positions_of(fields: &Vec<FieldDescriptor>, loc: Location) -> (r: Vec<usize>)
    ensures
        r@.len() == positions(fields.deep_view(), loc).len(),
        forall|k: int| 0 <= k < r@.len() ==> r@[k] as int == positions(fields.deep_view(), loc)[k],
{
    let ghost fs = fields.deep_view();
    let mut r: Vec<usize> = Vec::new();
    let mut i: usize = 0;
    assert(fs.take(0) == Seq::<FieldView>::empty());
    while i < fields.len()
        invariant
            i <= fields.len(),
            fs == fields.deep_view(),
            r@.len() == positions(fs.take(i as int), loc).len(),
            forall|k: int| 0 <= k < r@.len() ==> r@[k] as int == positions(fs.take(i as int), loc)[k],
        decreases fields.len() - i,
    {
        proof {
            assert(fs.take(i + 1).drop_last() == fs.take(i as int));
            assert(fs.take(i + 1).last() == fields[i as int].deep_view());
        }
        if fields[i].location == loc {
            r.push(i);
        }
        i += 1;
    }
    assert(fs.take(i as int) == fs);
    r
}

/// How many fields of a struct have each role.
#[derive(Clone, Copy, Debug, PartialEq, Eq, Structural)]
pub struct RoleCounts {
    pub path: usize,
    pub query: usize,
    pub header: usize,
    pub body_member: usize,
    pub newtype_body: usize,
}

/// The number of fields of each role.
pub fn count_roles(fields: &Vec<FieldDescriptor>) -> (c: RoleCounts)
    ensures
        c.path == positions(fields.deep_view(), Location::Path).len(),
        c.query == positions(fields.deep_view(), Location::Query).len(),
        c.header == positions(fields.deep_view(), Location::Header).len(),
        c.body_member == positions(fields.deep_view(), Location::BodyMember).len(),
        c.newtype_body == positions(fields.deep_view(), Location::NewtypeBody).len(),
{
    RoleCounts {
        path: positions_of(fields, Location::Path).len(),
        query: positions_of(fields, Location::Query).len(),
        header: positions_of(fields, Location::Header).len(),
        body_member: positions_of(fields, Location::BodyMember).len(),
        newtype_body: positions_of(fields, Location::NewtypeBody).len(),
    }
}

/// Gives each declared field of a struct its role and checks the struct as a whole.
pub fn classify(block: Block, parsed: &Vec<ParsedField>) -> (r: Result<
    Vec<FieldDescriptor>,
    ValidationError,
>)
    ensures
        match r {
            Ok(fs) => classified(block, parsed.deep_view()) == Ok::<
                Seq<FieldView>,
                ValidationErrorView,
            >(fs.deep_view()),
            Err(e) => classified(block, parsed.deep_view()) == Err::<
                Seq<FieldView>,
                ValidationErrorView,
            >(e.deep_view()),
        },
        r matches Ok(fs) ==> body_exclusive(fs.deep_view()) && roles_required(fs.deep_view()),
{
    let mut fields: Vec<FieldDescriptor> = Vec::new();
    let mut i: usize = 0;
    while i < parsed.len()
        invariant
            i <= parsed.len(),
            fields.len() == i,
            forall|k: int|
                0 <= k < i ==> (#[trigger] fields[k]).deep_view() == describe(
                    parsed[k].deep_view(),
                ),
        decreases parsed.len() - i,
    {
        let d = descriptor(&parsed[i]);
        fields.push(d);
        i += 1;
    }
    assert(fields.deep_view() =~= describe_all(parsed.deep_view()));
    let whole = positions_of(&fields, Location::NewtypeBody);
    let members = positions_of(&fields, Location::BodyMember);
    proof {
        crate::schema::lemma_positions(fields.deep_view(), Location::NewtypeBody);
        crate::schema::lemma_positions(fields.deep_view(), Location::BodyMember);
    }
    if whole.len() >= 2 {
        Err(
            ValidationError::DuplicateNewtypeBody {
                block,
                first: fields[whole[0]].name.clone(),
                second: fields[whole[1]].name.clone(),
            },
        )
    } else if whole.len() == 1 && members.len() >= 1 {
        Err(
            ValidationError::BodyConflict {
                block,
                whole: fields[whole[0]].name.clone(),
                member: fields[members[0]].name.clone(),
            },
        )
    } else {
        Ok(fields)
    }
}

} // verus!
