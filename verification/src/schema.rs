//! The data model of an endpoint definition.

use vstd::prelude::*;
use crate::template::{PathTemplate, SegmentView, template_of, var_names};

verus! {

/// The verb of a request.
#[derive(Clone, Copy, Debug, PartialEq, Eq, Structural)]
pub enum Method {
    Get,
    Post,
    Put,
    Delete,
    Patch,
    Head,
    Options,
}

/// What a caller has to present. Carried for tools that read the definition;
/// nothing here acts on it.
#[derive(Clone, Copy, Debug, PartialEq, Eq, Structural)]
pub enum Authentication {
    NoAuthentication,
    AccessToken,
    ServerSignature,
}

/// A protocol version, `major.minor`.
#[derive(Clone, Copy, Debug, PartialEq, Eq, Structural)]
pub struct Version {
    pub major: u8,
    pub minor: u8,
}

/// The role of a field on the wire.
#[derive(Clone, Copy, Debug, PartialEq, Eq, Structural)]
pub enum Location {
    Path,
    Query,
    Header,
    BodyMember,
    NewtypeBody,
}

/// The attribute that a field was declared with.
#[derive(Clone, Copy, Debug, PartialEq, Eq, Structural)]
pub enum Tag {
    Path,
    Query,
    Header,
    Body,
}

/// Which of the two structs of an endpoint.
#[derive(Clone, Copy, Debug, PartialEq, Eq, Structural)]
pub enum Block {
    Request,
    Response,
}

/// Which of the two path templates of an endpoint.
#[derive(Clone, Copy, Debug, PartialEq, Eq, Structural)]
pub enum Which {
    Legacy,
    Stable,
}

/// Which path template is used where an endpoint has both.
#[derive(Clone, Copy, Debug, PartialEq, Eq, Structural)]
pub enum Precedence {
    StableFirst,
    LegacyFirst,
}

/// What is recorded about an endpoint besides its fields.
#[derive(Debug)]
pub struct Metadata {
    pub description: String,
    pub method: Method,
    pub name: String,
    pub legacy_path: Option<String>,
    pub stable_path: Option<String>,
    pub rate_limited: bool,
    pub authentication: Authentication,
    pub introduced: Version,
    pub deprecated: Option<Version>,
    pub removed: Option<Version>,
}

pub struct MetadataView {
    pub description: Seq<char>,
    pub method: Method,
    pub name: Seq<char>,
    pub legacy_path: Option<Seq<char>>,
    pub stable_path: Option<Seq<char>>,
    pub rate_limited: bool,
    pub authentication: Authentication,
    pub introduced: Version,
    pub deprecated: Option<Version>,
    pub removed: Option<Version>,
}

impl DeepView for Metadata {
    type V = MetadataView;

    open spec fn deep_view(&self) -> MetadataView {
        MetadataView {
            description: self.description@,
            method: self.method,
            name: self.name@,
            legacy_path: self.legacy_path.deep_view(),
            stable_path: self.stable_path.deep_view(),
            rate_limited: self.rate_limited,
            authentication: self.authentication,
            introduced: self.introduced,
            deprecated: self.deprecated,
            removed: self.removed,
        }
    }
}

/// A field as it was declared: its name, its type and its attribute, if any.
#[derive(Debug)]
pub struct ParsedField {
    pub name: String,
    pub ty: String,
    pub tag: Option<Tag>,
}

pub struct ParsedFieldView {
    pub name: Seq<char>,
    pub ty: Seq<char>,
    pub tag: Option<Tag>,
}

impl DeepView for ParsedField {
    type V = ParsedFieldView;

    open spec fn deep_view(&self) -> ParsedFieldView {
        ParsedFieldView { name: self.name@, ty: self.ty@, tag: self.tag }
    }
}

/// A field with its role. `required` records whether a value is always
/// expected on the wire; a field that is not required is left out when it
/// holds no value.
#[derive(Debug)]
pub struct FieldDescriptor {
    pub name: String,
    pub ty: String,
    pub location: Location,
    pub required: bool,
}

pub struct FieldView {
    pub name: Seq<char>,
    pub ty: Seq<char>,
    pub location: Location,
    pub required: bool,
}

impl DeepView for FieldDescriptor {
    type V = FieldView;

    open spec fn deep_view(&self) -> FieldView {
        FieldView {
            name: self.name@,
            ty: self.ty@,
            location: self.location,
            required: self.required,
        }
    }
}

/// The indices of the fields with role `loc`, in declaration order.
pub open spec fn positions(fields: Seq<FieldView>, loc: Location) -> Seq<int>
    decreases fields.len(),
{
    if fields.len() == 0 {
        Seq::empty()
    } else if fields.last().location == loc {
        positions(fields.drop_last(), loc).push(fields.len() - 1)
    } else {
        positions(fields.drop_last(), loc)
    }
}

/// The names of the fields with role `loc`, in declaration order.
pub open spec fn names_at(fields: Seq<FieldView>, loc: Location) -> Seq<Seq<char>>
    decreases fields.len(),
{
    if fields.len() == 0 {
        Seq::empty()
    } else if fields.last().location == loc {
        names_at(fields.drop_last(), loc).push(fields.last().name)
    } else {
        names_at(fields.drop_last(), loc)
    }
}

/// No two fields have the same name.
pub open spec fn distinct_names(fields: Seq<FieldView>) -> bool {
    forall|i: int, j: int|
        0 <= i < j < fields.len() ==> (#[trigger] fields[i]).name != (#[trigger] fields[j]).name
}

/// At most one field is the whole body, and then no field is a member of it.
pub open spec fn body_exclusive(fields: Seq<FieldView>) -> bool {
    let n = positions(fields, Location::NewtypeBody).len();
    let m = positions(fields, Location::BodyMember).len();
    n == 0 || (n == 1 && m == 0)
}

/// A field that is a path segment, a header or the whole body always has a value.
pub open spec fn roles_required(fields: Seq<FieldView>) -> bool {
    forall|i: int|
        0 <= i < fields.len() ==> ((#[trigger] fields[i]).location == Location::Path
            || fields[i].location == Location::Header || fields[i].location
            == Location::NewtypeBody) ==> fields[i].required
}

/// How the body of a struct is built.
pub enum Strategy {
    /// No body.
    Empty,
    /// The value of the field at this index is the body.
    Newtype(int),
    /// An object of the member fields.
    Object,
}

/// The body strategy of a struct. A request without body fields has no body;
/// a response without a whole-body field is an object.
pub open spec fn strategy_of(fields: Seq<FieldView>, block: Block) -> Strategy {
    let whole = positions(fields, Location::NewtypeBody);
    if whole.len() > 0 {
        Strategy::Newtype(whole[0])
    } else if block == Block::Request && positions(fields, Location::BodyMember).len() == 0 {
        Strategy::Empty
    } else {
        Strategy::Object
    }
}

/// The positions of a role are in range, ascending, hold that role and no
/// others do; the names of the role are the names at these positions.
pub proof fn lemma_positions(fields: Seq<FieldView>, loc: Location)
    ensures
        forall|k: int|
            0 <= k < positions(fields, loc).len() ==> 0 <= (#[trigger] positions(fields, loc)[k])
                < fields.len() && fields[positions(fields, loc)[k]].location == loc,
        forall|k: int, l: int|
            0 <= k < l < positions(fields, loc).len() ==> positions(fields, loc)[k] < positions(
                fields,
                loc,
            )[l],
        forall|i: int|
            0 <= i < fields.len() && (#[trigger] fields[i]).location == loc ==> positions(
                fields,
                loc,
            ).contains(i),
        names_at(fields, loc).len() == positions(fields, loc).len(),
        forall|k: int|
            0 <= k < positions(fields, loc).len() ==> (#[trigger] names_at(fields, loc)[k])
                == fields[positions(fields, loc)[k]].name,
    decreases fields.len(),
{
    if fields.len() > 0 {
        let init = fields.drop_last();
        lemma_positions(init, loc);
        let ps = positions(fields, loc);
        let qs = positions(init, loc);
        assert forall|i: int| 0 <= i < fields.len() && (#[trigger] fields[i]).location
            == loc implies ps.contains(i) by {
            if i < init.len() {
                assert(init[i] == fields[i]);
                assert(qs.contains(i));
                let k = choose|k: int| 0 <= k < qs.len() && qs[k] == i;
                assert(ps[k] == i);
            } else {
                assert(ps[ps.len() - 1] == i);
            }
        }
        assert forall|k: int| 0 <= k < ps.len() implies 0 <= (#[trigger] ps[k]) < fields.len()
            && fields[ps[k]].location == loc by {
            if k < qs.len() {
                assert(ps[k] == qs[k]);
                assert(init[qs[k]] == fields[qs[k]]);
            }
        }
        assert forall|k: int| 0 <= k < ps.len() implies (#[trigger] names_at(fields, loc)[k])
            == fields[ps[k]].name by {
            if k < qs.len() {
                assert(ps[k] == qs[k]);
                assert(names_at(fields, loc)[k] == names_at(init, loc)[k]);
                assert(init[qs[k]] == fields[qs[k]]);
            }
        }
    }
}

/// The number of fields with role `loc` among the first `n`.
pub open spec fn rank(fields: Seq<FieldView>, loc: Location, n: int) -> nat
    decreases n,
{
    if n <= 0 {
        0
    } else {
        rank(fields, loc, n - 1) + if fields[n - 1].location == loc {
            1nat
        } else {
            0nat
        }
    }
}

/// The rank counts the positions, and the names, of a role.
pub proof fn lemma_rank(fields: Seq<FieldView>, loc: Location, n: int)
    requires
        0 <= n <= fields.len(),
    ensures
        rank(fields, loc, n) == positions(fields.take(n), loc).len(),
        rank(fields, loc, n) == names_at(fields.take(n), loc).len(),
        rank(fields, loc, n) <= n,
    decreases n,
{
    if n > 0 {
        lemma_rank(fields, loc, n - 1);
        assert(fields.take(n).drop_last() == fields.take(n - 1));
        assert(fields.take(n).last() == fields[n - 1]);
    }
}

/// An endpoint as a value of specifications.
pub struct EndpointView {
    pub metadata: MetadataView,
    pub request_fields: Seq<FieldView>,
    pub response_fields: Seq<FieldView>,
    pub error_type: Option<Seq<char>>,
    pub legacy: Option<Seq<SegmentView>>,
    pub stable: Option<Seq<SegmentView>>,
}

/// The template that a path text stands for, where there is one.
pub open spec fn template_for(path: Option<Seq<char>>) -> Option<Seq<SegmentView>> {
    match path {
        Some(p) => Some(template_of(p)),
        None => None,
    }
}

/// The variables of the template are the path fields, by name and in order.
pub open spec fn bound(template: Option<Seq<SegmentView>>, fields: Seq<FieldView>) -> bool {
    template matches Some(t) ==> var_names(t) == names_at(fields, Location::Path)
}

/// The rules that hold of the fields of one struct.
pub open spec fn struct_rules(fields: Seq<FieldView>) -> bool {
    &&& distinct_names(fields)
    &&& body_exclusive(fields)
    &&& roles_required(fields)
}

/// What holds of every endpoint: it has a path template; each template is
/// that of its path text and is bound to the path fields of the request; the
/// fields of each struct keep the rules; a response has no path and no query.
pub open spec fn well_formed(ep: EndpointView) -> bool {
    &&& ep.legacy is Some || ep.stable is Some
    &&& ep.legacy == template_for(ep.metadata.legacy_path)
    &&& ep.stable == template_for(ep.metadata.stable_path)
    &&& bound(ep.legacy, ep.request_fields)
    &&& bound(ep.stable, ep.request_fields)
    &&& struct_rules(ep.request_fields)
    &&& struct_rules(ep.response_fields)
    &&& rank(ep.response_fields, Location::Path, ep.response_fields.len() as int) == 0
    &&& rank(ep.response_fields, Location::Query, ep.response_fields.len() as int) == 0
}

/// The template that is used where `prec` is asked for: the preferred one
/// if the endpoint has it, else the other.
pub open spec fn selected(ep: EndpointView, prec: Precedence) -> Option<Seq<SegmentView>> {
    match prec {
        Precedence::StableFirst => if ep.stable is Some {
            ep.stable
        } else {
            ep.legacy
        },
        Precedence::LegacyFirst => if ep.legacy is Some {
            ep.legacy
        } else {
            ep.stable
        },
    }
}

/// An endpoint: its metadata, the fields of its request and of its response
/// with their roles, its error type, and its path templates. It is made by
/// compiling a description and is not changed afterwards.
#[derive(Debug)]
pub struct EndpointDefinition {
    pub(crate) metadata: Metadata,
    pub(crate) request_fields: Vec<FieldDescriptor>,
    pub(crate) response_fields: Vec<FieldDescriptor>,
    pub(crate) error_type: Option<String>,
    pub(crate) legacy: Option<PathTemplate>,
    pub(crate) stable: Option<PathTemplate>,
}

impl DeepView for EndpointDefinition {
    type V = EndpointView;

    closed spec fn deep_view(&self) -> EndpointView {
        EndpointView {
            metadata: self.metadata.deep_view(),
            request_fields: self.request_fields.deep_view(),
            response_fields: self.response_fields.deep_view(),
            error_type: self.error_type.deep_view(),
            legacy: self.legacy.deep_view(),
            stable: self.stable.deep_view(),
        }
    }
}

impl EndpointDefinition {
    #[verifier::type_invariant]
    pub(crate) closed spec fn holds(self) -> bool {
        well_formed(self.deep_view())
    }

    /// Puts an endpoint together from parts that keep the rules.
    pub(crate) fn assemble(
        metadata: Metadata,
        request_fields: Vec<FieldDescriptor>,
        response_fields: Vec<FieldDescriptor>,
        error_type: Option<String>,
        legacy: Option<PathTemplate>,
        stable: Option<PathTemplate>,
    ) -> (def: EndpointDefinition)
        requires
            well_formed(
                EndpointView {
                    metadata: metadata.deep_view(),
                    request_fields: request_fields.deep_view(),
                    response_fields: response_fields.deep_view(),
                    error_type: error_type.deep_view(),
                    legacy: legacy.deep_view(),
                    stable: stable.deep_view(),
                },
            ),
        ensures
            def.deep_view() == (EndpointView {
                metadata: metadata.deep_view(),
                request_fields: request_fields.deep_view(),
                response_fields: response_fields.deep_view(),
                error_type: error_type.deep_view(),
                legacy: legacy.deep_view(),
                stable: stable.deep_view(),
            }),
    {
        EndpointDefinition { metadata, request_fields, response_fields, error_type, legacy, stable }
    }

    /// Every endpoint is well formed: a call brings that into a proof.
    pub fn is_well_formed(&self) -> (r: bool)
        ensures
            r,
            well_formed(self.deep_view()),
    {
        proof {
            use_type_invariant(self);
        }
        true
    }

    /// What is recorded about the endpoint.
    pub fn metadata(&self) -> (m: &Metadata)
        ensures
            m.deep_view() == self.deep_view().metadata,
    {
        &self.metadata
    }

    /// The fields of the request, in declaration order.
    pub fn request_fields(&self) -> (f: &Vec<FieldDescriptor>)
        ensures
            f.deep_view() == self.deep_view().request_fields,
    {
        &self.request_fields
    }

    /// The fields of the response, in declaration order.
    pub fn response_fields(&self) -> (f: &Vec<FieldDescriptor>)
        ensures
            f.deep_view() == self.deep_view().response_fields,
    {
        &self.response_fields
    }

    /// The type that an error response is decoded as, if one was named.
    pub fn error_type(&self) -> (t: &Option<String>)
        ensures
            t.deep_view() == self.deep_view().error_type,
    {
        &self.error_type
    }

    /// The template that is used where `prec` is asked for.
    pub fn template(&self, prec: Precedence) -> (t: &PathTemplate)
        ensures
            Some(t.deep_view()) == selected(self.deep_view(), prec),
            well_formed(self.deep_view()),
    {
        proof {
            use_type_invariant(self);
        }
        match prec {
            Precedence::StableFirst => match &self.stable {
                Some(t) => t,
                None => match &self.legacy {
                    Some(t) => t,
                    None => {
                        proof {
                            assert(false);
                        }
                        unreached()
                    },
                },
            },
            Precedence::LegacyFirst => match &self.legacy {
                Some(t) => t,
                None => match &self.stable {
                    Some(t) => t,
                    None => {
                        proof {
                            assert(false);
                        }
                        unreached()
                    },
                },
            },
        }
    }
}

} // verus!
