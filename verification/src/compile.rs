//! The compiler: parse, classify, bind. A description gives an endpoint or
//! the first thing that is wrong with it; nothing in between.

use vstd::prelude::*;
use crate::classify::{classified, classify, describe_all};
use crate::description::{RawDescription, RawItemView, RawSectionView};
use crate::error::{CompileError, CompileErrorView, ValidationError, ValidationErrorView};
use crate::parser::{field_of, field_ok, lemma_fields_distinct, parse, parsed};
use crate::schema::{
    Block, bound, distinct_names, EndpointDefinition, EndpointView, FieldDescriptor, FieldView,
    Location, names_at, ParsedFieldView, positions, rank, roles_required, template_for, well_formed,
    Which,
};
use crate::template::{PathTemplate, SegmentView, var_names};

verus! {

/// The first position among the first `n` at which the two runs of names
/// differ, or `n`.
pub open spec fn mismatch(vars: Seq<Seq<char>>, names: Seq<Seq<char>>, n: int) -> int
    decreases n,
{
    if n <= 0 {
        0
    } else {
        let m = mismatch(vars, names, n - 1);
        if m < n - 1 {
            m
        } else if vars[n - 1] != names[n - 1] {
            n - 1
        } else {
            n
        }
    }
}

/// What keeps the variables of a template from being bound to the path
/// fields: there are more or fewer of them; or, at the first position where
/// the names differ, the variable is not the path field of that position.
pub open spec fn binding_fault(which: Which, vars: Seq<Seq<char>>, names: Seq<Seq<char>>)
    -> Option<ValidationErrorView> {
    if vars.len() != names.len() {
        Some(
            ValidationErrorView::TemplateMismatch {
                template: which,
                variables: vars.len() as int,
                fields: names.len() as int,
            },
        )
    } else if mismatch(vars, names, vars.len() as int) < vars.len() {
        Some(
            ValidationErrorView::UnboundPathVariable {
                template: which,
                position: mismatch(vars, names, vars.len() as int),
                variable: vars[mismatch(vars, names, vars.len() as int)],
            },
        )
    } else {
        None
    }
}

/// What keeps a template, where there is one, from being bound.
pub open spec fn template_fault(
    which: Which,
    template: Option<Seq<SegmentView>>,
    names: Seq<Seq<char>>,
) -> Option<ValidationErrorView> {
    match template {
        Some(t) => binding_fault(which, var_names(t), names),
        None => None,
    }
}

/// Before the first mismatch the two runs agree; at it they differ.
pub proof fn lemma_mismatch(vars: Seq<Seq<char>>, names: Seq<Seq<char>>, n: int)
    requires
        0 <= n <= vars.len(),
        n <= names.len(),
    ensures
        0 <= mismatch(vars, names, n) <= n,
        forall|k: int| 0 <= k < mismatch(vars, names, n) ==> vars[k] == names[k],
        mismatch(vars, names, n) < n ==> vars[mismatch(vars, names, n)] != names[mismatch(
            vars,
            names,
            n,
        )],
    decreases n,
{
    if n > 0 {
        lemma_mismatch(vars, names, n - 1);
    }
}

/// Variables without a fault are the path fields, name by name.
pub proof fn lemma_bound(which: Which, vars: Seq<Seq<char>>, names: Seq<Seq<char>>)
    ensures
        binding_fault(which, vars, names) is None <==> vars == names,
{
    if vars.len() == names.len() {
        lemma_mismatch(vars, names, vars.len() as int);
        if binding_fault(which, vars, names) is None {
            assert(vars =~= names);
        }
    }
}

/// The endpoint that a description gives: it is parsed, then the fields of
/// the request and of the response are classified, then the legacy and the
/// stable template are bound to the path fields of the request. The first
/// stage that fails gives the error.
pub open spec fn compiled(desc: Seq<RawSectionView>) -> Result<EndpointView, CompileErrorView> {
    match parsed(desc) {
        Err(e) => Err(CompileErrorView::Parse(e)),
        Ok(ir) => match classified(Block::Request, ir.request) {
            Err(e) => Err(CompileErrorView::Validation { endpoint: ir.metadata.name, error: e }),
            Ok(request_fields) => match classified(Block::Response, ir.response) {
                Err(e) => Err(CompileErrorView::Validation { endpoint: ir.metadata.name, error: e }),
                Ok(response_fields) => {
                    let legacy = template_for(ir.metadata.legacy_path);
                    let stable = template_for(ir.metadata.stable_path);
                    let names = names_at(request_fields, Location::Path);
                    match template_fault(Which::Legacy, legacy, names) {
                        Some(e) => Err(
                            CompileErrorView::Validation { endpoint: ir.metadata.name, error: e },
                        ),
                        None => match template_fault(Which::Stable, stable, names) {
                            Some(e) => Err(
                            CompileErrorView::Validation { endpoint: ir.metadata.name, error: e },
                        ),
                            None => Ok(
                                EndpointView {
                                    metadata: ir.metadata,
                                    request_fields,
                                    response_fields,
                                    error_type: ir.error_type,
                                    legacy,
                                    stable,
                                },
                            ),
                        },
                    }
                },
            },
        },
    }
}

/// The names of the fields with role `loc`, in declaration order.
pub fn names_with(fields: &Vec<FieldDescriptor>, loc: Location) -> (names: Vec<String>)
    ensures
        names.deep_view() == names_at(fields.deep_view(), loc),
{
    let ghost fs = fields.deep_view();
    let mut names: Vec<String> = Vec::new();
    let mut i: usize = 0;
    assert(fs.take(0) == Seq::<FieldView>::empty());
    while i < fields.len()
        invariant
            i <= fields.len(),
            fs == fields.deep_view(),
            names.deep_view() == names_at(fs.take(i as int), loc),
        decreases fields.len() - i,
    {
        let ghost before = names.deep_view();
        proof {
            assert(fs.take(i + 1).drop_last() == fs.take(i as int));
            assert(fs.take(i + 1).last() == fields[i as int].deep_view());
        }
        if fields[i].location == loc {
            names.push(fields[i].name.clone());
            assert(names.deep_view() == before.push(fields[i as int].name@));
        }
        i += 1;
    }
    assert(fs.take(i as int) == fs);
    names
}

/// What a fault found stands for.
pub open spec fn fault_view(r: Option<ValidationError>) -> Option<ValidationErrorView> {
    match r {
        Some(e) => Some(e.deep_view()),
        None => None,
    }
}

/// Binds the variables of a template to the path fields, by position.
pub fn bind(which: Which, template: &PathTemplate, names: &Vec<String>) -> (r: Option<
    ValidationError,
>)
    ensures
        fault_view(r) == binding_fault(which, var_names(template.deep_view()), names.deep_view()),
{
    let vars = template.variables();
    let ghost vs = vars.deep_view();
    let ghost ns = names.deep_view();
    if vars.len() != names.len() {
        return Some(
            ValidationError::TemplateMismatch {
                template: which,
                variables: vars.len(),
                fields: names.len(),
            },
        );
    }
    let mut i: usize = 0;
    while i < vars.len()
        invariant
            i <= vars.len(),
            vars.len() == names.len(),
            vs == vars.deep_view(),
            ns == names.deep_view(),
            vs == var_names(template.deep_view()),
            mismatch(vs, ns, i as int) == i,
        decreases vars.len() - i,
    {
        if !crate::text::same_text(vars[i].as_str(), names[i].as_str()) {
            proof {
                assert(vs[i as int] == vars[i as int]@);
                assert(ns[i as int] == names[i as int]@);
                assert(mismatch(vs, ns, i + 1) == i);
                lemma_mismatch_stays(vs, ns, i + 1, vars.len() as int);
            }
            return Some(
                ValidationError::UnboundPathVariable {
                    template: which,
                    position: i,
                    variable: vars[i].clone(),
                },
            );
        }
        i += 1;
    }
    None
}

proof fn lemma_mismatch_stays(vars: Seq<Seq<char>>, names: Seq<Seq<char>>, n: int, m: int)
    requires
        0 <= n <= m,
        mismatch(vars, names, n) < n,
    ensures
        mismatch(vars, names, m) == mismatch(vars, names, n),
    decreases m - n,
{
    if n < m {
        lemma_mismatch_stays(vars, names, n, m - 1);
    }
}

/// The fields of a response have no role in a path or a query.
proof fn lemma_response_roles(items: Seq<RawItemView>, n: int)
    requires
        0 <= n <= items.len(),
        forall|i: int| 0 <= i < items.len() ==> field_ok(Block::Response, #[trigger] items[i]),
    ensures
        rank(describe_all(items.map_values(|it: RawItemView| field_of(it))), Location::Path, n)
            == 0,
        rank(describe_all(items.map_values(|it: RawItemView| field_of(it))), Location::Query, n)
            == 0,
    decreases n,
{
    if n > 0 {
        lemma_response_roles(items, n - 1);
        assert(field_ok(Block::Response, items[n - 1]));
    }
}

/// An endpoint that a description gives is well formed: in particular each
/// of its templates has the path fields of the request as its variables, by
/// name and in order, and in neither struct is a whole-body field joined by
/// another body field.
pub proof fn law_compiled_well_formed(desc: Seq<RawSectionView>)
    ensures
        compiled(desc) matches Ok(ep) ==> well_formed(ep),
{
    if let Ok(ep) = compiled(desc) {
        let ir = parsed(desc)->Ok_0;
        let names = crate::description::section_names(desc);
        let rq = crate::description::index_of(names, "request"@)->0;
        let rs = crate::description::index_of(names, "response"@)->0;
        let req_items = desc[rq].items;
        let resp_items = desc[rs].items;
        lemma_fields_distinct(Block::Request, req_items, req_items.len() as int);
        lemma_fields_distinct(Block::Response, resp_items, resp_items.len() as int);
        lemma_response_roles(resp_items, resp_items.len() as int);
        let names = names_at(ep.request_fields, Location::Path);
        if ep.legacy is Some {
            lemma_bound(Which::Legacy, var_names(ep.legacy->0), names);
        }
        if ep.stable is Some {
            lemma_bound(Which::Stable, var_names(ep.stable->0), names);
        }
        lemma_roles(ir.request);
        lemma_roles(ir.response);
        assert(distinct_names(ep.request_fields));
        assert(distinct_names(ep.response_fields));
    }
}

/// Whether a template, where there is one, has another number of
/// variables than there are path fields.
pub open spec fn arity_differs(template: Option<Seq<SegmentView>>, fields: Seq<FieldView>)
    -> bool {
    template is Some && crate::template::count_vars(template->0) != names_at(
        fields,
        Location::Path,
    ).len()
}

/// A description in which a template has more or fewer variables than the
/// request has path fields gives no endpoint: it is refused when it is
/// compiled, whatever else it holds.
pub proof fn law_arity_refused(desc: Seq<RawSectionView>)
    requires
        parsed(desc) is Ok,
        classified(Block::Request, parsed(desc)->Ok_0.request) is Ok,
        arity_differs(
            template_for(parsed(desc)->Ok_0.metadata.legacy_path),
            classified(Block::Request, parsed(desc)->Ok_0.request)->Ok_0,
        ) || arity_differs(
            template_for(parsed(desc)->Ok_0.metadata.stable_path),
            classified(Block::Request, parsed(desc)->Ok_0.request)->Ok_0,
        ),
    ensures
        compiled(desc) is Err,
{
    let ir = parsed(desc)->Ok_0;
    let legacy = template_for(ir.metadata.legacy_path);
    let stable = template_for(ir.metadata.stable_path);
    if legacy is Some {
        crate::template::lemma_count_names(legacy->0);
    }
    if stable is Some {
        crate::template::lemma_count_names(stable->0);
    }
}

/// Fields of which exactly one is the whole body and at least one is a
/// member of the body are refused with a body conflict, in a request and in
/// a response.
pub proof fn law_body_conflict(block: Block, fields: Seq<ParsedFieldView>)
    requires
        positions(describe_all(fields), Location::NewtypeBody).len() == 1,
        positions(describe_all(fields), Location::BodyMember).len() >= 1,
    ensures
        classified(block, fields) is Err,
        classified(block, fields)->Err_0 is BodyConflict,
{
}

/// A description whose request has exactly one whole-body field and a
/// member field gives no endpoint but a body conflict.
pub proof fn law_body_conflict_refused(desc: Seq<RawSectionView>)
    requires
        parsed(desc) is Ok,
        positions(describe_all(parsed(desc)->Ok_0.request), Location::NewtypeBody).len() == 1,
        positions(describe_all(parsed(desc)->Ok_0.request), Location::BodyMember).len() >= 1,
    ensures
        compiled(desc) is Err,
        compiled(desc)->Err_0 is Validation,
        compiled(desc)->Err_0->error is BodyConflict,
        compiled(desc)->Err_0->endpoint == parsed(desc)->Ok_0.metadata.name,
{
}

proof fn lemma_roles(parsed: Seq<ParsedFieldView>)
    ensures
        roles_required(describe_all(parsed)),
{
}

/// What a result of compiling stands for.
pub open spec fn compile_read(r: Result<EndpointDefinition, CompileError>) -> Result<
    EndpointView,
    CompileErrorView,
> {
    match r {
        Ok(def) => Ok(def.deep_view()),
        Err(e) => Err(e.deep_view()),
    }
}

/// The template of a path text, where there is one.
fn template_from(path: &Option<String>) -> (t: Option<PathTemplate>)
    ensures
        t.deep_view() == template_for(path.deep_view()),
{
    match path {
        Some(p) => Some(PathTemplate::parse(p.as_str())),
        None => None,
    }
}

/// Compiles a description into an endpoint.
pub fn compile(desc: &RawDescription) -> (r: Result<EndpointDefinition, CompileError>)
    ensures
        compile_read(r) == compiled(desc.deep_view()),
{
    proof {
        law_compiled_well_formed(desc.deep_view());
    }
    let ir = match parse(desc) {
        Ok(ir) => ir,
        Err(e) => {
            return Err(CompileError::Parse(e));
        },
    };
    let request_fields = match classify(Block::Request, &ir.request) {
        Ok(fs) => fs,
        Err(e) => {
            return Err(CompileError::Validation { endpoint: ir.metadata.name.clone(), error: e });
        },
    };
    let response_fields = match classify(Block::Response, &ir.response) {
        Ok(fs) => fs,
        Err(e) => {
            return Err(CompileError::Validation { endpoint: ir.metadata.name.clone(), error: e });
        },
    };
    let legacy = template_from(&ir.metadata.legacy_path);
    let stable = template_from(&ir.metadata.stable_path);
    let names = names_with(&request_fields, Location::Path);
    match &legacy {
        Some(t) => match bind(Which::Legacy, t, &names) {
            Some(e) => {
                return Err(CompileError::Validation { endpoint: ir.metadata.name.clone(), error: e });
            },
            None => {},
        },
        None => {},
    }
    match &stable {
        Some(t) => match bind(Which::Stable, t, &names) {
            Some(e) => {
                return Err(CompileError::Validation { endpoint: ir.metadata.name.clone(), error: e });
            },
            None => {},
        },
        None => {},
    }
    Ok(
        EndpointDefinition::assemble(
            ir.metadata,
            request_fields,
            response_fields,
            ir.error_type,
            legacy,
            stable,
        ),
    )
}

} // verus!
