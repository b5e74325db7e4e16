//! The schema parser: from a description to the metadata and the declared
//! fields of an endpoint, or to what is wrong with the description.

use vstd::prelude::*;
use crate::description::{
    find_name, index_of, item_names, lemma_index_of, names_of_items, names_of_sections,
    RawDescription, RawItem, RawItemView, RawSectionView, section_names,
};
use crate::error::{Key, ParseError, SectionKind};
use crate::lexicon::{
    authentication_for, authentication_of, flag_for, flag_of, is_key, key_text, key_word, known_key,
    method_for, method_of, section_kind, section_of, tag_for, tag_of, version_for, version_of,
};
use crate::schema::{Block, Metadata, MetadataView, ParsedField, ParsedFieldView, Tag, Version};
use crate::text::{identifier, is_identifier};
use vstd::string::StrSliceExecFns;

verus! {

/// What a description holds once it is read: the metadata, the declared
/// fields of the request and of the response, and the error type if one is named.
#[derive(Debug)]
pub struct SchemaIr {
    pub metadata: Metadata,
    pub request: Vec<ParsedField>,
    pub response: Vec<ParsedField>,
    pub error_type: Option<String>,
}

pub struct SchemaIrView {
    pub metadata: MetadataView,
    pub request: Seq<ParsedFieldView>,
    pub response: Seq<ParsedFieldView>,
    pub error_type: Option<Seq<char>>,
}

impl DeepView for SchemaIr {
    type V = SchemaIrView;

    open spec fn deep_view(&self) -> SchemaIrView {
        SchemaIrView {
            metadata: self.metadata.deep_view(),
            request: self.request.deep_view(),
            response: self.response.deep_view(),
            error_type: self.error_type.deep_view(),
        }
    }
}

/// What is wrong with the section at `i`: its name is not known, or an
/// earlier section has it.
pub open spec fn section_fault(names: Seq<Seq<char>>, i: int) -> Option<ParseError> {
    if section_of(names[i]) is None {
        Some(ParseError::UnknownSection(i as usize))
    } else if index_of(names.take(i), names[i]) is Some {
        Some(ParseError::DuplicateSection(i as usize))
    } else {
        None
    }
}

/// The fault of the first of the first `n` sections that has one.
pub open spec fn first_section_fault(names: Seq<Seq<char>>, n: int) -> Option<ParseError>
    decreases n,
{
    if n <= 0 {
        None
    } else {
        match first_section_fault(names, n - 1) {
            Some(e) => Some(e),
            None => section_fault(names, n - 1),
        }
    }
}

/// What is wrong with the metadata entry at `i`: it has attributes or a key
/// that is not known, or an earlier entry has its key.
pub open spec fn entry_fault(items: Seq<RawItemView>, i: int) -> Option<ParseError> {
    if items[i].attrs.len() > 0 || !is_key(items[i].name) {
        Some(ParseError::UnknownKey(i as usize))
    } else if index_of(item_names(items).take(i), items[i].name) is Some {
        Some(ParseError::DuplicateKey(i as usize))
    } else {
        None
    }
}

/// The fault of the first of the first `n` metadata entries that has one.
pub open spec fn first_entry_fault(items: Seq<RawItemView>, n: int) -> Option<ParseError>
    decreases n,
{
    if n <= 0 {
        None
    } else {
        match first_entry_fault(items, n - 1) {
            Some(e) => Some(e),
            None => entry_fault(items, n - 1),
        }
    }
}

/// The text that the entries give for a key.
pub open spec fn text_at(items: Seq<RawItemView>, key: Key) -> Option<Seq<char>> {
    match index_of(item_names(items), key_text(key)) {
        Some(i) => Some(items[i].value),
        None => None,
    }
}

/// The version that the entries give for a key that need not be there.
pub open spec fn version_at(items: Seq<RawItemView>, key: Key) -> Option<Version> {
    match text_at(items, key) {
        Some(t) => version_of(t),
        None => None,
    }
}

/// The metadata that the entries of the metadata section give. The first
/// entry at fault is reported; then, key by key in the order of the record,
/// a key that is missing and a value that cannot be read. Of the two paths
/// one may be missing.
pub open spec fn metadata_of(items: Seq<RawItemView>) -> Result<MetadataView, ParseError> {
    let description = text_at(items, Key::Description);
    let method = text_at(items, Key::Method);
    let name = text_at(items, Key::Name);
    let legacy = text_at(items, Key::LegacyPath);
    let stable = text_at(items, Key::StablePath);
    let rate = text_at(items, Key::RateLimited);
    let auth = text_at(items, Key::Authentication);
    let introduced = text_at(items, Key::Introduced);
    let deprecated = text_at(items, Key::Deprecated);
    let removed = text_at(items, Key::Removed);
    if first_entry_fault(items, items.len() as int) is Some {
        Err(first_entry_fault(items, items.len() as int)->0)
    } else if description is None {
        Err(ParseError::MissingKey(Key::Description))
    } else if method is None {
        Err(ParseError::MissingKey(Key::Method))
    } else if method_of(method->0) is None {
        Err(ParseError::InvalidValue(Key::Method))
    } else if name is None {
        Err(ParseError::MissingKey(Key::Name))
    } else if legacy is None && stable is None {
        Err(ParseError::MissingKey(Key::StablePath))
    } else if rate is None {
        Err(ParseError::MissingKey(Key::RateLimited))
    } else if flag_of(rate->0) is None {
        Err(ParseError::InvalidValue(Key::RateLimited))
    } else if auth is None {
        Err(ParseError::MissingKey(Key::Authentication))
    } else if authentication_of(auth->0) is None {
        Err(ParseError::InvalidValue(Key::Authentication))
    } else if introduced is None {
        Err(ParseError::MissingKey(Key::Introduced))
    } else if version_of(introduced->0) is None {
        Err(ParseError::InvalidValue(Key::Introduced))
    } else if deprecated is Some && version_of(deprecated->0) is None {
        Err(ParseError::InvalidValue(Key::Deprecated))
    } else if removed is Some && version_of(removed->0) is None {
        Err(ParseError::InvalidValue(Key::Removed))
    } else {
        Ok(
            MetadataView {
                description: description->0,
                method: method_of(method->0)->0,
                name: name->0,
                legacy_path: legacy,
                stable_path: stable,
                rate_limited: flag_of(rate->0)->0,
                authentication: authentication_of(auth->0)->0,
                introduced: version_of(introduced->0)->0,
                deprecated: version_at(items, Key::Deprecated),
                removed: version_at(items, Key::Removed),
            },
        )
    }
}

/// The attribute of an item that has at most one.
pub open spec fn tag_in(it: RawItemView) -> Option<Tag> {
    if it.attrs.len() == 1 {
        tag_of(it.attrs[0])
    } else {
        None
    }
}

/// Whether an item is a field of the block: an identifier, a type, and at
/// most one attribute, which is one that the block knows. A response knows
/// `header` and `body` only.
pub open spec fn field_ok(block: Block, it: RawItemView) -> bool {
    &&& is_identifier(it.name)
    &&& it.value.len() > 0
    &&& it.attrs.len() <= 1
    &&& it.attrs.len() == 1 ==> tag_of(it.attrs[0]) is Some
    &&& it.attrs.len() == 1 && block == Block::Response ==> tag_of(it.attrs[0]) == Some(
        Tag::Header,
    ) || tag_of(it.attrs[0]) == Some(Tag::Body)
}

/// The field that an item declares.
pub open spec fn field_of(it: RawItemView) -> ParsedFieldView {
    ParsedFieldView { name: it.name, ty: it.value, tag: tag_in(it) }
}

/// What is wrong with the field at `i`.
pub open spec fn field_fault(block: Block, items: Seq<RawItemView>, i: int) -> Option<
    ParseError,
> {
    if !field_ok(block, items[i]) {
        Some(ParseError::MalformedField(block, i as usize))
    } else if index_of(item_names(items).take(i), items[i].name) is Some {
        Some(ParseError::DuplicateField(block, i as usize))
    } else {
        None
    }
}

/// The fault of the first of the first `n` fields that has one.
pub open spec fn first_field_fault(block: Block, items: Seq<RawItemView>, n: int) -> Option<
    ParseError,
>
    decreases n,
{
    if n <= 0 {
        None
    } else {
        match first_field_fault(block, items, n - 1) {
            Some(e) => Some(e),
            None => field_fault(block, items, n - 1),
        }
    }
}

/// The fields that the items of a block declare.
pub open spec fn fields_of(block: Block, items: Seq<RawItemView>) -> Result<
    Seq<ParsedFieldView>,
    ParseError,
> {
    match first_field_fault(block, items, items.len() as int) {
        Some(e) => Err(e),
        None => Ok(items.map_values(|it: RawItemView| field_of(it))),
    }
}

/// The error type that the items of the error section name.
pub open spec fn error_type_of(items: Seq<RawItemView>) -> Result<Seq<char>, ParseError> {
    if items.len() == 1 && items[0].attrs.len() == 0 && items[0].value.len() > 0 {
        Ok(items[0].value)
    } else {
        Err(ParseError::MalformedError)
    }
}

/// What a description holds. The first section at fault is reported; then a
/// section that is missing, of metadata, request and response in this order;
/// then what is wrong in the metadata, in the request, in the response and
/// in the error section, in this order.
pub open spec fn parsed(desc: Seq<RawSectionView>) -> Result<SchemaIrView, ParseError> {
    let names = section_names(desc);
    let m = index_of(names, "metadata"@);
    let rq = index_of(names, "request"@);
    let rs = index_of(names, "response"@);
    let er = index_of(names, "error"@);
    if first_section_fault(names, names.len() as int) is Some {
        Err(first_section_fault(names, names.len() as int)->0)
    } else if m is None {
        Err(ParseError::MissingSection(SectionKind::Metadata))
    } else if rq is None {
        Err(ParseError::MissingSection(SectionKind::Request))
    } else if rs is None {
        Err(ParseError::MissingSection(SectionKind::Response))
    } else if metadata_of(desc[m->0].items) is Err {
        Err(metadata_of(desc[m->0].items)->Err_0)
    } else if fields_of(Block::Request, desc[rq->0].items) is Err {
        Err(fields_of(Block::Request, desc[rq->0].items)->Err_0)
    } else if fields_of(Block::Response, desc[rs->0].items) is Err {
        Err(fields_of(Block::Response, desc[rs->0].items)->Err_0)
    } else if er is Some && error_type_of(desc[er->0].items) is Err {
        Err(ParseError::MalformedError)
    } else {
        Ok(
            SchemaIrView {
                metadata: metadata_of(desc[m->0].items)->Ok_0,
                request: fields_of(Block::Request, desc[rq->0].items)->Ok_0,
                response: fields_of(Block::Response, desc[rs->0].items)->Ok_0,
                error_type: match er {
                    Some(e) => Some(error_type_of(desc[e].items)->Ok_0),
                    None => None,
                },
            },
        )
    }
}

/// The fields of a block have names that are all different.
pub proof fn lemma_fields_distinct(block: Block, items: Seq<RawItemView>, n: int)
    requires
        0 <= n <= items.len(),
        first_field_fault(block, items, n) is None,
    ensures
        forall|i: int, j: int|
            0 <= i < j < n ==> (#[trigger] items[i]).name != (#[trigger] items[j]).name,
        forall|i: int| 0 <= i < n ==> field_ok(block, #[trigger] items[i]),
    decreases n,
{
    if n > 0 {
        lemma_fields_distinct(block, items, n - 1);
        let names = item_names(items);
        lemma_index_of(names.take(n - 1), items[n - 1].name);
        assert forall|i: int| 0 <= i < n - 1 implies (#[trigger] items[i]).name != items[n
            - 1].name by {
            assert(names.take(n - 1)[i] == items[i].name);
        }
    }
}

/// The fault of the first section that has one.
fn check_sections(names: &Vec<String>) -> (r: Option<ParseError>)
    ensures
        r == first_section_fault(names.deep_view(), names.len() as int),
{
    let ghost ns = names.deep_view();
    let mut i: usize = 0;
    while i < names.len()
        invariant
            i <= names.len(),
            ns == names.deep_view(),
            first_section_fault(ns, i as int) is None,
        decreases names.len() - i,
    {
        proof {
            lemma_fault_stays(ns, i + 1, names.len() as int);
        }
        match section_kind(names[i].as_str()) {
            None => {
                return Some(ParseError::UnknownSection(i));
            },
            Some(_) => {},
        }
        match find_name(names, names[i].as_str(), i) {
            Some(_) => {
                return Some(ParseError::DuplicateSection(i));
            },
            None => {},
        }
        i += 1;
    }
    None
}

/// Once a section is at fault, the first fault stays the same.
proof fn lemma_fault_stays(names: Seq<Seq<char>>, n: int, m: int)
    requires
        0 <= n <= m,
    ensures
        first_section_fault(names, n) is Some ==> first_section_fault(names, m)
            == first_section_fault(names, n),
    decreases m - n,
{
    if n < m {
        lemma_fault_stays(names, n, m - 1);
    }
}

proof fn lemma_entry_fault_stays(items: Seq<RawItemView>, n: int, m: int)
    requires
        0 <= n <= m,
    ensures
        first_entry_fault(items, n) is Some ==> first_entry_fault(items, m) == first_entry_fault(
            items,
            n,
        ),
    decreases m - n,
{
    if n < m {
        lemma_entry_fault_stays(items, n, m - 1);
    }
}

proof fn lemma_field_fault_stays(block: Block, items: Seq<RawItemView>, n: int, m: int)
    requires
        0 <= n <= m,
    ensures
        first_field_fault(block, items, n) is Some ==> first_field_fault(block, items, m)
            == first_field_fault(block, items, n),
    decreases m - n,
{
    if n < m {
        lemma_field_fault_stays(block, items, n, m - 1);
    }
}

/// The fault of the first metadata entry that has one.
fn check_entries(items: &Vec<RawItem>, names: &Vec<String>) -> (r: Option<ParseError>)
    requires
        names.deep_view() == item_names(items.deep_view()),
    ensures
        r == first_entry_fault(items.deep_view(), items.len() as int),
{
    let ghost its = items.deep_view();
    let mut i: usize = 0;
    assert(names.deep_view().len() == names.len());
    assert(item_names(items.deep_view()).len() == items.deep_view().len());
    assert(names.len() == items.len());
    while i < items.len()
        invariant
            i <= items.len(),
            names.len() == items.len(),
            its == items.deep_view(),
            names.deep_view() == item_names(its),
            first_entry_fault(its, i as int) is None,
        decreases items.len() - i,
    {
        proof {
            lemma_entry_fault_stays(its, i + 1, items.len() as int);
            assert(its[i as int].attrs.len() == items[i as int].attrs.len());
            assert(names.deep_view()[i as int] == its[i as int].name);
        }
        if items[i].attrs.len() > 0 || !known_key(items[i].name.as_str()) {
            return Some(ParseError::UnknownKey(i));
        }
        match find_name(names, items[i].name.as_str(), i) {
            Some(_) => {
                return Some(ParseError::DuplicateKey(i));
            },
            None => {},
        }
        i += 1;
    }
    None
}

/// The text that the entries give for a key.
fn entry_text<'a>(items: &'a Vec<RawItem>, names: &Vec<String>, key: Key) -> (r: Option<&'a String>)
    requires
        names.deep_view() == item_names(items.deep_view()),
    ensures
        r.deep_view() == text_at(items.deep_view(), key),
{
    assert(names.deep_view().len() == names.len());
    assert(item_names(items.deep_view()).len() == items.deep_view().len());
    assert(names.len() == items.len());
    assert(names.deep_view().take(names.len() as int) == names.deep_view());
    match find_name(names, key_word(key), names.len()) {
        Some(i) => {
            proof {
                lemma_index_of(names.deep_view(), key_text(key));
            }
            Some(&items[i].value)
        },
        None => None,
    }
}

/// What a result of reading the metadata stands for.
pub open spec fn metadata_read(r: Result<Metadata, ParseError>) -> Result<MetadataView, ParseError> {
    match r {
        Ok(m) => Ok(m.deep_view()),
        Err(e) => Err(e),
    }
}

/// Reads the entries of the metadata section.
pub fn parse_metadata(items: &Vec<RawItem>) -> (r: Result<Metadata, ParseError>)
    ensures
        metadata_read(r) == metadata_of(items.deep_view()),
{
    let names = names_of_items(items);
    match check_entries(items, &names) {
        Some(e) => {
            return Err(e);
        },
        None => {},
    }
    let description = match entry_text(items, &names, Key::Description) {
        Some(t) => t.clone(),
        None => {
            return Err(ParseError::MissingKey(Key::Description));
        },
    };
    let method = match entry_text(items, &names, Key::Method) {
        Some(t) => match method_for(t.as_str()) {
            Some(m) => m,
            None => {
                return Err(ParseError::InvalidValue(Key::Method));
            },
        },
        None => {
            return Err(ParseError::MissingKey(Key::Method));
        },
    };
    let name = match entry_text(items, &names, Key::Name) {
        Some(t) => t.clone(),
        None => {
            return Err(ParseError::MissingKey(Key::Name));
        },
    };
    let legacy_path = match entry_text(items, &names, Key::LegacyPath) {
        Some(t) => Some(t.clone()),
        None => None,
    };
    let stable_path = match entry_text(items, &names, Key::StablePath) {
        Some(t) => Some(t.clone()),
        None => None,
    };
    if legacy_path.is_none() && stable_path.is_none() {
        return Err(ParseError::MissingKey(Key::StablePath));
    }
    let rate_limited = match entry_text(items, &names, Key::RateLimited) {
        Some(t) => match flag_for(t.as_str()) {
            Some(b) => b,
            None => {
                return Err(ParseError::InvalidValue(Key::RateLimited));
            },
        },
        None => {
            return Err(ParseError::MissingKey(Key::RateLimited));
        },
    };
    let authentication = match entry_text(items, &names, Key::Authentication) {
        Some(t) => match authentication_for(t.as_str()) {
            Some(a) => a,
            None => {
                return Err(ParseError::InvalidValue(Key::Authentication));
            },
        },
        None => {
            return Err(ParseError::MissingKey(Key::Authentication));
        },
    };
    let introduced = match entry_text(items, &names, Key::Introduced) {
        Some(t) => match version_for(t.as_str()) {
            Some(v) => v,
            None => {
                return Err(ParseError::InvalidValue(Key::Introduced));
            },
        },
        None => {
            return Err(ParseError::MissingKey(Key::Introduced));
        },
    };
    let deprecated = match entry_text(items, &names, Key::Deprecated) {
        Some(t) => match version_for(t.as_str()) {
            Some(v) => Some(v),
            None => {
                return Err(ParseError::InvalidValue(Key::Deprecated));
            },
        },
        None => None,
    };
    let removed = match entry_text(items, &names, Key::Removed) {
        Some(t) => match version_for(t.as_str()) {
            Some(v) => Some(v),
            None => {
                return Err(ParseError::InvalidValue(Key::Removed));
            },
        },
        None => None,
    };
    Ok(
        Metadata {
            description,
            method,
            name,
            legacy_path,
            stable_path,
            rate_limited,
            authentication,
            introduced,
            deprecated,
            removed,
        },
    )
}

/// Whether an item is a field of the block.
fn check_field(block: Block, it: &RawItem) -> (r: bool)
    ensures
        r == field_ok(block, it.deep_view()),
{
    assert(it.deep_view().attrs.len() == it.attrs.len());
    if !identifier(it.name.as_str()) {
        return false;
    }
    if it.value.as_str().unicode_len() == 0 {
        return false;
    }
    if it.attrs.len() > 1 {
        return false;
    }
    if it.attrs.len() == 1 {
        assert(it.deep_view().attrs[0] == it.attrs[0]@);
        match tag_for(it.attrs[0].as_str()) {
            None => false,
            Some(t) => match block {
                Block::Request => true,
                Block::Response => t == Tag::Header || t == Tag::Body,
            },
        }
    } else {
        true
    }
}

/// The field that an item declares.
fn field_from(it: &RawItem) -> (f: ParsedField)
    ensures
        f.deep_view() == field_of(it.deep_view()),
{
    assert(it.deep_view().attrs.len() == it.attrs.len());
    let tag = if it.attrs.len() == 1 {
        assert(it.deep_view().attrs[0] == it.attrs[0]@);
        tag_for(it.attrs[0].as_str())
    } else {
        None
    };
    ParsedField { name: it.name.clone(), ty: it.value.clone(), tag }
}

/// What a result of reading fields stands for.
pub open spec fn fields_read(r: Result<Vec<ParsedField>, ParseError>) -> Result<
    Seq<ParsedFieldView>,
    ParseError,
> {
    match r {
        Ok(fs) => Ok(fs.deep_view()),
        Err(e) => Err(e),
    }
}

/// Reads the items of a request or response section.
pub fn parse_fields(block: Block, items: &Vec<RawItem>) -> (r: Result<
    Vec<ParsedField>,
    ParseError,
>)
    ensures
        fields_read(r) == fields_of(block, items.deep_view()),
{
    let ghost its = items.deep_view();
    let names = names_of_items(items);
    let mut fields: Vec<ParsedField> = Vec::new();
    let mut i: usize = 0;
    assert(names.deep_view().len() == names.len());
    assert(item_names(items.deep_view()).len() == items.deep_view().len());
    assert(names.len() == items.len());
    while i < items.len()
        invariant
            i <= items.len(),
            names.len() == items.len(),
            its == items.deep_view(),
            names.deep_view() == item_names(its),
            first_field_fault(block, its, i as int) is None,
            fields.len() == i,
            forall|k: int| 0 <= k < i ==> (#[trigger] fields[k]).deep_view() == field_of(its[k]),
        decreases items.len() - i,
    {
        proof {
            lemma_field_fault_stays(block, its, i + 1, items.len() as int);
            assert(names.deep_view()[i as int] == its[i as int].name);
        }
        if !check_field(block, &items[i]) {
            return Err(ParseError::MalformedField(block, i));
        }
        match find_name(&names, items[i].name.as_str(), i) {
            Some(_) => {
                return Err(ParseError::DuplicateField(block, i));
            },
            None => {},
        }
        let f = field_from(&items[i]);
        fields.push(f);
        i += 1;
    }
    assert(fields.deep_view() =~= its.map_values(|it: RawItemView| field_of(it)));
    Ok(fields)
}

/// What a result of reading a description stands for.
pub open spec fn schema_read(r: Result<SchemaIr, ParseError>) -> Result<SchemaIrView, ParseError> {
    match r {
        Ok(ir) => Ok(ir.deep_view()),
        Err(e) => Err(e),
    }
}

/// The position of the section with this name.
fn section_at(names: &Vec<String>, name: &str) -> (r: Option<usize>)
    ensures
        match r {
            Some(i) => index_of(names.deep_view(), name@) == Some(i as int) && i < names.len(),
            None => index_of(names.deep_view(), name@) is None,
        },
{
    assert(names.deep_view().take(names.len() as int) == names.deep_view());
    proof {
        lemma_index_of(names.deep_view(), name@);
    }
    find_name(names, name, names.len())
}

/// Reads a description.
pub fn parse(desc: &RawDescription) -> (r: Result<SchemaIr, ParseError>)
    ensures
        schema_read(r) == parsed(desc.deep_view()),
{
    let sections = &desc.sections;
    let names = names_of_sections(sections);
    assert(names.len() == sections.len());
    match check_sections(&names) {
        Some(e) => {
            return Err(e);
        },
        None => {},
    }
    let m = match section_at(&names, "metadata") {
        Some(i) => i,
        None => {
            return Err(ParseError::MissingSection(SectionKind::Metadata));
        },
    };
    let rq = match section_at(&names, "request") {
        Some(i) => i,
        None => {
            return Err(ParseError::MissingSection(SectionKind::Request));
        },
    };
    let rs = match section_at(&names, "response") {
        Some(i) => i,
        None => {
            return Err(ParseError::MissingSection(SectionKind::Response));
        },
    };
    let metadata = match parse_metadata(&sections[m].items) {
        Ok(md) => md,
        Err(e) => {
            return Err(e);
        },
    };
    let request = match parse_fields(Block::Request, &sections[rq].items) {
        Ok(fs) => fs,
        Err(e) => {
            return Err(e);
        },
    };
    let response = match parse_fields(Block::Response, &sections[rs].items) {
        Ok(fs) => fs,
        Err(e) => {
            return Err(e);
        },
    };
    let error_type = match section_at(&names, "error") {
        Some(e) => {
            let items = &sections[e].items;
            assert(items.deep_view().len() == items.len());
            if items.len() == 1 {
                assert(items.deep_view()[0] == items[0].deep_view());
                assert(items[0].deep_view().attrs.len() == items[0].attrs.len());
            }
            if items.len() == 1 && items[0].attrs.len() == 0 && items[0].value.as_str().unicode_len()
                > 0 {
                Some(items[0].value.clone())
            } else {
                return Err(ParseError::MalformedError);
            }
        },
        None => None,
    };
    Ok(SchemaIr { metadata, request, response, error_type })
}

} // verus!
