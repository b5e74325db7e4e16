//! A description of an endpoint as it is written down: sections of items.

use vstd::prelude::*;
use vstd::string::StringExecFns;

verus! {

/// One item of a section: a metadata entry (`name` is the key, `value` the
/// text), a field (`attrs` holds its attributes, `name` its name, `value` its
/// declared type), or the error type (in `value`).
#[derive(Debug)]
pub struct RawItem {
    pub attrs: Vec<String>,
    pub name: String,
    pub value: String,
}

pub struct RawItemView {
    pub attrs: Seq<Seq<char>>,
    pub name: Seq<char>,
    pub value: Seq<char>,
}

impl DeepView for RawItem {
    type V = RawItemView;

    open spec fn deep_view(&self) -> RawItemView {
        RawItemView { attrs: self.attrs.deep_view(), name: self.name@, value: self.value@ }
    }
}

/// A top-level section: its name and its items, in the order written.
#[derive(Debug)]
pub struct RawSection {
    pub name: String,
    pub items: Vec<RawItem>,
}

pub struct RawSectionView {
    pub name: Seq<char>,
    pub items: Seq<RawItemView>,
}

impl DeepView for RawSection {
    type V = RawSectionView;

    open spec fn deep_view(&self) -> RawSectionView {
        RawSectionView { name: self.name@, items: self.items.deep_view() }
    }
}

/// A description: its sections, in the order written.
#[derive(Debug)]
pub struct RawDescription {
    pub sections: Vec<RawSection>,
}

impl DeepView for RawDescription {
    type V = Seq<RawSectionView>;

    open spec fn deep_view(&self) -> Seq<RawSectionView> {
        self.sections.deep_view()
    }
}

/// An item without attributes.
pub open spec fn entry_view(name: Seq<char>, value: Seq<char>) -> RawItemView {
    RawItemView { attrs: Seq::empty(), name, value }
}

/// An item with one attribute.
pub open spec fn tagged_view(attr: Seq<char>, name: Seq<char>, value: Seq<char>) -> RawItemView {
    RawItemView { attrs: seq![attr], name, value }
}

impl RawItem {
    /// A metadata entry, or a field without an attribute.
    pub fn entry(name: &str, value: &str) -> (it: RawItem)
        ensures
            it.deep_view() == entry_view(name@, value@),
    {
        let attrs: Vec<String> = Vec::new();
        assert(attrs.deep_view() =~= Seq::<Seq<char>>::empty());
        RawItem { attrs, name: String::from_str(name), value: String::from_str(value) }
    }

    /// A field with an attribute.
    pub fn tagged(attr: &str, name: &str, value: &str) -> (it: RawItem)
        ensures
            it.deep_view() == tagged_view(attr@, name@, value@),
    {
        let mut attrs: Vec<String> = Vec::new();
        attrs.push(String::from_str(attr));
        assert(attrs.deep_view() =~= seq![attr@]);
        RawItem { attrs, name: String::from_str(name), value: String::from_str(value) }
    }
}

impl RawSection {
    /// A section with this name and these items.
    pub fn new(name: &str, items: Vec<RawItem>) -> (s: RawSection)
        ensures
            s.deep_view() == (RawSectionView { name: name@, items: items.deep_view() }),
    {
        RawSection { name: String::from_str(name), items }
    }
}

/// The position of the last of `names` that is `name`, if there is one.
pub open spec fn index_of(names: Seq<Seq<char>>, name: Seq<char>) -> Option<int>
    decreases names.len(),
{
    if names.len() == 0 {
        None
    } else if names.last() == name {
        Some(names.len() - 1)
    } else {
        index_of(names.drop_last(), name)
    }
}

/// The position found holds the name; where none is found, no position does.
pub proof fn lemma_index_of(names: Seq<Seq<char>>, name: Seq<char>)
    ensures
        index_of(names, name) matches Some(i) ==> 0 <= i < names.len() && names[i] == name,
        index_of(names, name) is None ==> forall|i: int|
            0 <= i < names.len() ==> #[trigger] names[i] != name,
    decreases names.len(),
{
    if names.len() > 0 {
        lemma_index_of(names.drop_last(), name);
        if names.last() != name {
            assert forall|i: int| 0 <= i < names.len() && index_of(names, name) is None implies #[trigger] names[i]
                != name by {
                if i < names.len() - 1 {
                    assert(names.drop_last()[i] == names[i]);
                }
            }
        }
    }
}

/// The names of the sections.
pub open spec fn section_names(sections: Seq<RawSectionView>) -> Seq<Seq<char>> {
    sections.map_values(|s: RawSectionView| s.name)
}

/// The names of the items.
pub open spec fn item_names(items: Seq<RawItemView>) -> Seq<Seq<char>> {
    items.map_values(|it: RawItemView| it.name)
}

/// The position of the last of the first `n` names that is `name`.
pub fn find_name(names: &Vec<String>, name: &str, n: usize) -> (r: Option<usize>)
    requires
        n <= names.len(),
    ensures
        match r {
            Some(i) => index_of(names.deep_view().take(n as int), name@) == Some(i as int),
            None => index_of(names.deep_view().take(n as int), name@) is None,
        },
{
    let ghost ns = names.deep_view().take(n as int);
    let mut i: usize = n;
    assert(ns.take(i as int) == ns);
    while i > 0
        invariant
            i <= n <= names.len(),
            ns == names.deep_view().take(n as int),
            index_of(ns, name@) == index_of(ns.take(i as int), name@),
        decreases i,
    {
        proof {
            assert(ns.take(i as int).drop_last() == ns.take(i - 1));
            assert(ns.take(i as int).last() == names[i - 1]@);
        }
        i -= 1;
        if crate::text::same_text(names[i].as_str(), name) {
            return Some(i);
        }
    }
    assert(ns.take(0).len() == 0);
    None
}

/// The names of the sections of a description.
pub fn names_of_sections(sections: &Vec<RawSection>) -> (names: Vec<String>)
    ensures
        names.deep_view() == section_names(sections.deep_view()),
{
    let mut names: Vec<String> = Vec::new();
    let mut i: usize = 0;
    while i < sections.len()
        invariant
            i <= sections.len(),
            names.len() == i,
            forall|k: int| 0 <= k < i ==> (#[trigger] names[k])@ == sections[k].name@,
        decreases sections.len() - i,
    {
        names.push(sections[i].name.clone());
        i += 1;
    }
    assert(names.deep_view() =~= section_names(sections.deep_view()));
    names
}

/// The names of the items of a section.
pub fn names_of_items(items: &Vec<RawItem>) -> (names: Vec<String>)
    ensures
        names.deep_view() == item_names(items.deep_view()),
{
    let mut names: Vec<String> = Vec::new();
    let mut i: usize = 0;
    while i < items.len()
        invariant
            i <= items.len(),
            names.len() == i,
            forall|k: int| 0 <= k < i ==> (#[trigger] names[k])@ == items[k].name@,
        decreases items.len() - i,
    {
        names.push(items[i].name.clone());
        i += 1;
    }
    assert(names.deep_view() =~= item_names(items.deep_view()));
    names
}

} // verus!
