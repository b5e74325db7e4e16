//! Path templates: a path cut at its slashes into literal and variable segments.

use vstd::prelude::*;
use vstd::string::StringExecFns;
use crate::text::{chars_of, identifier_between, is_identifier, same_text};

verus! {

/// The pieces of `pieces` with a slash between each two of them.
pub open spec fn join(pieces: Seq<Seq<char>>) -> Seq<char>
    decreases pieces.len(),
{
    if pieces.len() == 0 {
        Seq::empty()
    } else if pieces.len() == 1 {
        pieces[0]
    } else {
        join(pieces.drop_last()) + seq!['/'] + pieces.last()
    }
}

/// The pieces of `s` between its slashes: one more piece than `s` has slashes.
pub open spec fn split(s: Seq<char>) -> Seq<Seq<char>>
    decreases s.len(),
{
    if s.len() == 0 {
        seq![Seq::<char>::empty()]
    } else {
        let init = split(s.drop_last());
        if s.last() == '/' {
            init.push(Seq::empty())
        } else {
            init.drop_last().push(init.last().push(s.last()))
        }
    }
}

/// No piece holds a slash.
pub open spec fn all_clean(pieces: Seq<Seq<char>>) -> bool {
    forall|i: int| 0 <= i < pieces.len() ==> !(#[trigger] pieces[i]).contains('/')
}

/// `split` gives at least one piece, and no piece holds a slash.
pub proof fn lemma_split_pieces(s: Seq<char>)
    ensures
        split(s).len() >= 1,
        all_clean(split(s)),
    decreases s.len(),
{
    if s.len() > 0 {
        lemma_split_pieces(s.drop_last());
        let init = split(s.drop_last());
        if s.last() != '/' {
            let grown = init.last().push(s.last());
            assert forall|k: int| 0 <= k < grown.len() implies grown[k] != '/' by {
                if k < init.last().len() {
                    assert(init.last().contains(grown[k]) || grown[k] != '/');
                }
            }
        }
    }
}

/// Text without a slash, put behind `s`, lengthens the last piece of `s`.
pub proof fn lemma_split_append(s: Seq<char>, t: Seq<char>)
    requires
        !t.contains('/'),
    ensures
        split(s + t) == split(s).drop_last().push(split(s).last() + t),
    decreases t.len(),
{
    lemma_split_pieces(s);
    if t.len() == 0 {
        assert(s + t == s);
        assert(split(s).last() + t == split(s).last());
        assert(split(s).drop_last().push(split(s).last()) == split(s));
    } else {
        let t0 = t.drop_last();
        assert forall|k: int| 0 <= k < t0.len() implies t0[k] != '/' by {
            assert(t.contains(t[k]) || t0[k] != '/');
        }
        lemma_split_append(s, t0);
        assert((s + t).drop_last() == s + t0);
        assert((s + t).last() == t.last());
        assert(t.contains(t.last()) || t.last() != '/');
        let init = split(s + t0);
        assert(init.last().push(t.last()) == split(s).last() + t);
        assert(init.drop_last() == split(s).drop_last());
    }
}

/// Cutting a joined text gives its pieces back, if none of them holds a slash.
pub proof fn lemma_split_join(pieces: Seq<Seq<char>>)
    requires
        pieces.len() >= 1,
        all_clean(pieces),
    ensures
        split(join(pieces)) == pieces,
    decreases pieces.len(),
{
    let empty = Seq::<char>::empty();
    if pieces.len() == 1 {
        lemma_split_append(empty, pieces[0]);
        assert(empty + pieces[0] == pieces[0]);
        assert(split(empty) == seq![empty]);
        assert(seq![empty].drop_last().push(empty + pieces[0]) == pieces);
    } else {
        let init = pieces.drop_last();
        assert(all_clean(init)) by {
            assert forall|i: int| 0 <= i < init.len() implies !(#[trigger] init[i]).contains(
                '/',
            ) by {
                assert(init[i] == pieces[i]);
            }
        }
        lemma_split_join(init);
        let head = join(init) + seq!['/'];
        assert(head.drop_last() == join(init));
        assert(split(head) == init.push(empty));
        lemma_split_append(head, pieces.last());
        assert(init.push(empty).drop_last() == init);
        assert(empty + pieces.last() == pieces.last());
        assert(init.push(pieces.last()) == pieces);
    }
}

/// One segment of a path template.
#[derive(Debug)]
pub enum Segment {
    /// Text that stands in every path of this shape.
    Literal(String),
    /// A placeholder, by the name written in the template.
    Variable(String),
}

pub enum SegmentView {
    Literal(Seq<char>),
    Variable(Seq<char>),
}

impl DeepView for Segment {
    type V = SegmentView;

    open spec fn deep_view(&self) -> SegmentView {
        match self {
            Segment::Literal(t) => SegmentView::Literal(t@),
            Segment::Variable(n) => SegmentView::Variable(n@),
        }
    }
}

/// What a piece of a template stands for: `:name` and `{name}` are variables,
/// every other piece is literal text.
pub open spec fn segment_of(piece: Seq<char>) -> SegmentView {
    if piece.len() >= 2 && piece[0] == ':' && is_identifier(piece.subrange(1, piece.len() as int)) {
        SegmentView::Variable(piece.subrange(1, piece.len() as int))
    } else if piece.len() >= 3 && piece[0] == '{' && piece.last() == '}' && is_identifier(
        piece.subrange(1, piece.len() - 1),
    ) {
        SegmentView::Variable(piece.subrange(1, piece.len() - 1))
    } else {
        SegmentView::Literal(piece)
    }
}

/// The segments that a template text stands for.
pub open spec fn template_of(text: Seq<char>) -> Seq<SegmentView> {
    split(text).map_values(|p: Seq<char>| segment_of(p))
}

/// The number of variables among `segs`.
pub open spec fn count_vars(segs: Seq<SegmentView>) -> nat
    decreases segs.len(),
{
    if segs.len() == 0 {
        0
    } else {
        count_vars(segs.drop_last()) + if segs.last() is Variable {
            1nat
        } else {
            0nat
        }
    }
}

/// The names of the variables among `segs`, in order.
pub open spec fn var_names(segs: Seq<SegmentView>) -> Seq<Seq<char>>
    decreases segs.len(),
{
    if segs.len() == 0 {
        Seq::empty()
    } else {
        match segs.last() {
            SegmentView::Variable(n) => var_names(segs.drop_last()).push(n),
            SegmentView::Literal(_) => var_names(segs.drop_last()),
        }
    }
}

/// The pieces of the path that `segs` gives for `vals`: the n-th variable
/// takes the n-th value.
pub open spec fn fill(segs: Seq<SegmentView>, vals: Seq<Seq<char>>) -> Seq<Seq<char>>
    decreases segs.len(),
{
    if segs.len() == 0 {
        Seq::empty()
    } else {
        let init = segs.drop_last();
        match segs.last() {
            SegmentView::Literal(t) => fill(init, vals).push(t),
            SegmentView::Variable(_) => fill(init, vals).push(vals[count_vars(init) as int]),
        }
    }
}

/// The path that `segs` gives for `vals`.
pub open spec fn render(segs: Seq<SegmentView>, vals: Seq<Seq<char>>) -> Seq<char> {
    join(fill(segs, vals))
}

/// The values that `pieces` hold in the places of the variables of `segs`,
/// if there are as many pieces as segments and every literal is met.
pub open spec fn capture(segs: Seq<SegmentView>, pieces: Seq<Seq<char>>) -> Option<
    Seq<Seq<char>>,
>
    decreases segs.len(),
{
    if segs.len() != pieces.len() {
        None
    } else if segs.len() == 0 {
        Some(Seq::empty())
    } else {
        match capture(segs.drop_last(), pieces.drop_last()) {
            None => None,
            Some(vals) => match segs.last() {
                SegmentView::Literal(t) => if t == pieces.last() {
                    Some(vals)
                } else {
                    None
                },
                SegmentView::Variable(_) => Some(vals.push(pieces.last())),
            },
        }
    }
}

/// The values that a path holds in the places of the variables of `segs`.
pub open spec fn match_path(segs: Seq<SegmentView>, path: Seq<char>) -> Option<Seq<Seq<char>>> {
    capture(segs, split(path))
}

/// At least one segment, and no literal holds a slash.
pub open spec fn clean_template(segs: Seq<SegmentView>) -> bool {
    &&& segs.len() >= 1
    &&& forall|i: int|
        0 <= i < segs.len() ==> (#[trigger] segs[i] matches SegmentView::Literal(t)
            ==> !t.contains('/'))
}

/// There is one name for each variable.
pub proof fn lemma_count_names(segs: Seq<SegmentView>)
    ensures
        var_names(segs).len() == count_vars(segs),
    decreases segs.len(),
{
    if segs.len() > 0 {
        lemma_count_names(segs.drop_last());
    }
}

/// A filled template has one piece for each segment.
pub proof fn lemma_fill_len(segs: Seq<SegmentView>, vals: Seq<Seq<char>>)
    ensures
        fill(segs, vals).len() == segs.len(),
    decreases segs.len(),
{
    if segs.len() > 0 {
        lemma_fill_len(segs.drop_last(), vals);
    }
}

/// What is captured is one value for each variable.
pub proof fn lemma_capture_len(segs: Seq<SegmentView>, pieces: Seq<Seq<char>>)
    ensures
        capture(segs, pieces) matches Some(vals) ==> vals.len() == count_vars(segs),
    decreases segs.len(),
{
    if segs.len() > 0 && segs.len() == pieces.len() {
        lemma_capture_len(segs.drop_last(), pieces.drop_last());
    }
}

/// A template text gives a clean template.
pub proof fn lemma_template_clean(text: Seq<char>)
    ensures
        clean_template(template_of(text)),
{
    lemma_split_pieces(text);
    let pieces = split(text);
    let segs = template_of(text);
    assert forall|i: int| 0 <= i < segs.len() implies (#[trigger] segs[i] matches SegmentView::Literal(
        t,
    ) ==> !t.contains('/')) by {
        assert(segs[i] == segment_of(pieces[i]));
        assert(!pieces[i].contains('/'));
    }
}

/// The pieces of a filled template are free of slashes if its literals and the values are.
pub proof fn lemma_fill_clean(segs: Seq<SegmentView>, vals: Seq<Seq<char>>)
    requires
        forall|i: int|
            0 <= i < segs.len() ==> (#[trigger] segs[i] matches SegmentView::Literal(t)
                ==> !t.contains('/')),
        count_vars(segs) <= vals.len(),
        all_clean(vals),
    ensures
        all_clean(fill(segs, vals)),
    decreases segs.len(),
{
    if segs.len() > 0 {
        let init = segs.drop_last();
        assert forall|i: int| 0 <= i < init.len() implies (#[trigger] init[i] matches SegmentView::Literal(
            t,
        ) ==> !t.contains('/')) by {
            assert(init[i] == segs[i]);
        }
        lemma_fill_clean(init, vals);
        lemma_fill_len(init, vals);
        let done = fill(segs, vals);
        assert forall|i: int| 0 <= i < done.len() implies !(#[trigger] done[i]).contains(
            '/',
        ) by {
            if i < init.len() {
                assert(done[i] == fill(init, vals)[i]);
            } else {
                match segs.last() {
                    SegmentView::Literal(t) => {
                        assert(segs[segs.len() - 1] == segs.last());
                    },
                    SegmentView::Variable(_) => {
                        assert(done[i] == vals[count_vars(init) as int]);
                    },
                }
            }
        }
    }
}

/// Filling a template and reading the pieces back gives the values that were filled in.
pub proof fn lemma_capture_fill(segs: Seq<SegmentView>, vals: Seq<Seq<char>>)
    requires
        count_vars(segs) <= vals.len(),
    ensures
        capture(segs, fill(segs, vals)) == Some(vals.take(count_vars(segs) as int)),
    decreases segs.len(),
{
    lemma_fill_len(segs, vals);
    if segs.len() == 0 {
        assert(vals.take(0) == Seq::<Seq<char>>::empty());
    } else {
        let init = segs.drop_last();
        lemma_capture_fill(init, vals);
        lemma_fill_len(init, vals);
        let pieces = fill(segs, vals);
        assert(pieces.drop_last() == fill(init, vals));
        let n = count_vars(init) as int;
        match segs.last() {
            SegmentView::Literal(t) => {},
            SegmentView::Variable(_) => {
                assert(vals.take(n).push(vals[n]) == vals.take(n + 1));
            },
        }
    }
}

/// A rendered path, matched against its template, gives the values back.
pub proof fn lemma_match_render(segs: Seq<SegmentView>, vals: Seq<Seq<char>>)
    requires
        clean_template(segs),
        count_vars(segs) == vals.len(),
        all_clean(vals),
    ensures
        match_path(segs, render(segs, vals)) == Some(vals),
{
    lemma_fill_len(segs, vals);
    lemma_fill_clean(segs, vals);
    lemma_split_join(fill(segs, vals));
    lemma_capture_fill(segs, vals);
    assert(vals.take(vals.len() as int) == vals);
}

/// A path template: the segments between the slashes of its text.
#[derive(Debug)]
pub struct PathTemplate {
    pub segments: Vec<Segment>,
}

impl DeepView for PathTemplate {
    type V = Seq<SegmentView>;

    open spec fn deep_view(&self) -> Seq<SegmentView> {
        self.segments.deep_view()
    }
}

/// Cuts `text` at its slashes.
pub fn split_text(text: &str) -> (pieces: Vec<String>)
    ensures
        pieces.deep_view() == split(text@),
{
    let chars = chars_of(text);
    let n = chars.len();
    let mut pieces: Vec<String> = Vec::new();
    let mut start: usize = 0;
    let mut i: usize = 0;
    assert(chars@.take(0) == Seq::<char>::empty());
    assert(chars@.subrange(0, 0) == Seq::<char>::empty());
    assert(pieces.deep_view() == split(chars@.take(0)).drop_last());
    while i < n
        invariant
            chars@ == text@,
            n == chars.len(),
            start <= i <= n,
            split(chars@.take(i as int)).len() >= 1,
            pieces.deep_view() == split(chars@.take(i as int)).drop_last(),
            split(chars@.take(i as int)).last() == chars@.subrange(start as int, i as int),
        decreases n - i,
    {
        let ghost before = split(chars@.take(i as int));
        proof {
            assert(chars@.take(i + 1).drop_last() == chars@.take(i as int));
            assert(chars@.take(i + 1).last() == chars@[i as int]);
            lemma_split_pieces(chars@.take(i + 1));
        }
        if chars[i] == '/' {
            let piece = String::from_str(text.substring_char(start, i));
            let ghost old_pieces = pieces.deep_view();
            pieces.push(piece);
            proof {
                assert(split(chars@.take(i + 1)) == before.push(Seq::<char>::empty()));
                assert(pieces.deep_view() == old_pieces.push(piece@));
                assert(before.drop_last().push(before.last()) == before);
                assert(before.push(Seq::<char>::empty()).drop_last() == before);
                assert(chars@.subrange(i + 1, i + 1) == Seq::<char>::empty());
            }
            start = i + 1;
        } else {
            proof {
                let grown = before.drop_last().push(before.last().push(chars@[i as int]));
                assert(split(chars@.take(i + 1)) == grown);
                assert(grown.drop_last() == before.drop_last());
                assert(chars@.subrange(start as int, i as int).push(chars@[i as int])
                    == chars@.subrange(start as int, i + 1));
            }
        }
        i += 1;
    }
    let piece = String::from_str(text.substring_char(start, n));
    let ghost old_pieces = pieces.deep_view();
    pieces.push(piece);
    proof {
        assert(chars@.take(n as int) == chars@);
        let all = split(text@);
        assert(pieces.deep_view() == old_pieces.push(piece@));
        assert(all.drop_last().push(all.last()) == all);
    }
    pieces
}

/// The segment that one piece of a template stands for.
pub fn segment_from(piece: &str) -> (seg: Segment)
    ensures
        seg.deep_view() == segment_of(piece@),
{
    let chars = chars_of(piece);
    let n = chars.len();
    if n >= 2 && chars[0] == ':' && identifier_between(&chars, 1, n) {
        Segment::Variable(String::from_str(piece.substring_char(1, n)))
    } else if n >= 3 && chars[0] == '{' && chars[n - 1] == '}' && identifier_between(
        &chars,
        1,
        n - 1,
    ) {
        Segment::Variable(String::from_str(piece.substring_char(1, n - 1)))
    } else {
        Segment::Literal(String::from_str(piece))
    }
}

impl PathTemplate {
    /// Reads a template text.
    pub fn parse(text: &str) -> (t: PathTemplate)
        ensures
            t.deep_view() == template_of(text@),
            clean_template(t.deep_view()),
    {
        let pieces = split_text(text);
        let mut segments: Vec<Segment> = Vec::new();
        let mut i: usize = 0;
        while i < pieces.len()
            invariant
                i <= pieces.len(),
                segments.len() == i,
                forall|k: int|
                    0 <= k < i ==> (#[trigger] segments[k]).deep_view() == segment_of(
                        pieces[k]@,
                    ),
            decreases pieces.len() - i,
        {
            let seg = segment_from(pieces[i].as_str());
            segments.push(seg);
            i += 1;
        }
        let t = PathTemplate { segments };
        proof {
            assert(t.deep_view() =~= template_of(text@));
            lemma_template_clean(text@);
        }
        t
    }

    /// The names of the variables, in the order of the template.
    pub fn variables(&self) -> (names: Vec<String>)
        ensures
            names.deep_view() == var_names(self.deep_view()),
    {
        let mut names: Vec<String> = Vec::new();
        let mut i: usize = 0;
        assert(self.deep_view().take(0) == Seq::<SegmentView>::empty());
        while i < self.segments.len()
            invariant
                i <= self.segments.len(),
                names.deep_view() == var_names(self.deep_view().take(i as int)),
            decreases self.segments.len() - i,
        {
            let ghost before = names.deep_view();
            proof {
                let segs = self.deep_view();
                assert(segs.take(i + 1).drop_last() == segs.take(i as int));
                assert(segs.take(i + 1).last() == self.segments[i as int].deep_view());
            }
            match &self.segments[i] {
                Segment::Variable(n) => {
                    let name = n.clone();
                    names.push(name);
                    assert(names.deep_view() == before.push(n@));
                },
                Segment::Literal(_) => {},
            }
            i += 1;
        }
        assert(self.deep_view().take(i as int) == self.deep_view());
        names
    }

    /// The path that this template gives for `vals`.
    pub fn render(&self, vals: &Vec<String>) -> (path: String)
        requires
            count_vars(self.deep_view()) <= vals.len(),
        ensures
            path@ == render(self.deep_view(), vals.deep_view()),
    {
        let ghost segs = self.deep_view();
        let ghost values = vals.deep_view();
        let mut path = String::new();
        let mut used: usize = 0;
        let mut i: usize = 0;
        proof {
            assert(segs.take(0) == Seq::<SegmentView>::empty());
            reveal_strlit("/");
            assert("/"@ == seq!['/']);
        }
        while i < self.segments.len()
            invariant
                i <= self.segments.len(),
                segs == self.deep_view(),
                values == vals.deep_view(),
                "/"@ == seq!['/'],
                used == count_vars(segs.take(i as int)),
                count_vars(segs) <= vals.len(),
                path@ == join(fill(segs.take(i as int), values)),
            decreases self.segments.len() - i,
        {
            proof {
                assert(segs.take(i + 1).drop_last() == segs.take(i as int));
                assert(segs.take(i + 1).last() == self.segments[i as int].deep_view());
                lemma_fill_len(segs.take(i as int), values);
                lemma_count_prefix(segs, i + 1);
                let done = fill(segs.take(i + 1), values);
                assert(done.drop_last() == fill(segs.take(i as int), values));
            }
            if i > 0 {
                path.append("/");
            }
            match &self.segments[i] {
                Segment::Literal(t) => {
                    path.append(t.as_str());
                },
                Segment::Variable(_) => {
                    path.append(vals[used].as_str());
                    used += 1;
                },
            }
            proof {
                let done = fill(segs.take(i + 1), values);
                if i == 0 {
                    assert(join(done) == done[0]);
                    assert(fill(segs.take(0), values) == Seq::<Seq<char>>::empty());
                }
            }
            i += 1;
        }
        assert(segs.take(i as int) == segs);
        path
    }

    /// The values that `path` holds in the places of the variables, if it has the
    /// shape of this template.
    pub fn capture(&self, path: &str) -> (r: Option<Vec<String>>)
        ensures
            r.deep_view() == match_path(self.deep_view(), path@),
    {
        let ghost segs = self.deep_view();
        let pieces = split_text(path);
        let ghost ps = pieces.deep_view();
        if pieces.len() != self.segments.len() {
            return None;
        }
        let mut vals: Vec<String> = Vec::new();
        let mut i: usize = 0;
        proof {
            assert(segs.take(0) == Seq::<SegmentView>::empty());
            assert(ps.take(0) == Seq::<Seq<char>>::empty());
        }
        while i < self.segments.len()
            invariant
                i <= self.segments.len(),
                segs == self.deep_view(),
                ps == pieces.deep_view(),
                ps == split(path@),
                pieces.len() == self.segments.len(),
                capture(segs.take(i as int), ps.take(i as int)) == Some(vals.deep_view()),
            decreases self.segments.len() - i,
        {
            let ghost before = vals.deep_view();
            proof {
                assert(segs.take(i + 1).drop_last() == segs.take(i as int));
                assert(ps.take(i + 1).drop_last() == ps.take(i as int));
                assert(segs.take(i + 1).last() == self.segments[i as int].deep_view());
                assert(ps.take(i + 1).last() == pieces[i as int]@);
            }
            match &self.segments[i] {
                Segment::Literal(t) => {
                    if !same_text(t.as_str(), pieces[i].as_str()) {
                        proof {
                            assert(capture(segs.take(i + 1), ps.take(i + 1)) is None);
                            lemma_capture_prefix(segs, ps, i + 1);
                        }
                        return None;
                    }
                },
                Segment::Variable(_) => {
                    let v = pieces[i].clone();
                    vals.push(v);
                    assert(vals.deep_view() == before.push(pieces[i as int]@));
                },
            }
            i += 1;
        }
        proof {
            assert(segs.take(i as int) == segs);
            assert(ps.take(i as int) == ps);
        }
        Some(vals)
    }
}

/// A prefix of a template has no more variables than the template.
pub proof fn lemma_count_prefix(segs: Seq<SegmentView>, n: int)
    requires
        0 <= n <= segs.len(),
    ensures
        count_vars(segs.take(n)) <= count_vars(segs),
    decreases segs.len() - n,
{
    if n < segs.len() {
        lemma_count_prefix(segs, n + 1);
        assert(segs.take(n + 1).drop_last() == segs.take(n));
    } else {
        assert(segs.take(n) == segs);
    }
}

/// Where a prefix of the pieces does not fit the same prefix of the template,
/// the whole does not fit.
pub proof fn lemma_capture_prefix(segs: Seq<SegmentView>, pieces: Seq<Seq<char>>, n: int)
    requires
        0 <= n <= segs.len(),
        segs.len() == pieces.len(),
        capture(segs.take(n), pieces.take(n)) is None,
    ensures
        capture(segs, pieces) is None,
    decreases segs.len() - n,
{
    if n < segs.len() {
        assert(segs.take(n + 1).drop_last() == segs.take(n));
        assert(pieces.take(n + 1).drop_last() == pieces.take(n));
        lemma_capture_prefix(segs, pieces, n + 1);
    } else {
        assert(segs.take(n) == segs);
        assert(pieces.take(n) == pieces);
    }
}

} // verus!
