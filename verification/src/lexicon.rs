//! The words of a description: section names, metadata keys, attribute
//! words, and the values of metadata entries.

use vstd::prelude::*;
use crate::error::{Key, SectionKind};
use crate::schema::{Authentication, Method, Tag, Version};
use crate::text::{chars_of, same_text};

verus! {

/// The section that a name stands for.
pub open spec fn section_of(name: Seq<char>) -> Option<SectionKind> {
    if name == "metadata"@ {
        Some(SectionKind::Metadata)
    } else if name == "request"@ {
        Some(SectionKind::Request)
    } else if name == "response"@ {
        Some(SectionKind::Response)
    } else if name == "error"@ {
        Some(SectionKind::Error)
    } else {
        None
    }
}

/// The section that a name stands for.
pub fn section_kind(name: &str) -> (k: Option<SectionKind>)
    ensures
        k == section_of(name@),
{
    if same_text(name, "metadata") {
        Some(SectionKind::Metadata)
    } else if same_text(name, "request") {
        Some(SectionKind::Request)
    } else if same_text(name, "response") {
        Some(SectionKind::Response)
    } else if same_text(name, "error") {
        Some(SectionKind::Error)
    } else {
        None
    }
}

/// The text of a metadata key.
pub open spec fn key_text(key: Key) -> Seq<char> {
    match key {
        Key::Description => "description"@,
        Key::Method => "method"@,
        Key::Name => "name"@,
        Key::LegacyPath => "legacy_path"@,
        Key::StablePath => "stable_path"@,
        Key::RateLimited => "rate_limited"@,
        Key::Authentication => "authentication"@,
        Key::Introduced => "introduced"@,
        Key::Deprecated => "deprecated"@,
        Key::Removed => "removed"@,
    }
}

/// The text of a metadata key.
pub fn key_word(key: Key) -> (w: &'static str)
    ensures
        w@ == key_text(key),
{
    match key {
        Key::Description => "description",
        Key::Method => "method",
        Key::Name => "name",
        Key::LegacyPath => "legacy_path",
        Key::StablePath => "stable_path",
        Key::RateLimited => "rate_limited",
        Key::Authentication => "authentication",
        Key::Introduced => "introduced",
        Key::Deprecated => "deprecated",
        Key::Removed => "removed",
    }
}

/// Whether a text is one of the metadata keys.
pub open spec fn is_key(name: Seq<char>) -> bool {
    exists|key: Key| name == #[trigger] key_text(key)
}

/// Whether a text is one of the metadata keys.
pub fn known_key(name: &str) -> (r: bool)
    ensures
        r == is_key(name@),
{
    let keys = [
        Key::Description,
        Key::Method,
        Key::Name,
        Key::LegacyPath,
        Key::StablePath,
        Key::RateLimited,
        Key::Authentication,
        Key::Introduced,
        Key::Deprecated,
        Key::Removed,
    ];
    let mut i: usize = 0;
    while i < 10
        invariant
            i <= 10,
            keys@.len() == 10,
            keys@[0] == Key::Description,
            keys@[1] == Key::Method,
            keys@[2] == Key::Name,
            keys@[3] == Key::LegacyPath,
            keys@[4] == Key::StablePath,
            keys@[5] == Key::RateLimited,
            keys@[6] == Key::Authentication,
            keys@[7] == Key::Introduced,
            keys@[8] == Key::Deprecated,
            keys@[9] == Key::Removed,
            forall|k: int| 0 <= k < i ==> name@ != key_text(#[trigger] keys@[k]),
        decreases 10 - i,
    {
        if same_text(name, key_word(keys[i])) {
            assert(name@ == key_text(keys@[i as int]));
            return true;
        }
        i += 1;
    }
    assert forall|key: Key| name@ != #[trigger] key_text(key) by {
        match key {
            Key::Description => assert(keys@[0] == key),
            Key::Method => assert(keys@[1] == key),
            Key::Name => assert(keys@[2] == key),
            Key::LegacyPath => assert(keys@[3] == key),
            Key::StablePath => assert(keys@[4] == key),
            Key::RateLimited => assert(keys@[5] == key),
            Key::Authentication => assert(keys@[6] == key),
            Key::Introduced => assert(keys@[7] == key),
            Key::Deprecated => assert(keys@[8] == key),
            Key::Removed => assert(keys@[9] == key),
        }
    }
    false
}

/// The attribute that a word stands for.
pub open spec fn tag_of(word: Seq<char>) -> Option<Tag> {
    if word == "path"@ {
        Some(Tag::Path)
    } else if word == "query"@ {
        Some(Tag::Query)
    } else if word == "header"@ {
        Some(Tag::Header)
    } else if word == "body"@ {
        Some(Tag::Body)
    } else {
        None
    }
}

/// The attribute that a word stands for.
pub fn tag_for(word: &str) -> (t: Option<Tag>)
    ensures
        t == tag_of(word@),
{
    if same_text(word, "path") {
        Some(Tag::Path)
    } else if same_text(word, "query") {
        Some(Tag::Query)
    } else if same_text(word, "header") {
        Some(Tag::Header)
    } else if same_text(word, "body") {
        Some(Tag::Body)
    } else {
        None
    }
}

/// The verb that a text stands for.
pub open spec fn method_of(text: Seq<char>) -> Option<Method> {
    if text == "GET"@ {
        Some(Method::Get)
    } else if text == "POST"@ {
        Some(Method::Post)
    } else if text == "PUT"@ {
        Some(Method::Put)
    } else if text == "DELETE"@ {
        Some(Method::Delete)
    } else if text == "PATCH"@ {
        Some(Method::Patch)
    } else if text == "HEAD"@ {
        Some(Method::Head)
    } else if text == "OPTIONS"@ {
        Some(Method::Options)
    } else {
        None
    }
}

/// The verb that a text stands for.
pub fn method_for(text: &str) -> (m: Option<Method>)
    ensures
        m == method_of(text@),
{
    if same_text(text, "GET") {
        Some(Method::Get)
    } else if same_text(text, "POST") {
        Some(Method::Post)
    } else if same_text(text, "PUT") {
        Some(Method::Put)
    } else if same_text(text, "DELETE") {
        Some(Method::Delete)
    } else if same_text(text, "PATCH") {
        Some(Method::Patch)
    } else if same_text(text, "HEAD") {
        Some(Method::Head)
    } else if same_text(text, "OPTIONS") {
        Some(Method::Options)
    } else {
        None
    }
}

/// The truth value that a text stands for.
pub open spec fn flag_of(text: Seq<char>) -> Option<bool> {
    if text == "true"@ {
        Some(true)
    } else if text == "false"@ {
        Some(false)
    } else {
        None
    }
}

/// The truth value that a text stands for.
pub fn flag_for(text: &str) -> (b: Option<bool>)
    ensures
        b == flag_of(text@),
{
    if same_text(text, "true") {
        Some(true)
    } else if same_text(text, "false") {
        Some(false)
    } else {
        None
    }
}

/// The authentication requirement that a text stands for.
pub open spec fn authentication_of(text: Seq<char>) -> Option<Authentication> {
    if text == "None"@ {
        Some(Authentication::NoAuthentication)
    } else if text == "AccessToken"@ {
        Some(Authentication::AccessToken)
    } else if text == "ServerSignature"@ {
        Some(Authentication::ServerSignature)
    } else {
        None
    }
}

/// The authentication requirement that a text stands for.
pub fn authentication_for(text: &str) -> (a: Option<Authentication>)
    ensures
        a == authentication_of(text@),
{
    if same_text(text, "None") {
        Some(Authentication::NoAuthentication)
    } else if same_text(text, "AccessToken") {
        Some(Authentication::AccessToken)
    } else if same_text(text, "ServerSignature") {
        Some(Authentication::ServerSignature)
    } else {
        None
    }
}

/// A decimal digit.
pub open spec fn is_digit(c: char) -> bool {
    '0' <= c && c <= '9'
}

/// The number that decimal digits stand for.
pub open spec fn decimal(s: Seq<char>) -> nat
    decreases s.len(),
{
    if s.len() == 0 {
        0
    } else {
        decimal(s.drop_last()) * 10 + (s.last() as u32 - '0' as u32) as nat
    }
}

/// The number below 256 that one to three decimal digits stand for.
pub open spec fn small_number(s: Seq<char>) -> Option<u8> {
    if 1 <= s.len() <= 3 && (forall|i: int| 0 <= i < s.len() ==> is_digit(#[trigger] s[i]))
        && decimal(s) <= 255 {
        Some(decimal(s) as u8)
    } else {
        None
    }
}

/// The position of the first dot among the first `n` characters, or `n`.
pub open spec fn first_dot(s: Seq<char>, n: int) -> int
    decreases n,
{
    if n <= 0 {
        0
    } else {
        let m = first_dot(s, n - 1);
        if m < n - 1 {
            m
        } else if s[n - 1] == '.' {
            n - 1
        } else {
            n
        }
    }
}

/// The version that a text of the form `major.minor` stands for.
pub open spec fn version_of(text: Seq<char>) -> Option<Version> {
    let p = first_dot(text, text.len() as int);
    if p < text.len() {
        match (small_number(text.take(p)), small_number(text.skip(p + 1))) {
            (Some(major), Some(minor)) => Some(Version { major, minor }),
            _ => None,
        }
    } else {
        None
    }
}

proof fn lemma_first_dot(s: Seq<char>, n: int, m: int)
    requires
        0 <= n <= m,
    ensures
        0 <= first_dot(s, n) <= n,
        first_dot(s, n) < n ==> first_dot(s, m) == first_dot(s, n),
    decreases m,
{
    if n > 0 {
        lemma_first_dot(s, n - 1, n - 1);
    }
    if m > n {
        lemma_first_dot(s, n, m - 1);
    }
}

/// The number that the characters from `from` up to `to` stand for.
fn number_between(v: &Vec<char>, from: usize, to: usize) -> (r: Option<u8>)
    requires
        from <= to <= v.len(),
    ensures
        r == small_number(v@.subrange(from as int, to as int)),
{
    let ghost s = v@.subrange(from as int, to as int);
    if to - from < 1 || to - from > 3 {
        return None;
    }
    let mut acc: u16 = 0;
    let mut i: usize = from;
    assert(s.take(0) == Seq::<char>::empty());
    while i < to
        invariant
            from <= i <= to <= v.len(),
            to - from <= 3,
            s == v@.subrange(from as int, to as int),
            forall|k: int| 0 <= k < i - from ==> is_digit(#[trigger] s[k]),
            acc == decimal(s.take(i - from)),
            i - from == 0 ==> acc == 0,
            i - from == 1 ==> acc <= 9,
            i - from == 2 ==> acc <= 99,
            i - from == 3 ==> acc <= 999,
        decreases to - i,
    {
        let c = v[i];
        assert(s[i - from] == c);
        if !('0' <= c && c <= '9') {
            return None;
        }
        proof {
            assert(s.take(i - from + 1).drop_last() == s.take(i - from));
            assert(s.take(i - from + 1).last() == c);
        }
        let d: u16 = (c as u32 - '0' as u32) as u16;
        acc = acc * 10 + d;
        i += 1;
    }
    assert(s.take(to - from) == s);
    if acc <= 255 {
        Some(acc as u8)
    } else {
        None
    }
}

/// The version that a text of the form `major.minor` stands for.
pub fn version_for(text: &str) -> (r: Option<Version>)
    ensures
        r == version_of(text@),
{
    let v = chars_of(text);
    let n = v.len();
    let mut p: usize = 0;
    while p < n && v[p] != '.'
        invariant
            p <= n,
            n == v.len(),
            first_dot(v@, p as int) == p,
        decreases n - p,
    {
        p += 1;
    }
    proof {
        lemma_first_dot(v@, p as int, p as int);
        if p < n {
            lemma_first_dot(v@, p + 1, n as int);
        }
        assert(v@.take(p as int) == v@.subrange(0, p as int));
    }
    if p >= n {
        return None;
    }
    assert(v@.skip(p + 1) == v@.subrange(p + 1, n as int));
    match (number_between(&v, 0, p), number_between(&v, p + 1, n)) {
        (Some(major), Some(minor)) => Some(Version { major, minor }),
        _ => None,
    }
}

} // verus!
