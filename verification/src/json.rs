//! JSON values as bytes, and the calls into the JSON library.

use vstd::prelude::*;
use vstd::slice::slice_to_vec;
use vstd::string::StringSliceAdditionalSpecFns;
use vstd::string::StrSliceExecFns;

verus! {

/// Whether `bytes` hold one JSON value, with nothing but white space around it.
pub uninterp spec fn json_valid(bytes: Seq<u8>) -> bool;

/// The bytes of the JSON object that has these members, in this order.
pub uninterp spec fn json_object_bytes(members: Seq<(Seq<char>, Seq<u8>)>) -> Seq<u8>;

/// The members of the JSON object that `bytes` hold, if they hold one.
pub uninterp spec fn json_object_members(bytes: Seq<u8>) -> Option<Seq<(Seq<char>, Seq<u8>)>>;

/// The bytes of the JSON string that holds this text.
pub uninterp spec fn json_string_bytes(text: Seq<char>) -> Seq<u8>;

/// The text of the JSON string that `bytes` hold, if they hold one.
pub uninterp spec fn json_string_value(bytes: Seq<u8>) -> Option<Seq<char>>;

/// The number that `bytes` hold, if they hold a JSON number that is a whole
/// number from zero up to the largest `u64`.
pub uninterp spec fn json_number_value(bytes: Seq<u8>) -> Option<u64>;

/// The bytes of the JSON array that has these items, in this order.
pub uninterp spec fn json_array_bytes(items: Seq<Seq<u8>>) -> Seq<u8>;

/// The items of the JSON array that `bytes` hold, if they hold one.
pub uninterp spec fn json_array_items(bytes: Seq<u8>) -> Option<Seq<Seq<u8>>>;

/// The decimal digits of a number, as bytes, without leading zeros.
pub open spec fn decimal_bytes(n: nat) -> Seq<u8>
    decreases n,
{
    if n < 10 {
        seq![(48 + n) as u8]
    } else {
        decimal_bytes(n / 10).push((48 + n % 10) as u8)
    }
}

/// The largest whole number that a JSON number carries exactly everywhere.
pub const MAX_SAFE_UINT: u64 = 0x001F_FFFF_FFFF_FFFF;

/// The bytes of one JSON value.
#[derive(Debug)]
pub struct RawJson {
    bytes: Vec<u8>,
}

impl View for RawJson {
    type V = Seq<u8>;

    closed spec fn view(&self) -> Seq<u8> {
        self.bytes@
    }
}

impl DeepView for RawJson {
    type V = Seq<u8>;

    open spec fn deep_view(&self) -> Seq<u8> {
        self@
    }
}

/// A member of a JSON object: its key and its value.
#[derive(Debug)]
pub struct Member {
    pub key: String,
    pub value: RawJson,
}

impl DeepView for Member {
    type V = (Seq<char>, Seq<u8>);

    open spec fn deep_view(&self) -> (Seq<char>, Seq<u8>) {
        (self.key@, self.value@)
    }
}

/// `serde_json::from_slice` at the type `&RawValue`: whether the bytes are
/// read as one JSON value.
#[verifier::external_body]
fn is_value(bytes: &[u8]) -> (r: bool)
    ensures
        r == json_valid(bytes@),
{
    serde_json::from_slice::<&serde_json::value::RawValue>(bytes).is_ok()
}

/// `serde::Serializer::collect_map` on a `serde_json::Serializer`: the object
/// with these keys and values, in this order. Each value is handed over as the
/// raw value that `serde_json::from_slice` reads from its bytes, which it
/// does for every `RawJson`. What is written is one JSON value; for no
/// member at all it is the two braces.
#[verifier::external_body]
fn write_object(members: &Vec<Member>) -> (r: RawJson)
    ensures
        r@ == json_object_bytes(members.deep_view()),
        json_valid(r@),
        members.len() == 0 ==> r@ == seq![0x7bu8, 0x7du8],
{
    let mut bytes: Vec<u8> = Vec::new();
    let mut entries: Vec<(&str, &serde_json::value::RawValue)> = Vec::new();
    for m in members.iter() {
        entries.push((m.key.as_str(), serde_json::from_slice(&m.value.bytes).unwrap()));
    }
    let mut ser = serde_json::Serializer::new(&mut bytes);
    serde::Serializer::collect_map(&mut ser, entries).unwrap();
    RawJson { bytes }
}

/// `serde_json::from_slice` at the type of a map from `String` to
/// `Box<RawValue>`: the members of the object that the bytes hold, each value
/// as the bytes it was written with, or nothing where the bytes hold no
/// object.
#[verifier::external_body]
fn read_object(bytes: &[u8]) -> (r: Option<Vec<Member>>)
    ensures
        r.deep_view() == json_object_members(bytes@),
{
    let map = serde_json::from_slice::<
        std::collections::BTreeMap<String, Box<serde_json::value::RawValue>>,
    >(bytes).ok()?;
    let mut members: Vec<Member> = Vec::new();
    for (key, raw) in map {
        members.push(Member { key, value: RawJson { bytes: raw.get().as_bytes().to_vec() } });
    }
    Some(members)
}

/// `serde_json::to_vec` on a `str`: the JSON string that holds the text.
#[verifier::external_body]
fn write_string(text: &str) -> (r: RawJson)
    ensures
        r@ == json_string_bytes(text@),
        json_valid(r@),
{
    RawJson { bytes: serde_json::to_vec(text).unwrap() }
}

/// `serde_json::from_slice` at the type `String`: the text of the JSON
/// string that the bytes hold, or nothing where they hold no string.
#[verifier::external_body]
fn read_string(bytes: &[u8]) -> (r: Option<String>)
    ensures
        r.deep_view() == json_string_value(bytes@),
{
    serde_json::from_slice::<String>(bytes).ok()
}

/// `serde_json::to_vec` on a `u64`: its decimal digits.
#[verifier::external_body]
fn write_number(n: u64) -> (r: RawJson)
    ensures
        r@ == decimal_bytes(n as nat),
        json_valid(r@),
{
    RawJson { bytes: serde_json::to_vec(&n).unwrap() }
}

/// `serde_json::from_slice` at the type `u64`: the number that the bytes
/// hold, or nothing where they hold no whole number of that range.
#[verifier::external_body]
fn read_number(bytes: &[u8]) -> (r: Option<u64>)
    ensures
        r == json_number_value(bytes@),
{
    serde_json::from_slice::<u64>(bytes).ok()
}

/// `serde::Serializer::collect_seq` on a `serde_json::Serializer`: the array
/// of these values, in this order. Each is handed over as the raw value that
/// `serde_json::from_slice` reads from its bytes.
#[verifier::external_body]
fn write_array(items: &Vec<RawJson>) -> (r: RawJson)
    ensures
        r@ == json_array_bytes(items.deep_view()),
        json_valid(r@),
{
    let mut bytes: Vec<u8> = Vec::new();
    let mut raws: Vec<&serde_json::value::RawValue> = Vec::new();
    for item in items.iter() {
        raws.push(serde_json::from_slice(&item.bytes).unwrap());
    }
    let mut ser = serde_json::Serializer::new(&mut bytes);
    serde::Serializer::collect_seq(&mut ser, raws).unwrap();
    RawJson { bytes }
}

/// `serde_json::from_slice` at the type of a `Vec` of `Box<RawValue>`: the
/// items of the array that the bytes hold, each as the bytes it was written
/// with, or nothing where the bytes hold no array.
#[verifier::external_body]
fn read_array(bytes: &[u8]) -> (r: Option<Vec<RawJson>>)
    ensures
        r.deep_view() == json_array_items(bytes@),
{
    let raws = serde_json::from_slice::<Vec<Box<serde_json::value::RawValue>>>(bytes).ok()?;
    let mut items: Vec<RawJson> = Vec::new();
    for raw in raws {
        items.push(RawJson { bytes: raw.get().as_bytes().to_vec() });
    }
    Some(items)
}

/// `js_int::UInt::new`: whether a number is one that `UInt` holds, which is
/// every number up to `MAX_SAFE_UINT`.
#[verifier::external_body]
fn is_uint(n: u64) -> (r: bool)
    ensures
        r == (n <= MAX_SAFE_UINT),
{
    js_int::UInt::new(n).is_some()
}

/// Whether a number is in the range that a JSON number carries exactly.
pub fn safe_uint(n: u64) -> (r: bool)
    ensures
        r == (n <= MAX_SAFE_UINT),
{
    is_uint(n)
}

impl RawJson {
    #[verifier::type_invariant]
    spec fn well_formed(self) -> bool {
        json_valid(self.bytes@)
    }

    /// Every `RawJson` holds one JSON value: a call brings that into a proof.
    pub fn is_valid(&self) -> (r: bool)
        ensures
            r,
            json_valid(self@),
    {
        proof {
            use_type_invariant(self);
        }
        true
    }

    /// The value that `bytes` hold, if they hold one.
    pub fn from_bytes(bytes: Vec<u8>) -> (r: Option<RawJson>)
        ensures
            r is Some <==> json_valid(bytes@),
            r matches Some(j) ==> j@ == bytes@,
    {
        if is_value(bytes.as_slice()) {
            Some(RawJson { bytes })
        } else {
            None
        }
    }

    /// The value that `text` holds, if it holds one.
    pub fn parse(text: &str) -> (r: Option<RawJson>)
        ensures
            r is Some <==> json_valid(text.spec_bytes()),
            r matches Some(j) ==> j@ == text.spec_bytes(),
    {
        RawJson::from_bytes(text.as_bytes_vec())
    }

    /// The bytes of the value.
    pub fn as_bytes(&self) -> (b: &[u8])
        ensures
            b@ == self@,
    {
        self.bytes.as_slice()
    }

    /// A copy of the bytes of the value.
    pub fn to_bytes(&self) -> (b: Vec<u8>)
        ensures
            b@ == self@,
    {
        slice_to_vec(self.bytes.as_slice())
    }

    /// A copy of the value.
    pub fn duplicate(&self) -> (r: RawJson)
        ensures
            r@ == self@,
    {
        proof {
            use_type_invariant(self);
        }
        RawJson { bytes: slice_to_vec(self.bytes.as_slice()) }
    }

    /// The JSON object with these members, in this order.
    pub fn object(members: &Vec<Member>) -> (r: RawJson)
        ensures
            r@ == json_object_bytes(members.deep_view()),
            members.len() == 0 ==> r@ == seq![0x7bu8, 0x7du8],
    {
        write_object(members)
    }

    /// The JSON string that holds `text`.
    pub fn string(text: &str) -> (r: RawJson)
        ensures
            r@ == json_string_bytes(text@),
    {
        write_string(text)
    }

    /// The text of the string that this value is, if it is one.
    pub fn as_string(&self) -> (r: Option<String>)
        ensures
            r.deep_view() == json_string_value(self@),
    {
        read_string(self.bytes.as_slice())
    }

    /// The JSON number `n`.
    pub fn number(n: u64) -> (r: RawJson)
        ensures
            r@ == decimal_bytes(n as nat),
    {
        write_number(n)
    }

    /// The whole number that this value is, if it is one.
    pub fn as_number(&self) -> (r: Option<u64>)
        ensures
            r == json_number_value(self@),
    {
        read_number(self.bytes.as_slice())
    }

    /// The JSON array with these items, in this order.
    pub fn array(items: &Vec<RawJson>) -> (r: RawJson)
        ensures
            r@ == json_array_bytes(items.deep_view()),
    {
        write_array(items)
    }

    /// The items of the array that this value is, if it is one.
    pub fn items(&self) -> (r: Option<Vec<RawJson>>)
        ensures
            r.deep_view() == json_array_items(self@),
    {
        read_array(self.bytes.as_slice())
    }

    /// The members of the object that this value is, if it is one.
    pub fn members(&self) -> (r: Option<Vec<Member>>)
        ensures
            r.deep_view() == json_object_members(self@),
    {
        read_object(self.bytes.as_slice())
    }
}

/// The members of the object that `bytes` hold, if they hold one.
pub fn object_members(bytes: &[u8]) -> (r: Option<Vec<Member>>)
    ensures
        r.deep_view() == json_object_members(bytes@),
{
    read_object(bytes)
}

} // verus!
