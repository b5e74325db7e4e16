//! The content of an audio message, and how it is written as tagged content.

use vstd::prelude::*;
use vstd::string::StringExecFns;
use crate::content::{
    ContentField, ContentFieldView, ContentValue, ContentValueView, decode_variant, encode_variant,
    Merge, Omission, Variant, variant_members, variant_values, VariantView,
};
use crate::error::{DecodeError, DecodeErrorView};
use crate::json::{
    decimal_bytes, json_array_bytes, json_array_items, json_number_value, json_object_bytes,
    json_object_members, json_string_bytes, json_string_value, MAX_SAFE_UINT, Member, RawJson,
    safe_uint,
};
use crate::marshal::{find_member, lookup};

verus! {

/// A span of time: whole seconds and the nanoseconds beyond them.
#[derive(Clone, Copy, Debug, PartialEq, Eq, Structural)]
pub struct Duration {
    pub secs: u64,
    pub nanos: u32,
}

/// The whole milliseconds of a span.
pub open spec fn millis_of(d: Duration) -> int {
    d.secs * 1000 + d.nanos / 1_000_000
}

/// The span of a number of milliseconds.
pub open spec fn span_of_millis(ms: u64) -> Duration {
    Duration { secs: ms / 1000, nanos: ((ms % 1000) * 1_000_000) as u32 }
}

impl Duration {
    /// The span of a number of seconds.
    pub fn from_secs(secs: u64) -> (d: Duration)
        ensures
            d == (Duration { secs, nanos: 0 }),
    {
        Duration { secs, nanos: 0 }
    }

    /// The span of a number of milliseconds.
    pub fn from_millis(ms: u64) -> (d: Duration)
        ensures
            d == span_of_millis(ms),
            d.nanos < 1_000_000_000,
    {
        let rest: u64 = ms % 1000;
        Duration { secs: ms / 1000, nanos: (rest * 1_000_000) as u32 }
    }

    /// The whole seconds of the span.
    pub fn as_secs(&self) -> (s: u64)
        ensures
            s == self.secs,
    {
        self.secs
    }

    /// The whole milliseconds of the span, if they are a number that a
    /// JSON number carries exactly.
    pub fn as_safe_millis(&self) -> (r: Option<u64>)
        ensures
            r is Some <==> millis_of(*self) <= MAX_SAFE_UINT,
            r matches Some(ms) ==> ms == millis_of(*self),
    {
        if self.secs > MAX_SAFE_UINT / 1000 {
            return None;
        }
        let ms: u64 = self.secs * 1000 + (self.nanos / 1_000_000) as u64;
        if safe_uint(ms) {
            Some(ms)
        } else {
            None
        }
    }
}

/// The largest amplitude.
pub const MAX_AMPLITUDE: u16 = 256;

/// The amplitude of a waveform sample, from 0 to 256.
#[derive(Clone, Copy, Debug, PartialEq, Eq, Structural)]
pub struct Amplitude {
    pub value: u16,
}

/// The amplitude that a number stands for: the number, or the largest
/// amplitude where the number is larger.
pub open spec fn clamped(n: u64) -> Amplitude {
    if n > MAX_AMPLITUDE {
        Amplitude { value: MAX_AMPLITUDE }
    } else {
        Amplitude { value: n as u16 }
    }
}

impl Amplitude {
    /// The amplitude that `n` stands for.
    pub fn new(n: u64) -> (a: Amplitude)
        ensures
            a == clamped(n),
            a.value <= MAX_AMPLITUDE,
    {
        if n > MAX_AMPLITUDE as u64 {
            Amplitude { value: MAX_AMPLITUDE }
        } else {
            Amplitude { value: n as u16 }
        }
    }

    /// The value of the amplitude.
    pub fn get(&self) -> (n: u16)
        ensures
            n == self.value,
    {
        self.value
    }
}

/// Metadata about an audio clip.
#[derive(Debug)]
pub struct AudioInfo {
    /// The duration of the audio; on the wire in milliseconds.
    pub duration: Option<Duration>,
    /// The mimetype of the audio, e.g. "audio/aac".
    pub mimetype: Option<String>,
    /// The size of the audio clip in bytes.
    pub size: Option<u64>,
}

pub struct AudioInfoView {
    pub duration: Option<Duration>,
    pub mimetype: Option<Seq<char>>,
    pub size: Option<u64>,
}

impl DeepView for AudioInfo {
    type V = AudioInfoView;

    open spec fn deep_view(&self) -> AudioInfoView {
        AudioInfoView {
            duration: self.duration,
            mimetype: self.mimetype.deep_view(),
            size: self.size,
        }
    }
}

impl AudioInfo {
    /// Creates an empty `AudioInfo`.
    pub fn new() -> (r: AudioInfo)
        ensures
            r.deep_view() == (AudioInfoView { duration: None, mimetype: None, size: None }),
    {
        AudioInfo { duration: None, mimetype: None, size: None }
    }
}

/// A block for details of audio content.
#[derive(Debug)]
pub struct AudioDetails {
    /// The duration of the audio; on the wire in seconds.
    pub duration: Duration,
    /// The waveform representation of the audio content, if any. It is
    /// left out on the wire when it is empty.
    pub waveform: Vec<Amplitude>,
}

pub struct AudioDetailsView {
    pub duration: Duration,
    pub waveform: Seq<Amplitude>,
}

impl DeepView for AudioDetails {
    type V = AudioDetailsView;

    open spec fn deep_view(&self) -> AudioDetailsView {
        AudioDetailsView { duration: self.duration, waveform: self.waveform@ }
    }
}

impl AudioDetails {
    /// Creates a new `AudioDetails` with the given duration and waveform.
    pub fn new(duration: Duration, waveform: Vec<Amplitude>) -> (r: AudioDetails)
        ensures
            r.deep_view() == (AudioDetailsView { duration, waveform: waveform@ }),
    {
        AudioDetails { duration, waveform }
    }
}

/// The mark of a voice message: it has no fields.
#[derive(Clone, Copy, Debug, PartialEq, Eq, Structural)]
pub struct VoiceInfo {}

impl Default for VoiceInfo {
    fn default() -> (r: VoiceInfo)
        ensures
            r == (VoiceInfo {  }),
    {
        VoiceInfo {  }
    }
}

impl VoiceInfo {
    /// Creates an empty `VoiceInfo`.
    pub fn new() -> (r: VoiceInfo)
        ensures
            r == (VoiceInfo {  }),
    {
        VoiceInfo {  }
    }
}

/// An encrypted file, as the JSON object that describes it.
#[derive(Debug)]
pub struct EncryptedFile {
    pub json: RawJson,
}

/// Where the audio clip is.
#[derive(Debug)]
pub enum MediaSource {
    /// The address of the clip.
    Plain(String),
    /// The clip as an encrypted file.
    Encrypted(Box<EncryptedFile>),
}

pub enum MediaSourceView {
    Plain(Seq<char>),
    Encrypted(Seq<u8>),
}

impl DeepView for MediaSource {
    type V = MediaSourceView;

    open spec fn deep_view(&self) -> MediaSourceView {
        match self {
            MediaSource::Plain(url) => MediaSourceView::Plain(url@),
            MediaSource::Encrypted(file) => MediaSourceView::Encrypted(file.json@),
        }
    }
}

/// The payload for an audio message.
#[derive(Debug)]
pub struct AudioMessageEventContent {
    /// The textual representation of this message.
    pub body: String,
    /// The source of the audio clip.
    pub source: MediaSource,
    /// Metadata for the audio clip referred to in `source`.
    pub info: Option<Box<AudioInfo>>,
    /// The audio details of the message, if any.
    pub audio_details: Option<Box<AudioDetails>>,
    /// Whether this is a voice message.
    pub voice: Option<Box<VoiceInfo>>,
}

pub struct AudioContentView {
    pub body: Seq<char>,
    pub source: MediaSourceView,
    pub info: Option<AudioInfoView>,
    pub audio_details: Option<AudioDetailsView>,
    pub voice: bool,
}

impl DeepView for AudioMessageEventContent {
    type V = AudioContentView;

    open spec fn deep_view(&self) -> AudioContentView {
        AudioContentView {
            body: self.body@,
            source: self.source.deep_view(),
            info: match self.info {
                Some(i) => Some(i.deep_view()),
                None => None,
            },
            audio_details: match self.audio_details {
                Some(d) => Some(d.deep_view()),
                None => None,
            },
            voice: self.voice is Some,
        }
    }
}

impl AudioMessageEventContent {
    /// Creates a new `AudioMessageEventContent` with the given body and source.
    pub fn new(body: String, source: MediaSource, voice: bool) -> (r: AudioMessageEventContent)
        ensures
            r.deep_view() == (AudioContentView {
                body: body@,
                source: source.deep_view(),
                info: None,
                audio_details: None,
                voice,
            }),
    {
        let voice_info = if voice {
            Some(Box::new(VoiceInfo::new()))
        } else {
            None
        };
        AudioMessageEventContent { body, source, info: None, audio_details: None, voice: voice_info }
    }

    /// Creates a new non-encrypted `AudioMessageEventContent` with the given body and url.
    pub fn plain(body: String, url: String, voice: bool) -> (r: AudioMessageEventContent)
        ensures
            r.deep_view() == (AudioContentView {
                body: body@,
                source: MediaSourceView::Plain(url@),
                info: None,
                audio_details: None,
                voice,
            }),
    {
        AudioMessageEventContent::new(body, MediaSource::Plain(url), voice)
    }

    /// Creates a new encrypted `AudioMessageEventContent` with the given body and
    /// encrypted file.
    pub fn encrypted(body: String, file: EncryptedFile, voice: bool) -> (r:
        AudioMessageEventContent)
        ensures
            r.deep_view() == (AudioContentView {
                body: body@,
                source: MediaSourceView::Encrypted(file.json@),
                info: None,
                audio_details: None,
                voice,
            }),
    {
        AudioMessageEventContent::new(body, MediaSource::Encrypted(Box::new(file)), voice)
    }

    /// Creates a new `AudioMessageEventContent` from `self` with the `info` field set
    /// to the given value.
    pub fn info(self, info: Option<Box<AudioInfo>>) -> (r: AudioMessageEventContent)
        ensures
            r.deep_view() == (AudioContentView {
                info: match info {
                    Some(i) => Some(i.deep_view()),
                    None => None,
                },
                ..self.deep_view()
            }),
    {
        AudioMessageEventContent {
            body: self.body,
            source: self.source,
            info,
            audio_details: self.audio_details,
            voice: self.voice,
        }
    }

    /// Creates a new `AudioMessageEventContent` from `self` with the
    /// `audio_details` field set to the given value.
    pub fn audio_details(self, audio_details: Option<Box<AudioDetails>>) -> (r:
        AudioMessageEventContent)
        ensures
            r.deep_view() == (AudioContentView {
                audio_details: match audio_details {
                    Some(d) => Some(d.deep_view()),
                    None => None,
                },
                ..self.deep_view()
            }),
    {
        AudioMessageEventContent {
            body: self.body,
            source: self.source,
            info: self.info,
            audio_details,
            voice: self.voice,
        }
    }

    /// Whether this is a voice message.
    pub fn is_voice(&self) -> (r: bool)
        ensures
            r == self.deep_view().voice,
    {
        self.voice.is_some()
    }
}

/// The whole number of the safe range that bytes hold, if they hold one.
pub open spec fn safe_number(bytes: Seq<u8>) -> Option<u64> {
    match json_number_value(bytes) {
        Some(n) => if n <= MAX_SAFE_UINT {
            Some(n)
        } else {
            None
        },
        None => None,
    }
}

/// The whole number of the safe range that a value is, if it is one.
pub fn read_safe_number(j: &RawJson) -> (r: Option<u64>)
    ensures
        r == safe_number(j@),
{
    match j.as_number() {
        Some(n) => if safe_uint(n) {
            Some(n)
        } else {
            None
        },
        None => None,
    }
}

/// The number under a key that need not be there.
pub open spec fn opt_number(ms: Seq<(Seq<char>, Seq<u8>)>, key: Seq<char>) -> Result<
    Option<u64>,
    DecodeErrorView,
> {
    match lookup(ms, key) {
        None => Ok(None),
        Some(j) => match safe_number(j) {
            Some(n) => Ok(Some(n)),
            None => Err(DecodeErrorView::InvalidMember(key)),
        },
    }
}

/// The text under a key that need not be there.
pub open spec fn opt_string(ms: Seq<(Seq<char>, Seq<u8>)>, key: Seq<char>) -> Result<
    Option<Seq<char>>,
    DecodeErrorView,
> {
    match lookup(ms, key) {
        None => Ok(None),
        Some(j) => match json_string_value(j) {
            Some(t) => Ok(Some(t)),
            None => Err(DecodeErrorView::InvalidMember(key)),
        },
    }
}

fn read_opt_number(members: &Vec<Member>, key: &str) -> (r: Result<Option<u64>, DecodeError>)
    ensures
        match r {
            Ok(x) => opt_number(members.deep_view(), key@) == Ok::<Option<u64>, DecodeErrorView>(
                x,
            ),
            Err(e) => opt_number(members.deep_view(), key@) == Err::<
                Option<u64>,
                DecodeErrorView,
            >(e.deep_view()),
        },
{
    match find_member(members, key) {
        None => Ok(None),
        Some(j) => match read_safe_number(&j) {
            Some(n) => Ok(Some(n)),
            None => Err(DecodeError::InvalidMember(String::from_str(key))),
        },
    }
}

fn read_opt_string(members: &Vec<Member>, key: &str) -> (r: Result<Option<String>, DecodeError>)
    ensures
        match r {
            Ok(x) => opt_string(members.deep_view(), key@) == Ok::<
                Option<Seq<char>>,
                DecodeErrorView,
            >(x.deep_view()),
            Err(e) => opt_string(members.deep_view(), key@) == Err::<
                Option<Seq<char>>,
                DecodeErrorView,
            >(e.deep_view()),
        },
{
    match find_member(members, key) {
        None => Ok(None),
        Some(j) => match j.as_string() {
            Some(t) => Ok(Some(t)),
            None => Err(DecodeError::InvalidMember(String::from_str(key))),
        },
    }
}

/// Whether the numbers of an `AudioInfo` can be written.
pub open spec fn info_encodable(i: AudioInfoView) -> bool {
    &&& i.duration matches Some(d) ==> millis_of(d) <= MAX_SAFE_UINT
    &&& i.size matches Some(n) ==> n <= MAX_SAFE_UINT
}

/// The members of an `AudioInfo`: the duration in milliseconds, the
/// mimetype and the size, each only where it is there.
pub open spec fn info_members(i: AudioInfoView) -> Seq<(Seq<char>, Seq<u8>)> {
    (match i.duration {
        Some(d) => seq![("duration"@, decimal_bytes(millis_of(d) as nat))],
        None => Seq::empty(),
    }) + (match i.mimetype {
        Some(m) => seq![("mimetype"@, json_string_bytes(m))],
        None => Seq::empty(),
    }) + (match i.size {
        Some(n) => seq![("size"@, decimal_bytes(n as nat))],
        None => Seq::empty(),
    })
}

/// The `AudioInfo` that members hold.
pub open spec fn info_of(ms: Seq<(Seq<char>, Seq<u8>)>) -> Result<AudioInfoView, DecodeErrorView> {
    match opt_number(ms, "duration"@) {
        Err(e) => Err(e),
        Ok(d) => match opt_string(ms, "mimetype"@) {
            Err(e) => Err(e),
            Ok(m) => match opt_number(ms, "size"@) {
                Err(e) => Err(e),
                Ok(n) => Ok(
                    AudioInfoView {
                        duration: match d {
                            Some(ms) => Some(span_of_millis(ms)),
                            None => None,
                        },
                        mimetype: m,
                        size: n,
                    },
                ),
            },
        },
    }
}

/// What a result of reading an `AudioInfo` stands for.
pub open spec fn info_read(r: Result<AudioInfo, DecodeError>) -> Result<
    AudioInfoView,
    DecodeErrorView,
> {
    match r {
        Ok(i) => Ok(i.deep_view()),
        Err(e) => Err(e.deep_view()),
    }
}

impl AudioInfo {
    /// The members of the object that this is written as; nothing where a
    /// number is too large to be written.
    pub fn to_members(&self) -> (r: Option<Vec<Member>>)
        ensures
            r is Some <==> info_encodable(self.deep_view()),
            r matches Some(ms) ==> ms.deep_view() == info_members(self.deep_view()),
    {
        let ghost none = Seq::<(Seq<char>, Seq<u8>)>::empty();
        let mut ms: Vec<Member> = Vec::new();
        assert(ms.deep_view() =~= none);
        match &self.duration {
            Some(d) => match d.as_safe_millis() {
                Some(n) => {
                    ms.push(Member { key: String::from_str("duration"), value: RawJson::number(n) });
                    assert(ms.deep_view() =~= seq![
                        ("duration"@, decimal_bytes(millis_of(*d) as nat)),
                    ]);
                },
                None => {
                    return None;
                },
            },
            None => {},
        }
        let ghost first = ms.deep_view();
        match &self.mimetype {
            Some(m) => {
                ms.push(
                    Member { key: String::from_str("mimetype"), value: RawJson::string(m.as_str()) },
                );
                assert(ms.deep_view() =~= first + seq![("mimetype"@, json_string_bytes(m@))]);
            },
            None => {
                assert(ms.deep_view() =~= first + none);
            },
        }
        let ghost second = ms.deep_view();
        match self.size {
            Some(n) => {
                if !safe_uint(n) {
                    return None;
                }
                ms.push(Member { key: String::from_str("size"), value: RawJson::number(n) });
                assert(ms.deep_view() =~= second + seq![("size"@, decimal_bytes(n as nat))]);
            },
            None => {
                assert(ms.deep_view() =~= second + none);
            },
        }
        Some(ms)
    }

    /// The JSON object that this is written as.
    pub fn to_json(&self) -> (r: Option<RawJson>)
        ensures
            r is Some <==> info_encodable(self.deep_view()),
            r matches Some(j) ==> j@ == json_object_bytes(info_members(self.deep_view())),
    {
        match self.to_members() {
            Some(ms) => Some(RawJson::object(&ms)),
            None => None,
        }
    }

    /// The `AudioInfo` that members hold.
    pub fn from_members(members: &Vec<Member>) -> (r: Result<AudioInfo, DecodeError>)
        ensures
            info_read(r) == info_of(members.deep_view()),
    {
        let duration = match read_opt_number(members, "duration") {
            Err(e) => {
                return Err(e);
            },
            Ok(Some(ms)) => Some(Duration::from_millis(ms)),
            Ok(None) => None,
        };
        let mimetype = match read_opt_string(members, "mimetype") {
            Err(e) => {
                return Err(e);
            },
            Ok(m) => m,
        };
        let size = match read_opt_number(members, "size") {
            Err(e) => {
                return Err(e);
            },
            Ok(n) => n,
        };
        Ok(AudioInfo { duration, mimetype, size })
    }
}

/// The decimal digits of each amplitude.
pub open spec fn amplitude_items(w: Seq<Amplitude>) -> Seq<Seq<u8>> {
    w.map_values(|a: Amplitude| decimal_bytes(a.value as nat))
}

/// Whether the duration of an `AudioDetails` can be written.
pub open spec fn details_encodable(d: AudioDetailsView) -> bool {
    d.duration.secs <= MAX_SAFE_UINT
}

/// The members of an `AudioDetails`: the duration in whole seconds, and the
/// waveform where it is not empty.
pub open spec fn details_members(d: AudioDetailsView) -> Seq<(Seq<char>, Seq<u8>)> {
    seq![("duration"@, decimal_bytes(d.duration.secs as nat))] + (if d.waveform.len() > 0 {
        seq![("waveform"@, json_array_bytes(amplitude_items(d.waveform)))]
    } else {
        Seq::empty()
    })
}

/// The amplitudes that the first `n` items hold, if each is a whole number.
pub open spec fn amplitudes_of(items: Seq<Seq<u8>>, n: int) -> Option<Seq<Amplitude>>
    decreases n,
{
    if n <= 0 {
        Some(Seq::empty())
    } else {
        match amplitudes_of(items, n - 1) {
            None => None,
            Some(w) => match json_number_value(items[n - 1]) {
                Some(x) => Some(w.push(clamped(x))),
                None => None,
            },
        }
    }
}

/// The waveform under its key; none where the key is not there.
pub open spec fn waveform_of(ms: Seq<(Seq<char>, Seq<u8>)>) -> Result<
    Seq<Amplitude>,
    DecodeErrorView,
> {
    match lookup(ms, "waveform"@) {
        None => Ok(Seq::empty()),
        Some(j) => match json_array_items(j) {
            None => Err(DecodeErrorView::InvalidMember("waveform"@)),
            Some(items) => match amplitudes_of(items, items.len() as int) {
                None => Err(DecodeErrorView::InvalidMember("waveform"@)),
                Some(w) => Ok(w),
            },
        },
    }
}

/// The `AudioDetails` that members hold.
pub open spec fn details_of(ms: Seq<(Seq<char>, Seq<u8>)>) -> Result<
    AudioDetailsView,
    DecodeErrorView,
> {
    match lookup(ms, "duration"@) {
        None => Err(DecodeErrorView::MissingMember("duration"@)),
        Some(j) => match safe_number(j) {
            None => Err(DecodeErrorView::InvalidMember("duration"@)),
            Some(secs) => match waveform_of(ms) {
                Err(e) => Err(e),
                Ok(w) => Ok(
                    AudioDetailsView { duration: Duration { secs, nanos: 0 }, waveform: w },
                ),
            },
        },
    }
}

/// What a result of reading an `AudioDetails` stands for.
pub open spec fn details_read(r: Result<AudioDetails, DecodeError>) -> Result<
    AudioDetailsView,
    DecodeErrorView,
> {
    match r {
        Ok(d) => Ok(d.deep_view()),
        Err(e) => Err(e.deep_view()),
    }
}

proof fn lemma_amplitudes_fail(items: Seq<Seq<u8>>, n: int, m: int)
    requires
        n <= m,
        amplitudes_of(items, n) is None,
    ensures
        amplitudes_of(items, m) is None,
    decreases m - n,
{
    if n < m {
        lemma_amplitudes_fail(items, n, m - 1);
    }
}

fn read_waveform(members: &Vec<Member>) -> (r: Result<Vec<Amplitude>, DecodeError>)
    ensures
        match r {
            Ok(w) => waveform_of(members.deep_view()) == Ok::<Seq<Amplitude>, DecodeErrorView>(w@),
            Err(e) => waveform_of(members.deep_view()) == Err::<Seq<Amplitude>, DecodeErrorView>(
                e.deep_view(),
            ),
        },
{
    let mut w: Vec<Amplitude> = Vec::new();
    match find_member(members, "waveform") {
        None => Ok(w),
        Some(j) => match j.items() {
            None => Err(DecodeError::InvalidMember(String::from_str("waveform"))),
            Some(items) => {
                let ghost its = items.deep_view();
                let mut i: usize = 0;
                while i < items.len()
                    invariant
                        i <= items.len(),
                        its == items.deep_view(),
                        lookup(members.deep_view(), "waveform"@) == Some(j@),
                        json_array_items(j@) == Some(its),
                        amplitudes_of(its, i as int) == Some(w@),
                    decreases items.len() - i,
                {
                    assert(its[i as int] == items[i as int]@);
                    match items[i].as_number() {
                        Some(x) => {
                            w.push(Amplitude::new(x));
                        },
                        None => {
                            proof {
                                lemma_amplitudes_fail(its, i + 1, items.len() as int);
                            }
                            return Err(DecodeError::InvalidMember(String::from_str("waveform")));
                        },
                    }
                    i += 1;
                }
                Ok(w)
            },
        },
    }
}

impl AudioDetails {
    /// The members of the object that this is written as; nothing where
    /// the duration is too large to be written.
    pub fn to_members(&self) -> (r: Option<Vec<Member>>)
        ensures
            r is Some <==> details_encodable(self.deep_view()),
            r matches Some(ms) ==> ms.deep_view() == details_members(self.deep_view()),
    {
        if !safe_uint(self.duration.secs) {
            return None;
        }
        let mut ms: Vec<Member> = Vec::new();
        ms.push(
            Member { key: String::from_str("duration"), value: RawJson::number(self.duration.secs) },
        );
        let ghost first = ms.deep_view();
        assert(first =~= seq![("duration"@, decimal_bytes(self.duration.secs as nat))]);
        if self.waveform.len() > 0 {
            let mut items: Vec<RawJson> = Vec::new();
            let mut i: usize = 0;
            while i < self.waveform.len()
                invariant
                    i <= self.waveform.len(),
                    items.len() == i,
                    forall|k: int|
                        0 <= k < i ==> (#[trigger] items[k])@ == decimal_bytes(
                            self.waveform[k].value as nat,
                        ),
                decreases self.waveform.len() - i,
            {
                items.push(RawJson::number(self.waveform[i].value as u64));
                i += 1;
            }
            assert(items.deep_view() =~= amplitude_items(self.waveform@));
            ms.push(Member { key: String::from_str("waveform"), value: RawJson::array(&items) });
            assert(ms.deep_view() =~= first + seq![
                ("waveform"@, json_array_bytes(amplitude_items(self.waveform@))),
            ]);
        } else {
            assert(ms.deep_view() =~= first + Seq::<(Seq<char>, Seq<u8>)>::empty());
        }
        Some(ms)
    }

    /// The JSON object that this is written as.
    pub fn to_json(&self) -> (r: Option<RawJson>)
        ensures
            r is Some <==> details_encodable(self.deep_view()),
            r matches Some(j) ==> j@ == json_object_bytes(details_members(self.deep_view())),
    {
        match self.to_members() {
            Some(ms) => Some(RawJson::object(&ms)),
            None => None,
        }
    }

    /// The `AudioDetails` that members hold.
    pub fn from_members(members: &Vec<Member>) -> (r: Result<AudioDetails, DecodeError>)
        ensures
            details_read(r) == details_of(members.deep_view()),
    {
        let secs = match find_member(members, "duration") {
            None => {
                return Err(DecodeError::MissingMember(String::from_str("duration")));
            },
            Some(j) => match read_safe_number(&j) {
                None => {
                    return Err(DecodeError::InvalidMember(String::from_str("duration")));
                },
                Some(n) => n,
            },
        };
        match read_waveform(members) {
            Err(e) => Err(e),
            Ok(waveform) => Ok(AudioDetails { duration: Duration::from_secs(secs), waveform }),
        }
    }
}

/// A field of the audio variant.
pub open spec fn audio_field(key: Seq<char>, omission: Omission, merge: Merge) -> ContentFieldView {
    ContentFieldView { key, omission, merge }
}

/// The audio variant: tagged `m.audio` under `msgtype`, with the body, the
/// source given to the object, and three blocks that may be left out.
pub open spec fn audio_variant() -> VariantView {
    VariantView {
        tag_key: "msgtype"@,
        tag: "m.audio"@,
        fields: seq![
            audio_field("body"@, Omission::Always, Merge::Nest),
            audio_field("source"@, Omission::Always, Merge::Flatten),
            audio_field("info"@, Omission::IfAbsent, Merge::Nest),
            audio_field("org.matrix.msc1767.audio"@, Omission::IfAbsent, Merge::Nest),
            audio_field("org.matrix.msc3245.voice"@, Omission::IfAbsent, Merge::Nest),
        ],
    }
}

fn field(key: &str, omission: Omission, merge: Merge) -> (f: ContentField)
    ensures
        f.deep_view() == audio_field(key@, omission, merge),
{
    ContentField { key: String::from_str(key), omission, merge }
}

/// The audio variant.
pub fn variant() -> (v: Variant)
    ensures
        v.deep_view() == audio_variant(),
{
    let mut fields: Vec<ContentField> = Vec::new();
    fields.push(field("body", Omission::Always, Merge::Nest));
    fields.push(field("source", Omission::Always, Merge::Flatten));
    fields.push(field("info", Omission::IfAbsent, Merge::Nest));
    fields.push(field("org.matrix.msc1767.audio", Omission::IfAbsent, Merge::Nest));
    fields.push(field("org.matrix.msc3245.voice", Omission::IfAbsent, Merge::Nest));
    assert(fields.deep_view() =~= audio_variant().fields);
    Variant { tag_key: String::from_str("msgtype"), tag: String::from_str("m.audio"), fields }
}

/// The audio variant keeps the rules of variants: the keys of its nested
/// fields differ from each other and from the key of the tag, and one field
/// only is flattened.
pub proof fn law_audio_variant_rules()
    ensures
        crate::content::variant_rules(audio_variant()),
{
    reveal_strlit("msgtype");
    reveal_strlit("body");
    reveal_strlit("info");
    reveal_strlit("org.matrix.msc1767.audio");
    reveal_strlit("org.matrix.msc3245.voice");
    let v = audio_variant();
    let body = "body"@;
    let info = "info"@;
    let audio = "org.matrix.msc1767.audio"@;
    let voice = "org.matrix.msc3245.voice"@;
    assert(body[0] != info[0]);
    assert(audio[14] != voice[14]);
    assert(body.len() == 4 && info.len() == 4 && audio.len() == 24 && voice.len() == 24);
    assert(v.tag_key.len() == 7);
    assert(v.fields[0].key == body);
    assert(v.fields[2].key == info);
    assert(v.fields[3].key == audio);
    assert(v.fields[4].key == voice);
    assert(v.fields[1].merge == Merge::Flatten);
}

/// The members that a source gives to the object: the address under `url`,
/// or the encrypted file under `file`.
pub open spec fn source_members(s: MediaSourceView) -> Seq<(Seq<char>, Seq<u8>)> {
    match s {
        MediaSourceView::Plain(url) => seq![("url"@, json_string_bytes(url))],
        MediaSourceView::Encrypted(file) => seq![("file"@, file)],
    }
}

/// Whether every number of the content can be written.
pub open spec fn content_encodable(c: AudioContentView) -> bool {
    &&& c.info matches Some(i) ==> info_encodable(i)
    &&& c.audio_details matches Some(d) ==> details_encodable(d)
}

/// The values of the fields of the audio variant, for a content.
pub open spec fn content_values(c: AudioContentView) -> Seq<ContentValueView> {
    seq![
        ContentValueView::Json(json_string_bytes(c.body)),
        ContentValueView::Members(source_members(c.source)),
        match c.info {
            Some(i) => ContentValueView::Json(json_object_bytes(info_members(i))),
            None => ContentValueView::Absent,
        },
        match c.audio_details {
            Some(d) => ContentValueView::Json(json_object_bytes(details_members(d))),
            None => ContentValueView::Absent,
        },
        if c.voice {
            ContentValueView::Json(json_object_bytes(Seq::empty()))
        } else {
            ContentValueView::Absent
        },
    ]
}

/// The source that members hold: the address where `url` is there, else
/// the encrypted file.
pub open spec fn source_of(ms: Seq<(Seq<char>, Seq<u8>)>) -> Result<
    MediaSourceView,
    DecodeErrorView,
> {
    match lookup(ms, "url"@) {
        Some(u) => match json_string_value(u) {
            Some(t) => Ok(MediaSourceView::Plain(t)),
            None => Err(DecodeErrorView::InvalidMember("url"@)),
        },
        None => match lookup(ms, "file"@) {
            Some(f) => Ok(MediaSourceView::Encrypted(f)),
            None => Err(DecodeErrorView::MissingMember("url"@)),
        },
    }
}

/// The body that a value holds.
pub open spec fn body_of_value(v: ContentValueView) -> Result<Seq<char>, DecodeErrorView> {
    match v {
        ContentValueView::Json(j) => match json_string_value(j) {
            Some(t) => Ok(t),
            None => Err(DecodeErrorView::InvalidMember("body"@)),
        },
        _ => Err(DecodeErrorView::MissingMember("body"@)),
    }
}

/// The source that a value holds.
pub open spec fn source_of_value(v: ContentValueView) -> Result<MediaSourceView, DecodeErrorView> {
    match v {
        ContentValueView::Members(ms) => source_of(ms),
        _ => Err(DecodeErrorView::MissingMember("url"@)),
    }
}

/// The `AudioInfo` that a value holds, if it holds any.
pub open spec fn info_of_value(v: ContentValueView) -> Result<
    Option<AudioInfoView>,
    DecodeErrorView,
> {
    match v {
        ContentValueView::Json(j) => match json_object_members(j) {
            None => Err(DecodeErrorView::InvalidMember("info"@)),
            Some(ms) => match info_of(ms) {
                Ok(i) => Ok(Some(i)),
                Err(e) => Err(e),
            },
        },
        _ => Ok(None),
    }
}

/// The `AudioDetails` that a value holds, if it holds any.
pub open spec fn details_of_value(v: ContentValueView) -> Result<
    Option<AudioDetailsView>,
    DecodeErrorView,
> {
    match v {
        ContentValueView::Json(j) => match json_object_members(j) {
            None => Err(DecodeErrorView::InvalidMember("org.matrix.msc1767.audio"@)),
            Some(ms) => match details_of(ms) {
                Ok(d) => Ok(Some(d)),
                Err(e) => Err(e),
            },
        },
        _ => Ok(None),
    }
}

/// Whether a value holds the mark of a voice message.
pub open spec fn voice_of_value(v: ContentValueView) -> Result<bool, DecodeErrorView> {
    match v {
        ContentValueView::Json(j) => match json_object_members(j) {
            None => Err(DecodeErrorView::InvalidMember("org.matrix.msc3245.voice"@)),
            Some(_) => Ok(true),
        },
        _ => Ok(false),
    }
}

/// The content that the values of the fields of the audio variant hold:
/// the first field, in the order of the variant, that cannot be read gives
/// the error.
pub open spec fn content_of(values: Seq<ContentValueView>) -> Result<
    AudioContentView,
    DecodeErrorView,
> {
    if values.len() != 5 {
        Err(DecodeErrorView::InvalidBody)
    } else if body_of_value(values[0]) is Err {
        Err(body_of_value(values[0])->Err_0)
    } else if source_of_value(values[1]) is Err {
        Err(source_of_value(values[1])->Err_0)
    } else if info_of_value(values[2]) is Err {
        Err(info_of_value(values[2])->Err_0)
    } else if details_of_value(values[3]) is Err {
        Err(details_of_value(values[3])->Err_0)
    } else if voice_of_value(values[4]) is Err {
        Err(voice_of_value(values[4])->Err_0)
    } else {
        Ok(
            AudioContentView {
                body: body_of_value(values[0])->Ok_0,
                source: source_of_value(values[1])->Ok_0,
                info: info_of_value(values[2])->Ok_0,
                audio_details: details_of_value(values[3])->Ok_0,
                voice: voice_of_value(values[4])->Ok_0,
            },
        )
    }
}

/// The content that the bytes of a JSON value hold: they have to hold an
/// object that is tagged as the audio variant.
pub open spec fn content_from(bytes: Seq<u8>) -> Result<AudioContentView, DecodeErrorView> {
    match json_object_members(bytes) {
        None => Err(DecodeErrorView::InvalidBody),
        Some(ms) => match variant_values(audio_variant(), ms) {
            Err(e) => Err(e),
            Ok(values) => content_of(values),
        },
    }
}

/// What a result of reading a content stands for.
pub open spec fn content_decoded(r: Result<AudioMessageEventContent, DecodeError>) -> Result<
    AudioContentView,
    DecodeErrorView,
> {
    match r {
        Ok(c) => Ok(c.deep_view()),
        Err(e) => Err(e.deep_view()),
    }
}

fn read_source(members: &Vec<Member>) -> (r: Result<MediaSource, DecodeError>)
    ensures
        match r {
            Ok(s) => source_of(members.deep_view()) == Ok::<MediaSourceView, DecodeErrorView>(
                s.deep_view(),
            ),
            Err(e) => source_of(members.deep_view()) == Err::<MediaSourceView, DecodeErrorView>(
                e.deep_view(),
            ),
        },
{
    match find_member(members, "url") {
        Some(u) => match u.as_string() {
            Some(t) => Ok(MediaSource::Plain(t)),
            None => Err(DecodeError::InvalidMember(String::from_str("url"))),
        },
        None => match find_member(members, "file") {
            Some(f) => Ok(MediaSource::Encrypted(Box::new(EncryptedFile { json: f }))),
            None => Err(DecodeError::MissingMember(String::from_str("url"))),
        },
    }
}

impl AudioMessageEventContent {
    /// The values of the fields of the audio variant; nothing where a
    /// number is too large to be written.
    pub fn to_values(&self) -> (r: Option<Vec<ContentValue>>)
        ensures
            r is Some <==> content_encodable(self.deep_view()),
            r matches Some(vs) ==> vs.deep_view() == content_values(self.deep_view()),
    {
        let mut source: Vec<Member> = Vec::new();
        match &self.source {
            MediaSource::Plain(url) => {
                source.push(
                    Member { key: String::from_str("url"), value: RawJson::string(url.as_str()) },
                );
            },
            MediaSource::Encrypted(file) => {
                source.push(Member { key: String::from_str("file"), value: file.json.duplicate() });
            },
        }
        assert(source.deep_view() =~= source_members(self.source.deep_view()));
        let info = match &self.info {
            Some(i) => match i.to_json() {
                Some(j) => ContentValue::Json(j),
                None => {
                    return None;
                },
            },
            None => ContentValue::Absent,
        };
        let details = match &self.audio_details {
            Some(d) => match d.to_json() {
                Some(j) => ContentValue::Json(j),
                None => {
                    return None;
                },
            },
            None => ContentValue::Absent,
        };
        let voice = match &self.voice {
            Some(_) => {
                let none: Vec<Member> = Vec::new();
                assert(none.deep_view() =~= Seq::<(Seq<char>, Seq<u8>)>::empty());
                ContentValue::Json(RawJson::object(&none))
            },
            None => ContentValue::Absent,
        };
        let mut vs: Vec<ContentValue> = Vec::new();
        vs.push(ContentValue::Json(RawJson::string(self.body.as_str())));
        vs.push(ContentValue::Members(source));
        vs.push(info);
        vs.push(details);
        vs.push(voice);
        assert(vs.deep_view() =~= content_values(self.deep_view()));
        Some(vs)
    }

    /// The JSON object that the content is written as: the tag, the body,
    /// the members of the source, and each block that is there.
    pub fn to_json(&self) -> (r: Option<RawJson>)
        ensures
            r is Some <==> content_encodable(self.deep_view()),
            r matches Some(j) ==> j@ == json_object_bytes(
                variant_members(audio_variant(), content_values(self.deep_view())),
            ),
    {
        match self.to_values() {
            Some(vs) => {
                let members = encode_variant(&variant(), &vs);
                Some(RawJson::object(&members))
            },
            None => None,
        }
    }

    /// The content that the values of the fields of the audio variant hold.
    pub fn from_values(values: &Vec<ContentValue>) -> (r: Result<
        AudioMessageEventContent,
        DecodeError,
    >)
        ensures
            content_decoded(r) == content_of(values.deep_view()),
    {
        if values.len() != 5 {
            return Err(DecodeError::InvalidBody);
        }
        proof {
            assert(values.deep_view()[0] == values[0].deep_view());
            assert(values.deep_view()[1] == values[1].deep_view());
            assert(values.deep_view()[2] == values[2].deep_view());
            assert(values.deep_view()[3] == values[3].deep_view());
            assert(values.deep_view()[4] == values[4].deep_view());
        }
        let body = match &values[0] {
            ContentValue::Json(j) => match j.as_string() {
                Some(t) => t,
                None => {
                    return Err(DecodeError::InvalidMember(String::from_str("body")));
                },
            },
            _ => {
                return Err(DecodeError::MissingMember(String::from_str("body")));
            },
        };
        let source = match &values[1] {
            ContentValue::Members(ms) => match read_source(ms) {
                Ok(s) => s,
                Err(e) => {
                    return Err(e);
                },
            },
            _ => {
                return Err(DecodeError::MissingMember(String::from_str("url")));
            },
        };
        let info = match &values[2] {
            ContentValue::Json(j) => match j.members() {
                None => {
                    return Err(DecodeError::InvalidMember(String::from_str("info")));
                },
                Some(ms) => match AudioInfo::from_members(&ms) {
                    Ok(i) => Some(Box::new(i)),
                    Err(e) => {
                        return Err(e);
                    },
                },
            },
            _ => None,
        };
        let audio_details = match &values[3] {
            ContentValue::Json(j) => match j.members() {
                None => {
                    return Err(
                        DecodeError::InvalidMember(String::from_str("org.matrix.msc1767.audio")),
                    );
                },
                Some(ms) => match AudioDetails::from_members(&ms) {
                    Ok(d) => Some(Box::new(d)),
                    Err(e) => {
                        return Err(e);
                    },
                },
            },
            _ => None,
        };
        let voice = match &values[4] {
            ContentValue::Json(j) => match j.members() {
                None => {
                    return Err(
                        DecodeError::InvalidMember(String::from_str("org.matrix.msc3245.voice")),
                    );
                },
                Some(_) => Some(Box::new(VoiceInfo::new())),
            },
            _ => None,
        };
        Ok(AudioMessageEventContent { body, source, info, audio_details, voice })
    }

    /// The content that a JSON value holds.
    pub fn from_json(j: &RawJson) -> (r: Result<AudioMessageEventContent, DecodeError>)
        ensures
            content_decoded(r) == content_from(j@),
    {
        match j.members() {
            None => Err(DecodeError::InvalidBody),
            Some(ms) => match decode_variant(&variant(), &ms) {
                Err(e) => Err(e),
                Ok(values) => AudioMessageEventContent::from_values(&values),
            },
        }
    }
}

} // verus!
