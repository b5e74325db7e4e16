use ruma_api_schema::audio::{
    variant, Amplitude, AudioDetails, AudioInfo, AudioMessageEventContent, Duration,
    EncryptedFile, MediaSource, VoiceInfo, MAX_AMPLITUDE,
};
use ruma_api_schema::content::{
    decode_variant, encode_variant, ContentField, ContentValue, Merge, Omission, Variant,
};
use ruma_api_schema::error::DecodeError;
use ruma_api_schema::json::{safe_uint, Member, RawJson, MAX_SAFE_UINT};

fn json(text: &str) -> RawJson {
    RawJson::parse(text).expect("valid JSON")
}

fn keys(j: &RawJson) -> Vec<String> {
    j.members().expect("an object").iter().map(|m| m.key.clone()).collect()
}

fn member(j: &RawJson, key: &str) -> Option<Vec<u8>> {
    j.members().expect("an object").iter().find(|m| m.key == key).map(|m| m.value.to_bytes())
}

#[test]
fn safe_numbers() {
    assert_eq!(MAX_SAFE_UINT, 9007199254740991);
    assert!(safe_uint(0));
    assert!(safe_uint(MAX_SAFE_UINT));
    assert!(!safe_uint(MAX_SAFE_UINT + 1));
    assert!(!safe_uint(u64::MAX));
}

#[test]
fn durations() {
    assert_eq!(Duration::from_secs(3), Duration { secs: 3, nanos: 0 });
    assert_eq!(Duration::from_millis(1500), Duration { secs: 1, nanos: 500_000_000 });
    assert_eq!(Duration::from_millis(999), Duration { secs: 0, nanos: 999_000_000 });
    assert_eq!(Duration::from_millis(1500).as_secs(), 1);
    assert_eq!(Duration::from_millis(1500).as_safe_millis(), Some(1500));
    assert_eq!(Duration { secs: 2, nanos: 1_999_999 }.as_safe_millis(), Some(2001));
    assert_eq!(Duration::from_millis(MAX_SAFE_UINT).as_safe_millis(), Some(MAX_SAFE_UINT));
    assert_eq!(Duration::from_secs(MAX_SAFE_UINT / 1000 + 1).as_safe_millis(), None);
    assert_eq!(Duration::from_secs(u64::MAX).as_safe_millis(), None);
    assert_eq!(
        Duration { secs: MAX_SAFE_UINT / 1000, nanos: 999_000_000 }.as_safe_millis(),
        None
    );
}

#[test]
fn amplitudes() {
    assert_eq!(MAX_AMPLITUDE, 256);
    assert_eq!(Amplitude::new(0).get(), 0);
    assert_eq!(Amplitude::new(256).get(), 256);
    assert_eq!(Amplitude::new(257).get(), 256);
    assert_eq!(Amplitude::new(u64::MAX).get(), 256);
}

#[test]
fn constructors() {
    let info = AudioInfo::new();
    assert!(info.duration.is_none() && info.mimetype.is_none() && info.size.is_none());
    let details = AudioDetails::new(Duration::from_secs(7), vec![Amplitude::new(1)]);
    assert_eq!(details.duration, Duration { secs: 7, nanos: 0 });
    assert_eq!(details.waveform, vec![Amplitude { value: 1 }]);
    assert_eq!(VoiceInfo::new(), VoiceInfo {});
    assert_eq!(VoiceInfo::default(), VoiceInfo {});
    let content = AudioMessageEventContent::new(
        "a clip".to_string(),
        MediaSource::Plain("mxc://example.org/abc".to_string()),
        true,
    );
    assert_eq!(content.body, "a clip");
    assert!(content.is_voice());
    assert!(content.info.is_none() && content.audio_details.is_none());
    let content = AudioMessageEventContent::plain("b".to_string(), "mxc://e/f".to_string(), false);
    assert!(!content.is_voice());
    assert!(matches!(&content.source, MediaSource::Plain(u) if u == "mxc://e/f"));
    let content = content.info(Some(Box::new(AudioInfo::new())));
    assert!(content.info.is_some());
    let content = content.audio_details(Some(Box::new(details)));
    assert_eq!(content.audio_details.as_ref().map(|d| d.duration.secs), Some(7));
    let content = content.info(None);
    assert!(content.info.is_none());
    assert!(content.audio_details.is_some());
    let file = EncryptedFile { json: json("{\"url\":\"mxc://e/g\",\"v\":\"v2\"}") };
    let content = AudioMessageEventContent::encrypted("c".to_string(), file, false);
    assert!(
        matches!(&content.source, MediaSource::Encrypted(f) if f.json.to_bytes() == b"{\"url\":\"mxc://e/g\",\"v\":\"v2\"}".to_vec())
    );
}

#[test]
fn audio_info_on_the_wire() {
    assert_eq!(AudioInfo::new().to_json().expect("writes").to_bytes(), b"{}".to_vec());
    let info = AudioInfo {
        duration: Some(Duration::from_millis(1500)),
        mimetype: Some("audio/aac".to_string()),
        size: Some(1024),
    };
    let j = info.to_json().expect("writes");
    assert_eq!(
        j.to_bytes(),
        b"{\"duration\":1500,\"mimetype\":\"audio/aac\",\"size\":1024}".to_vec()
    );
    let back = AudioInfo::from_members(&j.members().expect("an object")).expect("reads");
    assert_eq!(back.duration, Some(Duration::from_millis(1500)));
    assert_eq!(back.mimetype.as_deref(), Some("audio/aac"));
    assert_eq!(back.size, Some(1024));
    let too_large = AudioInfo { duration: None, mimetype: None, size: Some(MAX_SAFE_UINT + 1) };
    assert!(too_large.to_json().is_none());
    let too_long =
        AudioInfo { duration: Some(Duration::from_secs(u64::MAX)), mimetype: None, size: None };
    assert!(too_long.to_json().is_none());
    let read = |text: &str| AudioInfo::from_members(&json(text).members().expect("an object"));
    assert!(matches!(
        read("{\"size\": 9007199254740992}"),
        Err(DecodeError::InvalidMember(k)) if k == "size"
    ));
    assert!(matches!(
        read("{\"duration\": \"long\"}"),
        Err(DecodeError::InvalidMember(k)) if k == "duration"
    ));
    assert!(matches!(
        read("{\"mimetype\": 3}"),
        Err(DecodeError::InvalidMember(k)) if k == "mimetype"
    ));
    let empty = read("{\"other\": 1}").expect("reads");
    assert!(empty.duration.is_none() && empty.mimetype.is_none() && empty.size.is_none());
}

#[test]
fn audio_details_on_the_wire() {
    let details = AudioDetails::new(Duration::from_millis(2999), vec![]);
    assert_eq!(details.to_json().expect("writes").to_bytes(), b"{\"duration\":2}".to_vec());
    let details =
        AudioDetails::new(Duration::from_secs(2), vec![Amplitude::new(0), Amplitude::new(256)]);
    let j = details.to_json().expect("writes");
    assert_eq!(j.to_bytes(), b"{\"duration\":2,\"waveform\":[0,256]}".to_vec());
    let back = AudioDetails::from_members(&j.members().expect("an object")).expect("reads");
    assert_eq!(back.duration, Duration::from_secs(2));
    assert_eq!(back.waveform, vec![Amplitude { value: 0 }, Amplitude { value: 256 }]);
    assert!(AudioDetails::new(Duration::from_secs(MAX_SAFE_UINT + 1), vec![]).to_json().is_none());
    let read = |text: &str| AudioDetails::from_members(&json(text).members().expect("an object"));
    assert!(matches!(read("{}"), Err(DecodeError::MissingMember(k)) if k == "duration"));
    assert!(matches!(
        read("{\"duration\": 1.5}"),
        Err(DecodeError::InvalidMember(k)) if k == "duration"
    ));
    assert!(matches!(
        read("{\"duration\": 1, \"waveform\": 3}"),
        Err(DecodeError::InvalidMember(k)) if k == "waveform"
    ));
    assert!(matches!(
        read("{\"duration\": 1, \"waveform\": [1, \"x\"]}"),
        Err(DecodeError::InvalidMember(k)) if k == "waveform"
    ));
    let clamped = read("{\"duration\": 1, \"waveform\": [1, 1000]}").expect("reads");
    assert_eq!(clamped.waveform, vec![Amplitude { value: 1 }, Amplitude { value: 256 }]);
}

#[test]
fn audio_message_plain_scenario() {
    let content = AudioMessageEventContent::plain(
        "Upload: my_song.mp3".to_string(),
        "mxc://notareal.hs/file".to_string(),
        false,
    );
    let j = content.to_json().expect("writes");
    assert_eq!(
        j.to_bytes(),
        b"{\"msgtype\":\"m.audio\",\"body\":\"Upload: my_song.mp3\",\"url\":\"mxc://notareal.hs/file\"}"
            .to_vec()
    );
    assert_eq!(member(&j, "msgtype"), Some(b"\"m.audio\"".to_vec()));
    assert_eq!(member(&j, "url"), Some(b"\"mxc://notareal.hs/file\"".to_vec()));
    assert_eq!(member(&j, "info"), None);
    assert!(!j.to_bytes().windows(4).any(|w| w == b"null"));
    let back = AudioMessageEventContent::from_json(&j).expect("reads");
    assert_eq!(back.body, "Upload: my_song.mp3");
    assert!(matches!(&back.source, MediaSource::Plain(u) if u == "mxc://notareal.hs/file"));
    assert!(back.info.is_none());
    assert!(back.audio_details.is_none());
    assert!(!back.is_voice());
}

#[test]
fn audio_message_encrypted_scenario() {
    let file = "{\"url\":\"mxc://e/g\",\"key\":{\"k\":\"x\"},\"iv\":\"i\",\"hashes\":{},\"v\":\"v2\"}";
    let content = AudioMessageEventContent::encrypted(
        "clip".to_string(),
        EncryptedFile { json: json(file) },
        true,
    );
    let j = content.to_json().expect("writes");
    assert_eq!(
        keys(&j),
        vec!["body", "file", "msgtype", "org.matrix.msc3245.voice"]
    );
    assert_eq!(member(&j, "file"), Some(file.as_bytes().to_vec()));
    assert_eq!(member(&j, "org.matrix.msc3245.voice"), Some(b"{}".to_vec()));
    let back = AudioMessageEventContent::from_json(&j).expect("reads");
    assert!(matches!(&back.source, MediaSource::Encrypted(f) if f.json.to_bytes() == file.as_bytes().to_vec()));
    assert!(back.is_voice());
    assert!(back.info.is_none());
}

#[test]
fn audio_message_with_blocks() {
    let info = AudioInfo {
        duration: Some(Duration::from_millis(5000)),
        mimetype: Some("audio/ogg".to_string()),
        size: None,
    };
    let details = AudioDetails::new(Duration::from_secs(5), vec![Amplitude::new(12)]);
    let content = AudioMessageEventContent::plain("v".to_string(), "mxc://e/f".to_string(), true)
        .info(Some(Box::new(info)))
        .audio_details(Some(Box::new(details)));
    let j = content.to_json().expect("writes");
    assert_eq!(
        String::from_utf8(j.to_bytes()).expect("text"),
        "{\"msgtype\":\"m.audio\",\"body\":\"v\",\"url\":\"mxc://e/f\",\
         \"info\":{\"duration\":5000,\"mimetype\":\"audio/ogg\"},\
         \"org.matrix.msc1767.audio\":{\"duration\":5,\"waveform\":[12]},\
         \"org.matrix.msc3245.voice\":{}}"
    );
    let back = AudioMessageEventContent::from_json(&j).expect("reads");
    let info = back.info.expect("info");
    assert_eq!(info.duration, Some(Duration::from_millis(5000)));
    assert_eq!(info.mimetype.as_deref(), Some("audio/ogg"));
    assert_eq!(info.size, None);
    let details = back.audio_details.expect("details");
    assert_eq!(details.duration, Duration::from_secs(5));
    assert_eq!(details.waveform, vec![Amplitude { value: 12 }]);
    assert!(back.voice.is_some());
    let unwritable = AudioMessageEventContent::plain("v".to_string(), "u".to_string(), false)
        .info(Some(Box::new(AudioInfo { duration: None, mimetype: None, size: Some(u64::MAX) })));
    assert!(unwritable.to_json().is_none());
}

#[test]
fn audio_message_that_cannot_be_read() {
    let read = |text: &str| AudioMessageEventContent::from_json(&json(text));
    assert!(matches!(read("[1]"), Err(DecodeError::InvalidBody)));
    assert!(matches!(
        read("{\"body\":\"b\",\"url\":\"u\"}"),
        Err(DecodeError::MissingMember(k)) if k == "msgtype"
    ));
    assert!(matches!(
        read("{\"msgtype\":\"m.image\",\"body\":\"b\",\"url\":\"u\"}"),
        Err(DecodeError::WrongVariant)
    ));
    assert!(matches!(
        read("{\"msgtype\":7,\"body\":\"b\",\"url\":\"u\"}"),
        Err(DecodeError::WrongVariant)
    ));
    assert!(matches!(
        read("{\"msgtype\":\"m.audio\",\"url\":\"u\"}"),
        Err(DecodeError::MissingMember(k)) if k == "body"
    ));
    assert!(matches!(
        read("{\"msgtype\":\"m.audio\",\"body\":1,\"url\":\"u\"}"),
        Err(DecodeError::InvalidMember(k)) if k == "body"
    ));
    assert!(matches!(
        read("{\"msgtype\":\"m.audio\",\"body\":\"b\"}"),
        Err(DecodeError::MissingMember(k)) if k == "url"
    ));
    assert!(matches!(
        read("{\"msgtype\":\"m.audio\",\"body\":\"b\",\"url\":1}"),
        Err(DecodeError::InvalidMember(k)) if k == "url"
    ));
    assert!(matches!(
        read("{\"msgtype\":\"m.audio\",\"body\":\"b\",\"url\":\"u\",\"info\":1}"),
        Err(DecodeError::InvalidMember(k)) if k == "info"
    ));
    assert!(matches!(
        read("{\"msgtype\":\"m.audio\",\"body\":\"b\",\"url\":\"u\",\"info\":{\"size\":\"big\"}}"),
        Err(DecodeError::InvalidMember(k)) if k == "size"
    ));
    assert!(matches!(
        read("{\"msgtype\":\"m.audio\",\"body\":\"b\",\"url\":\"u\",\"org.matrix.msc1767.audio\":{}}"),
        Err(DecodeError::MissingMember(k)) if k == "duration"
    ));
    assert!(matches!(
        read("{\"msgtype\":\"m.audio\",\"body\":\"b\",\"url\":\"u\",\"org.matrix.msc3245.voice\":true}"),
        Err(DecodeError::InvalidMember(k)) if k == "org.matrix.msc3245.voice"
    ));
    let escaped = read("{\"msgtype\":\"m.\\u0061udio\",\"body\":\"b\",\"url\":\"u\",\"more\":1}")
        .expect("reads");
    assert_eq!(escaped.body, "b");
}

#[test]
fn variant_fields_by_policy() {
    let v = Variant {
        tag_key: "type".to_string(),
        tag: "t".to_string(),
        fields: vec![
            ContentField { key: "a".to_string(), omission: Omission::Always, merge: Merge::Nest },
            ContentField { key: "rest".to_string(), omission: Omission::Always, merge: Merge::Flatten },
            ContentField { key: "b".to_string(), omission: Omission::IfAbsent, merge: Merge::Nest },
        ],
    };
    let values = vec![
        ContentValue::Json(json("1")),
        ContentValue::Members(vec![
            Member { key: "x".to_string(), value: json("true") },
            Member { key: "y".to_string(), value: json("[]") },
        ]),
        ContentValue::Absent,
    ];
    let members = encode_variant(&v, &values);
    let listed: Vec<(String, Vec<u8>)> =
        members.iter().map(|m| (m.key.clone(), m.value.to_bytes())).collect();
    assert_eq!(
        listed,
        vec![
            ("type".to_string(), b"\"t\"".to_vec()),
            ("a".to_string(), b"1".to_vec()),
            ("x".to_string(), b"true".to_vec()),
            ("y".to_string(), b"[]".to_vec()),
        ]
    );
    let back = decode_variant(&v, &members).expect("reads");
    assert_eq!(back.len(), 3);
    assert!(matches!(&back[0], ContentValue::Json(j) if j.to_bytes() == b"1".to_vec()));
    match &back[1] {
        ContentValue::Members(ms) => {
            let ks: Vec<&str> = ms.iter().map(|m| m.key.as_str()).collect();
            assert_eq!(ks, vec!["x", "y"]);
        }
        other => panic!("unexpected: {:?}", other),
    }
    assert!(matches!(back[2], ContentValue::Absent));
    let short = encode_variant(&v, &vec![ContentValue::Json(json("1"))]);
    assert_eq!(short.len(), 2);
    let missing = decode_variant(&v, &members[..1].to_vec_members());
    assert!(matches!(missing, Err(DecodeError::MissingMember(k)) if k == "a"));
    assert_eq!(variant().fields.len(), 5);
    assert_eq!(variant().tag_key, "msgtype");
    assert_eq!(variant().tag, "m.audio");
}

trait ToVecMembers {
    fn to_vec_members(&self) -> Vec<Member>;
}

impl ToVecMembers for [Member] {
    fn to_vec_members(&self) -> Vec<Member> {
        self.iter().map(|m| Member { key: m.key.clone(), value: m.value.duplicate() }).collect()
    }
}
