use casm::catalog::lookup;
use casm::codec::Codec;

#[test]
fn test_acceptable_name() {
    let codec = Codec {
        name: "OPUS",
        lossless: false,
        extension: "opus",
    };
    let acceptable_formats = vec![
        "OPUS".to_owned(),
        "MP3".to_owned(),
        "quality:lossless".to_owned(),
    ];
    assert_eq!(codec.is_acceptable(&acceptable_formats), true)
}

#[test]
fn test_unacceptable_name() {
    let codec = Codec {
        name: "OPUS",
        lossless: false,
        extension: "opus",
    };
    let acceptable_formats = vec![
        "VORBIS".to_owned(),
        "MP3".to_owned(),
        "quality:lossless".to_owned(),
    ];
    assert_eq!(codec.is_acceptable(&acceptable_formats), false)
}

#[test]
fn test_acceptable_type() {
    let codec = Codec {
        name: "OPUS",
        lossless: false,
        extension: "opus",
    };
    let acceptable_formats = vec![
        "VORBIS".to_owned(),
        "MP3".to_owned(),
        "quality:lossy".to_owned(),
    ];
    assert_eq!(codec.is_acceptable(&acceptable_formats), true)
}

#[test]
fn test_unacceptable_type() {
    let codec = Codec {
        name: "OPUS",
        lossless: false,
        extension: "opus",
    };
    let acceptable_formats = vec![
        "VORBIS".to_owned(),
        "MP3".to_owned(),
        "quality:lossless".to_owned(),
    ];
    assert_eq!(codec.is_acceptable(&acceptable_formats), false)
}

#[test]
fn empty_allow_list_accepts_nothing() {
    let codec = Codec { name: "FLAC", lossless: true, extension: "flac" };
    assert!(!codec.is_acceptable(&[]));
}

#[test]
fn lossless_tag_accepts_lossless_codec() {
    let codec = Codec { name: "FLAC", lossless: true, extension: "flac" };
    assert!(codec.is_acceptable(&["quality:lossless".to_owned()]));
    assert!(!codec.is_acceptable(&["quality:lossy".to_owned()]));
}

#[test]
fn name_match_is_case_sensitive() {
    let codec = Codec { name: "OPUS", lossless: false, extension: "opus" };
    assert!(!codec.is_acceptable(&["opus".to_owned()]));
}

#[test]
fn lookup_ignores_case() {
    let c = lookup("opus").unwrap();
    assert_eq!(c.name, "OPUS");
    assert_eq!(c.extension, "opus");
    assert!(!c.lossless);
    let f = lookup("Flac").unwrap();
    assert_eq!(f.name, "FLAC");
    assert!(f.lossless);
}

#[test]
fn lookup_exact_name() {
    let c = lookup("WAVPACK").unwrap();
    assert_eq!(c.extension, ".wv");
    assert!(c.lossless);
    let p = lookup("PCM_S16BE_PLANAR").unwrap();
    assert_eq!(p.extension, "wav");
}

#[test]
fn lookup_unknown_codec() {
    assert!(lookup("H264").is_none());
    assert!(lookup("").is_none());
}
