use vstd::prelude::*;
use crate::codec::Codec;

verus! {

/// The number of codecs that the catalog knows.
pub const CODEC_COUNT: usize = 80;

/// Entry `i` of the catalog: name, losslessness and extension.
pub open spec fn catalog_entry(i: int) -> (Seq<char>, bool, Seq<char>) {
    catalog_row(i as usize)
}

/// The rows of the catalog, in order.
pub open spec fn catalog_row(i: usize) -> (Seq<char>, bool, Seq<char>) {
    match i {
        0 => ("AAC"@, false, "m4a"@),
        1 => ("AAC_LATM"@, false, "m4a"@),
        2 => ("AC3"@, false, "ac3"@),
        3 => ("ALAC"@, true, "m4a"@),
        4 => ("APE"@, false, "ape"@),
        5 => ("ATRAC1"@, false, "aea"@),
        6 => ("ATRAC3"@, false, "at3"@),
        7 => ("ATRAC3P"@, false, "aa3"@),
        8 => ("BINKAUDIO_DCT"@, false, "bik"@),
        9 => ("BINKAUDIO_RDFT"@, false, "bik"@),
        10 => ("CELT"@, false, "ogg"@),
        11 => ("COOK"@, false, "rm"@),
        12 => ("DSD_LSBF"@, true, "dff"@),
        13 => ("DSD_LSBF_PLANAR"@, true, "dff"@),
        14 => ("DSD_MSBF"@, true, "dff"@),
        15 => ("DSD_MSBF_PLANAR"@, true, "dff"@),
        16 => ("DSS_SP"@, false, "dss"@),
        17 => ("DTS"@, false, "dts"@),
        18 => ("EAC3"@, false, "eac3"@),
        19 => ("FLAC"@, true, "flac"@),
        20 => ("IAC"@, false, "avi"@),
        21 => ("IMC"@, false, "avi"@),
        22 => ("MLP"@, true, "mlp"@),
        23 => ("MP1"@, false, "mp1"@),
        24 => ("MP2"@, false, "mp2"@),
        25 => ("MP3"@, false, "mp3"@),
        26 => ("MP3ADU"@, false, "mp3"@),
        27 => ("MP3ON4"@, false, "mp3"@),
        28 => ("MP4ALS"@, true, "m4a"@),
        29 => ("MUSEPACK7"@, false, "mpc"@),
        30 => ("MUSEPACK8"@, false, "mpc"@),
        31 => ("OPUS"@, false, "opus"@),
        32 => ("QCELP"@, false, "qcp"@),
        33 => ("QDM2"@, false, "mov"@),
        34 => ("QDMC"@, false, "mov"@),
        35 => ("RALF"@, true, "rmvb"@),
        36 => ("SHORTEN"@, true, "shn"@),
        37 => ("SIPR"@, false, "rm"@),
        38 => ("SPEEX"@, false, "spx"@),
        39 => ("TAK"@, true, "tak"@),
        40 => ("TTA"@, true, "tta"@),
        41 => ("TWINVQ"@, false, "vqf"@),
        42 => ("VORBIS"@, false, "ogg"@),
        43 => ("WAVPACK"@, true, ".wv"@),
        44 => ("WMALOSSLESS"@, true, "wma"@),
        45 => ("WMAPRO"@, false, "wma"@),
        46 => ("WMAV1"@, false, "wma"@),
        47 => ("WMAV2"@, false, "wma"@),
        48 => ("WMAVOICE"@, false, "wma"@),
        49 => ("PCM_S16LE"@, true, "wav"@),
        50 => ("PCM_S16BE"@, true, "wav"@),
        51 => ("PCM_U16LE"@, true, "wav"@),
        52 => ("PCM_U16BE"@, true, "wav"@),
        53 => ("PCM_S8"@, true, "wav"@),
        54 => ("PCM_U8"@, true, "wav"@),
        55 => ("PCM_MULAW"@, true, "wav"@),
        56 => ("PCM_ALAW"@, true, "wav"@),
        57 => ("PCM_S32LE"@, true, "wav"@),
        58 => ("PCM_S32BE"@, true, "wav"@),
        59 => ("PCM_U32LE"@, true, "wav"@),
        60 => ("PCM_U32BE"@, true, "wav"@),
        61 => ("PCM_S24LE"@, true, "wav"@),
        62 => ("PCM_S24BE"@, true, "wav"@),
        63 => ("PCM_U24LE"@, true, "wav"@),
        64 => ("PCM_U24BE"@, true, "wav"@),
        65 => ("PCM_S24DAUD"@, true, "wav"@),
        66 => ("PCM_ZORK"@, true, "wav"@),
        67 => ("PCM_S16LE_PLANAR"@, true, "wav"@),
        68 => ("PCM_DVD"@, true, "wav"@),
        69 => ("PCM_F32BE"@, true, "wav"@),
        70 => ("PCM_F32LE"@, true, "wav"@),
        71 => ("PCM_F64BE"@, true, "wav"@),
        72 => ("PCM_F64LE"@, true, "wav"@),
        73 => ("PCM_BLURAY"@, true, "wav"@),
        74 => ("PCM_LXF"@, true, "wav"@),
        75 => ("S302M"@, true, "wav"@),
        76 => ("PCM_S8_PLANAR"@, true, "wav"@),
        77 => ("PCM_S24LE_PLANAR"@, true, "wav"@),
        78 => ("PCM_S32LE_PLANAR"@, true, "wav"@),
        _ => ("PCM_S16BE_PLANAR"@, true, "wav"@),
    }
}

/// What a codec descriptor holds, as plain values.
pub open spec fn descriptor(c: Codec) -> (Seq<char>, bool, Seq<char>) {
    (c.name@, c.lossless, c.extension@)
}

/// Whether two names are the same codec name: equal under Unicode case folding.
pub uninterp spec fn same_name_folded(a: Seq<char>, b: Seq<char>) -> bool;

/// Every character is ASCII.
pub open spec fn is_ascii_text(s: Seq<char>) -> bool {
    forall|i: int| 0 <= i < s.len() ==> (s[i] as u32) < 128
}

/// A character with ASCII capitals lowered.
pub open spec fn ascii_lowered(c: char) -> int {
    if 65 <= (c as u32) && (c as u32) <= 90 {
        (c as u32) + 32
    } else {
        c as int
    }
}

/// Equal length, and equal characters once ASCII capitals are lowered.
pub open spec fn equal_ignoring_ascii_case(a: Seq<char>, b: Seq<char>) -> bool {
    a.len() == b.len() && forall|i: int| 0 <= i < a.len() ==> ascii_lowered(a[i]) == ascii_lowered(b[i])
}

/// Relies on `unicase::eq`: whether two strings are equal ignoring case. Two
/// ASCII strings are compared with `eq_ignore_ascii_case`.
#[verifier::external_body]
fn names_equal_folded(a: &str, b: &str) -> (r: bool)
    ensures
        r == same_name_folded(a@, b@),
        is_ascii_text(a@) && is_ascii_text(b@) ==> (r == equal_ignoring_ascii_case(a@, b@)),
{
    unicase::eq(a, b)
}

/// Whether catalog entry `i` is the codec that `name` spells, ignoring case.
pub open spec fn entry_matches(i: int, name: Seq<char>) -> bool {
    same_name_folded(catalog_entry(i).0, name)
}

/// The descriptor at position `i` of the catalog.
pub fn codec_at(i: usize) -> (r: Codec<'static>)
    requires
        i < CODEC_COUNT,
    ensures
        descriptor(r) == catalog_entry(i as int),
{
    match i {
        0 => Codec { name: "AAC", lossless: false, extension: "m4a" },
        1 => Codec { name: "AAC_LATM", lossless: false, extension: "m4a" },
        2 => Codec { name: "AC3", lossless: false, extension: "ac3" },
        3 => Codec { name: "ALAC", lossless: true, extension: "m4a" },
        4 => Codec { name: "APE", lossless: false, extension: "ape" },
        5 => Codec { name: "ATRAC1", lossless: false, extension: "aea" },
        6 => Codec { name: "ATRAC3", lossless: false, extension: "at3" },
        7 => Codec { name: "ATRAC3P", lossless: false, extension: "aa3" },
        8 => Codec { name: "BINKAUDIO_DCT", lossless: false, extension: "bik" },
        9 => Codec { name: "BINKAUDIO_RDFT", lossless: false, extension: "bik" },
        10 => Codec { name: "CELT", lossless: false, extension: "ogg" },
        11 => Codec { name: "COOK", lossless: false, extension: "rm" },
        12 => Codec { name: "DSD_LSBF", lossless: true, extension: "dff" },
        13 => Codec { name: "DSD_LSBF_PLANAR", lossless: true, extension: "dff" },
        14 => Codec { name: "DSD_MSBF", lossless: true, extension: "dff" },
        15 => Codec { name: "DSD_MSBF_PLANAR", lossless: true, extension: "dff" },
        16 => Codec { name: "DSS_SP", lossless: false, extension: "dss" },
        17 => Codec { name: "DTS", lossless: false, extension: "dts" },
        18 => Codec { name: "EAC3", lossless: false, extension: "eac3" },
        19 => Codec { name: "FLAC", lossless: true, extension: "flac" },
        20 => Codec { name: "IAC", lossless: false, extension: "avi" },
        21 => Codec { name: "IMC", lossless: false, extension: "avi" },
        22 => Codec { name: "MLP", lossless: true, extension: "mlp" },
        23 => Codec { name: "MP1", lossless: false, extension: "mp1" },
        24 => Codec { name: "MP2", lossless: false, extension: "mp2" },
        25 => Codec { name: "MP3", lossless: false, extension: "mp3" },
        26 => Codec { name: "MP3ADU", lossless: false, extension: "mp3" },
        27 => Codec { name: "MP3ON4", lossless: false, extension: "mp3" },
        28 => Codec { name: "MP4ALS", lossless: true, extension: "m4a" },
        29 => Codec { name: "MUSEPACK7", lossless: false, extension: "mpc" },
        30 => Codec { name: "MUSEPACK8", lossless: false, extension: "mpc" },
        31 => Codec { name: "OPUS", lossless: false, extension: "opus" },
        32 => Codec { name: "QCELP", lossless: false, extension: "qcp" },
        33 => Codec { name: "QDM2", lossless: false, extension: "mov" },
        34 => Codec { name: "QDMC", lossless: false, extension: "mov" },
        35 => Codec { name: "RALF", lossless: true, extension: "rmvb" },
        36 => Codec { name: "SHORTEN", lossless: true, extension: "shn" },
        37 => Codec { name: "SIPR", lossless: false, extension: "rm" },
        38 => Codec { name: "SPEEX", lossless: false, extension: "spx" },
        39 => Codec { name: "TAK", lossless: true, extension: "tak" },
        40 => Codec { name: "TTA", lossless: true, extension: "tta" },
        41 => Codec { name: "TWINVQ", lossless: false, extension: "vqf" },
        42 => Codec { name: "VORBIS", lossless: false, extension: "ogg" },
        43 => Codec { name: "WAVPACK", lossless: true, extension: ".wv" },
        44 => Codec { name: "WMALOSSLESS", lossless: true, extension: "wma" },
        45 => Codec { name: "WMAPRO", lossless: false, extension: "wma" },
        46 => Codec { name: "WMAV1", lossless: false, extension: "wma" },
        47 => Codec { name: "WMAV2", lossless: false, extension: "wma" },
        48 => Codec { name: "WMAVOICE", lossless: false, extension: "wma" },
        49 => Codec { name: "PCM_S16LE", lossless: true, extension: "wav" },
        50 => Codec { name: "PCM_S16BE", lossless: true, extension: "wav" },
        51 => Codec { name: "PCM_U16LE", lossless: true, extension: "wav" },
        52 => Codec { name: "PCM_U16BE", lossless: true, extension: "wav" },
        53 => Codec { name: "PCM_S8", lossless: true, extension: "wav" },
        54 => Codec { name: "PCM_U8", lossless: true, extension: "wav" },
        55 => Codec { name: "PCM_MULAW", lossless: true, extension: "wav" },
        56 => Codec { name: "PCM_ALAW", lossless: true, extension: "wav" },
        57 => Codec { name: "PCM_S32LE", lossless: true, extension: "wav" },
        58 => Codec { name: "PCM_S32BE", lossless: true, extension: "wav" },
        59 => Codec { name: "PCM_U32LE", lossless: true, extension: "wav" },
        60 => Codec { name: "PCM_U32BE", lossless: true, extension: "wav" },
        61 => Codec { name: "PCM_S24LE", lossless: true, extension: "wav" },
        62 => Codec { name: "PCM_S24BE", lossless: true, extension: "wav" },
        63 => Codec { name: "PCM_U24LE", lossless: true, extension: "wav" },
        64 => Codec { name: "PCM_U24BE", lossless: true, extension: "wav" },
        65 => Codec { name: "PCM_S24DAUD", lossless: true, extension: "wav" },
        66 => Codec { name: "PCM_ZORK", lossless: true, extension: "wav" },
        67 => Codec { name: "PCM_S16LE_PLANAR", lossless: true, extension: "wav" },
        68 => Codec { name: "PCM_DVD", lossless: true, extension: "wav" },
        69 => Codec { name: "PCM_F32BE", lossless: true, extension: "wav" },
        70 => Codec { name: "PCM_F32LE", lossless: true, extension: "wav" },
        71 => Codec { name: "PCM_F64BE", lossless: true, extension: "wav" },
        72 => Codec { name: "PCM_F64LE", lossless: true, extension: "wav" },
        73 => Codec { name: "PCM_BLURAY", lossless: true, extension: "wav" },
        74 => Codec { name: "PCM_LXF", lossless: true, extension: "wav" },
        75 => Codec { name: "S302M", lossless: true, extension: "wav" },
        76 => Codec { name: "PCM_S8_PLANAR", lossless: true, extension: "wav" },
        77 => Codec { name: "PCM_S24LE_PLANAR", lossless: true, extension: "wav" },
        78 => Codec { name: "PCM_S32LE_PLANAR", lossless: true, extension: "wav" },
        _ => Codec { name: "PCM_S16BE_PLANAR", lossless: true, extension: "wav" },
    }
}

/// The position of the first catalog entry, from `i` on, whose name matches.
pub open spec fn first_match_from(name: Seq<char>, i: int) -> Option<int>
    decreases CODEC_COUNT - i,
{
    if i < 0 || i >= CODEC_COUNT {
        None
    } else if entry_matches(i, name) {
        Some(i)
    } else {
        first_match_from(name, i + 1)
    }
}

/// What the catalog holds under `name`, ignoring case: its first matching entry.
pub open spec fn catalog_lookup(name: Seq<char>) -> Option<(Seq<char>, bool, Seq<char>)> {
    match first_match_from(name, 0) {
        Some(i) => Some(catalog_entry(i)),
        None => None,
    }
}

/// Looks a codec up by name, ignoring case.
pub fn lookup(name: &str) -> (r: Option<Codec<'static>>)
    ensures
        match r {
            Some(c) => catalog_lookup(name@) == Some(descriptor(c)),
            None => catalog_lookup(name@) is None,
        },
{
    let mut i: usize = 0;
    while i < CODEC_COUNT
        invariant
            i <= CODEC_COUNT,
            first_match_from(name@, 0) == first_match_from(name@, i as int),
        decreases CODEC_COUNT - i,
    {
        let c = codec_at(i);
        if names_equal_folded(c.name, name) {
            return Some(c);
        }
        i = i + 1;
    }
    None
}

} // verus!
