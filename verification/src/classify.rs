//! Classification of a file as one of the supported audio formats.
//!
//! A file is classified from its leading bytes first: a known magic
//! signature wins over any name the file carries.  When no signature is
//! recognized, the lower-cased extension decides; when that is unknown too,
//! the file has no format.

use vstd::prelude::*;
use crate::bytes::is3;
use crate::bytes::is4;
use crate::bytes::lemma_lower_bytes_idempotent;
use crate::bytes::lower_ascii;
use crate::bytes::lower_bytes;
use crate::format::AudioFormat;

verus! {

/// How many leading bytes classification looks at.
pub const HEADER_LEN: usize = 12;

/// The `OggS` capture-pattern of an Ogg page.
pub open spec fn is_ogg_sig(h: Seq<u8>) -> bool {
    h[0] == 0x4Fu8 && h[1] == 0x67u8 && h[2] == 0x67u8 && h[3] == 0x53u8
}

/// An `ID3` tag, or an MPEG frame-sync byte pair.
pub open spec fn is_mp3_sig(h: Seq<u8>) -> bool {
    (h[0] == 0x49u8 && h[1] == 0x44u8 && h[2] == 0x33u8) || (h[0] == 0xFFu8 && (h[1] & 0xF6u8)
        == 0xF2u8)
}

/// A `RIFF` chunk whose form type is `WAVE`.
pub open spec fn is_wav_sig(h: Seq<u8>) -> bool {
    h[0] == 0x52u8 && h[1] == 0x49u8 && h[2] == 0x46u8 && h[3] == 0x46u8 && h[8] == 0x57u8 && h[9]
        == 0x41u8 && h[10] == 0x56u8 && h[11] == 0x45u8
}

/// The `fLaC` stream marker.
pub open spec fn is_flac_sig(h: Seq<u8>) -> bool {
    h[0] == 0x66u8 && h[1] == 0x4Cu8 && h[2] == 0x61u8 && h[3] == 0x43u8
}

/// The leading bytes of the ASF header GUID.
pub open spec fn is_wma_sig(h: Seq<u8>) -> bool {
    h[0] == 0x30u8 && h[1] == 0x26u8 && h[2] == 0xB2u8 && h[3] == 0x75u8
}

/// The format a full header names, signatures tried in a fixed order.
/// A header shorter than `HEADER_LEN` names none: the read that produced it
/// did not cover every signature.
pub open spec fn sig_format(h: Seq<u8>) -> Option<AudioFormat> {
    if h.len() < HEADER_LEN {
        None
    } else if is_ogg_sig(h) {
        Some(AudioFormat::Ogg)
    } else if is_mp3_sig(h) {
        Some(AudioFormat::Mp3)
    } else if is_wav_sig(h) {
        Some(AudioFormat::Wav)
    } else if is_flac_sig(h) {
        Some(AudioFormat::Flac)
    } else if is_wma_sig(h) {
        Some(AudioFormat::Wma)
    } else {
        None
    }
}

/// The format a file extension names, compared case-insensitively.
pub open spec fn ext_format(e: Seq<u8>) -> Option<AudioFormat> {
    let l = lower_bytes(e);
    if l == seq![0x6Fu8, 0x67u8, 0x67u8] {  // "ogg"
        Some(AudioFormat::Ogg)
    } else if l == seq![0x6Du8, 0x70u8, 0x33u8] {  // "mp3"
        Some(AudioFormat::Mp3)
    } else if l == seq![0x77u8, 0x61u8, 0x76u8] {  // "wav"
        Some(AudioFormat::Wav)
    } else if l == seq![0x66u8, 0x6Cu8, 0x61u8, 0x63u8] {  // "flac"
        Some(AudioFormat::Flac)
    } else if l == seq![0x6Du8, 0x34u8, 0x61u8] || l == seq![0x61u8, 0x61u8, 0x63u8] {  // "m4a", "aac"
        Some(AudioFormat::Aac)
    } else if l == seq![0x6Fu8, 0x70u8, 0x75u8, 0x73u8] {  // "opus"
        Some(AudioFormat::Opus)
    } else if l == seq![0x61u8, 0x6Cu8, 0x61u8, 0x63u8] {  // "alac"
        Some(AudioFormat::Alac)
    } else if l == seq![0x77u8, 0x6Du8, 0x61u8] {  // "wma"
        Some(AudioFormat::Wma)
    } else {
        None
    }
}

/// The classification of a file: its signature if one is recognized, else
/// its extension's format if it has an extension, else no format.
pub open spec fn classify_spec(h: Seq<u8>, e: Option<Seq<u8>>) -> Option<AudioFormat> {
    match sig_format(h) {
        Some(f) => Some(f),
        None => match e {
            Some(ext) => ext_format(ext),
            None => None,
        },
    }
}

/// The format named by an extension, compared case-insensitively.
pub fn extension_format(e: &Vec<u8>) -> (r: Option<AudioFormat>)
    ensures
        r == ext_format(e@),
{
    let l = lower_ascii(e);
    if is3(&l, 0x6F, 0x67, 0x67) {
        Some(AudioFormat::Ogg)
    } else if is3(&l, 0x6D, 0x70, 0x33) {
        Some(AudioFormat::Mp3)
    } else if is3(&l, 0x77, 0x61, 0x76) {
        Some(AudioFormat::Wav)
    } else if is4(&l, 0x66, 0x6C, 0x61, 0x63) {
        Some(AudioFormat::Flac)
    } else if is3(&l, 0x6D, 0x34, 0x61) || is3(&l, 0x61, 0x61, 0x63) {
        Some(AudioFormat::Aac)
    } else if is4(&l, 0x6F, 0x70, 0x75, 0x73) {
        Some(AudioFormat::Opus)
    } else if is4(&l, 0x61, 0x6C, 0x61, 0x63) {
        Some(AudioFormat::Alac)
    } else if is3(&l, 0x77, 0x6D, 0x61) {
        Some(AudioFormat::Wma)
    } else {
        None
    }
}

/// The format a full header names, signatures tried in a fixed order.
pub fn signature_format(h: &Vec<u8>) -> (r: Option<AudioFormat>)
    ensures
        r == sig_format(h@),
{
    if h.len() < HEADER_LEN {
        None
    } else if h[0] == 0x4F && h[1] == 0x67 && h[2] == 0x67 && h[3] == 0x53 {
        Some(AudioFormat::Ogg)
    } else if (h[0] == 0x49 && h[1] == 0x44 && h[2] == 0x33) || (h[0] == 0xFF && (h[1] & 0xF6)
        == 0xF2) {
        Some(AudioFormat::Mp3)
    } else if h[0] == 0x52 && h[1] == 0x49 && h[2] == 0x46 && h[3] == 0x46 && h[8] == 0x57 && h[9]
        == 0x41 && h[10] == 0x56 && h[11] == 0x45 {
        Some(AudioFormat::Wav)
    } else if h[0] == 0x66 && h[1] == 0x4C && h[2] == 0x61 && h[3] == 0x43 {
        Some(AudioFormat::Flac)
    } else if h[0] == 0x30 && h[1] == 0x26 && h[2] == 0xB2 && h[3] == 0x75 {
        Some(AudioFormat::Wma)
    } else {
        None
    }
}

/// The byte string an optional extension holds.
pub open spec fn opt_bytes(e: Option<Vec<u8>>) -> Option<Seq<u8>> {
    match e {
        Some(v) => Some(v@),
        None => None,
    }
}

/// Classify a file from its leading bytes and its extension.
///
/// `header` holds the bytes a caller managed to read from the start of the
/// file; fewer than `HEADER_LEN` of them (an unreadable or short file) defers
/// to the extension.  `ext` is the file's extension, if it has one.
pub fn classify(header: &Vec<u8>, ext: &Option<Vec<u8>>) -> (r: Option<AudioFormat>)
    ensures
        r == classify_spec(header@, opt_bytes(*ext)),
{
    match signature_format(header) {
        Some(f) => Some(f),
        None => match ext {
            Some(e) => extension_format(e),
            None => None,
        },
    }
}

/// A recognized signature decides the classification by itself: the
/// extension — any extension, or none — does not enter into it.
pub proof fn lemma_signature_ignores_extension(
    h: Seq<u8>,
    e1: Option<Seq<u8>>,
    e2: Option<Seq<u8>>,
)
    requires
        sig_format(h) is Some,
    ensures
        classify_spec(h, e1) == sig_format(h),
        classify_spec(h, e1) == classify_spec(h, e2),
{
}

/// Without a recognized signature, classification is the extension lookup,
/// and that lookup reads the extension case-insensitively: an extension and
/// its lower-cased form classify alike.
pub proof fn lemma_extension_fallback_case_insensitive(h: Seq<u8>, e: Seq<u8>)
    requires
        sig_format(h) is None,
    ensures
        classify_spec(h, Some(e)) == ext_format(e),
        ext_format(e) == ext_format(lower_bytes(e)),
{
    lemma_lower_bytes_idempotent(e);
}

} // verus!
