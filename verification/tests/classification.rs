use audio_batch_speedup::classify::classify;
use audio_batch_speedup::classify::extension_format;
use audio_batch_speedup::classify::signature_format;
use audio_batch_speedup::format::AudioFormat;

fn bytes(s: &str) -> Vec<u8> {
    s.as_bytes().to_vec()
}

fn header(leading: &[u8]) -> Vec<u8> {
    let mut h = leading.to_vec();
    while h.len() < 12 {
        h.push(0);
    }
    h
}

#[test]
fn ogg_signature_wins_over_extension() {
    // An OggS-signed file named .mp3 still classifies as OGG.
    let h = header(&[0x4F, 0x67, 0x67, 0x53]);
    assert_eq!(classify(&h, &Some(bytes("mp3"))), Some(AudioFormat::Ogg));
    assert_eq!(classify(&h, &Some(bytes("txt"))), Some(AudioFormat::Ogg));
    assert_eq!(classify(&h, &None), Some(AudioFormat::Ogg));
}

#[test]
fn id3_signature_is_mp3() {
    let h = header(&[0x49, 0x44, 0x33]);
    assert_eq!(classify(&h, &Some(bytes("dat"))), Some(AudioFormat::Mp3));
}

#[test]
fn frame_sync_signature_is_mp3() {
    // 0xFF 0xFB: second byte & 0xF6 == 0xF2.
    let h = header(&[0xFF, 0xFB]);
    assert_eq!(signature_format(&h), Some(AudioFormat::Mp3));
    let h = header(&[0xFF, 0xFA]);
    assert_eq!(signature_format(&h), Some(AudioFormat::Mp3));
    // 0xFF 0x00 is not a frame sync.
    let h = header(&[0xFF, 0x00]);
    assert_eq!(signature_format(&h), None);
}

#[test]
fn riff_wave_signature_is_wav() {
    let h = vec![
        0x52, 0x49, 0x46, 0x46, 0x00, 0x00, 0x00, 0x00, 0x57, 0x41, 0x56, 0x45,
    ];
    assert_eq!(signature_format(&h), Some(AudioFormat::Wav));
    // RIFF without WAVE at offset 8 is not WAV.
    let h = header(&[0x52, 0x49, 0x46, 0x46]);
    assert_eq!(signature_format(&h), None);
}

#[test]
fn flac_signature() {
    let h = header(&[0x66, 0x4C, 0x61, 0x43]);
    assert_eq!(signature_format(&h), Some(AudioFormat::Flac));
}

#[test]
fn asf_signature_is_wma() {
    let h = header(&[0x30, 0x26, 0xB2, 0x75]);
    assert_eq!(signature_format(&h), Some(AudioFormat::Wma));
}

#[test]
fn short_header_defers_to_extension() {
    // Fewer than 12 bytes read: no signature matching at all.
    let h = vec![0x4F, 0x67, 0x67, 0x53];
    assert_eq!(classify(&h, &Some(bytes("flac"))), Some(AudioFormat::Flac));
    assert_eq!(classify(&Vec::new(), &Some(bytes("ogg"))), Some(AudioFormat::Ogg));
}

#[test]
fn extension_lookup_is_case_insensitive() {
    // FILE.WAV and file.wav both classify as WAV.
    let h = bytes("not a header");
    assert_eq!(classify(&h, &Some(bytes("WAV"))), Some(AudioFormat::Wav));
    assert_eq!(classify(&h, &Some(bytes("wav"))), Some(AudioFormat::Wav));
    assert_eq!(classify(&h, &Some(bytes("Ogg"))), Some(AudioFormat::Ogg));
}

#[test]
fn every_extension_maps_to_its_format() {
    assert_eq!(extension_format(&bytes("ogg")), Some(AudioFormat::Ogg));
    assert_eq!(extension_format(&bytes("mp3")), Some(AudioFormat::Mp3));
    assert_eq!(extension_format(&bytes("wav")), Some(AudioFormat::Wav));
    assert_eq!(extension_format(&bytes("flac")), Some(AudioFormat::Flac));
    assert_eq!(extension_format(&bytes("m4a")), Some(AudioFormat::Aac));
    assert_eq!(extension_format(&bytes("aac")), Some(AudioFormat::Aac));
    assert_eq!(extension_format(&bytes("opus")), Some(AudioFormat::Opus));
    assert_eq!(extension_format(&bytes("alac")), Some(AudioFormat::Alac));
    assert_eq!(extension_format(&bytes("wma")), Some(AudioFormat::Wma));
}

#[test]
fn unknown_signature_and_extension_is_no_format() {
    let h = bytes("hello world!");
    assert_eq!(classify(&h, &Some(bytes("txt"))), None);
    assert_eq!(classify(&h, &None), None);
    assert_eq!(extension_format(&bytes("pdf")), None);
}
