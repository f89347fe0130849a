use audio_batch_speedup::format::AudioFormat;
use audio_batch_speedup::format::FormatSet;
use audio_batch_speedup::selector::parse_selection;
use audio_batch_speedup::selector::SelectionError;

fn parse(s: &str) -> Result<FormatSet, SelectionError> {
    parse_selection(&s.as_bytes().to_vec())
}

const ALL_NAMES: [(&str, AudioFormat); 8] = [
    ("ogg", AudioFormat::Ogg),
    ("mp3", AudioFormat::Mp3),
    ("wav", AudioFormat::Wav),
    ("flac", AudioFormat::Flac),
    ("aac", AudioFormat::Aac),
    ("opus", AudioFormat::Opus),
    ("alac", AudioFormat::Alac),
    ("wma", AudioFormat::Wma),
];

#[test]
fn single_names_parse() {
    for (name, fmt) in ALL_NAMES {
        let sel = parse(name).unwrap();
        assert!(sel.contains(fmt));
        for (_, other) in ALL_NAMES {
            if other != fmt {
                assert!(!sel.contains(other));
            }
        }
    }
}

#[test]
fn repeated_name_is_same_as_once() {
    // Selecting "ogg,ogg" is the same selection as "ogg".
    assert_eq!(parse("ogg,ogg").unwrap(), parse("ogg").unwrap());
    assert_eq!(parse("wav,wav,wav").unwrap(), parse("wav").unwrap());
}

#[test]
fn all_equals_every_named_format() {
    // "all" filters exactly as naming every format does.
    let all = parse("all").unwrap();
    let named = parse("ogg,mp3,wav,flac,aac,opus,alac,wma").unwrap();
    assert_eq!(all, named);
    for (_, fmt) in ALL_NAMES {
        assert!(all.contains(fmt));
    }
}

#[test]
fn all_is_case_insensitive() {
    assert_eq!(parse("ALL").unwrap(), parse("all").unwrap());
    assert_eq!(parse("All").unwrap(), parse("all").unwrap());
}

#[test]
fn tokens_are_trimmed_and_case_insensitive() {
    let sel = parse(" OGG , Mp3 ").unwrap();
    assert!(sel.contains(AudioFormat::Ogg));
    assert!(sel.contains(AudioFormat::Mp3));
    assert!(!sel.contains(AudioFormat::Wav));
}

#[test]
fn unknown_token_is_rejected() {
    // The offending token is carried back untouched.
    match parse("xyz") {
        Err(SelectionError::UnknownToken(t)) => assert_eq!(t, b"xyz".to_vec()),
        other => panic!("expected an unknown-token error, got {:?}", other),
    }
}

#[test]
fn first_unknown_token_is_reported() {
    match parse("ogg, xyz ,mp3") {
        Err(SelectionError::UnknownToken(t)) => assert_eq!(t, b" xyz ".to_vec()),
        other => panic!("expected an unknown-token error, got {:?}", other),
    }
}

#[test]
fn all_inside_a_list_is_not_a_format_name() {
    match parse("ogg,all") {
        Err(SelectionError::UnknownToken(t)) => assert_eq!(t, b"all".to_vec()),
        other => panic!("expected an unknown-token error, got {:?}", other),
    }
}

#[test]
fn empty_input_is_rejected() {
    match parse("") {
        Err(SelectionError::UnknownToken(t)) => assert_eq!(t, b"".to_vec()),
        other => panic!("expected an unknown-token error, got {:?}", other),
    }
}

#[test]
fn format_set_operations() {
    let none = FormatSet::empty();
    assert!(none.is_empty());
    let ogg = none.insert(AudioFormat::Ogg);
    assert!(!ogg.is_empty());
    assert!(ogg.contains(AudioFormat::Ogg));
    assert!(!ogg.contains(AudioFormat::Wma));
    let both = ogg.union(none.insert(AudioFormat::Wma));
    assert!(both.contains(AudioFormat::Ogg));
    assert!(both.contains(AudioFormat::Wma));
    assert_eq!(both.union(both), both);
    assert_eq!(ogg.union(both), both.union(ogg));
}

#[test]
fn default_selection_is_every_format() {
    let d = FormatSet::default();
    assert_eq!(d, FormatSet::all());
    for (_, fmt) in ALL_NAMES {
        assert!(d.contains(fmt));
    }
}
