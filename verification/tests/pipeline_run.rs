use audio_batch_speedup::format::AudioFormat;
use audio_batch_speedup::format::FormatSet;
use audio_batch_speedup::pipeline::atempo_argument;
use audio_batch_speedup::pipeline::decide;
use audio_batch_speedup::pipeline::plan_file;
use audio_batch_speedup::pipeline::should_remove_temp;
use audio_batch_speedup::pipeline::tally;
use audio_batch_speedup::pipeline::temp_output_name;
use audio_batch_speedup::pipeline::transform_args;
use audio_batch_speedup::pipeline::transform_outcome;
use audio_batch_speedup::pipeline::FileAction;
use audio_batch_speedup::pipeline::FileOutcome;
use audio_batch_speedup::selector::parse_selection;

fn bytes(s: &str) -> Vec<u8> {
    s.as_bytes().to_vec()
}

fn header(leading: &[u8]) -> Vec<u8> {
    let mut h = leading.to_vec();
    while h.len() < 12 {
        h.push(0);
    }
    h
}

#[test]
fn decide_respects_selection() {
    let ogg_only = FormatSet::empty().insert(AudioFormat::Ogg);
    assert_eq!(decide(Some(AudioFormat::Ogg), ogg_only), FileAction::Transform);
    assert_eq!(decide(Some(AudioFormat::Mp3), ogg_only), FileAction::Skip);
    assert_eq!(decide(None, ogg_only), FileAction::Skip);
    assert_eq!(decide(None, FormatSet::all()), FileAction::Skip);
}

#[test]
fn transform_outcome_cases() {
    assert_eq!(transform_outcome(true, true, true), FileOutcome::Processed);
    // A spawn failure, a nonzero exit, and a failed rename are all errors.
    assert_eq!(transform_outcome(false, false, false), FileOutcome::Errored);
    assert_eq!(transform_outcome(true, false, false), FileOutcome::Errored);
    assert_eq!(transform_outcome(true, true, false), FileOutcome::Errored);
}

#[test]
fn temp_cleanup_only_after_failed_run() {
    // Only a transcoder that ran and failed leaves an artifact to delete.
    assert!(should_remove_temp(true, false, true));
    assert!(!should_remove_temp(true, false, false));
    assert!(!should_remove_temp(true, true, true));
    assert!(!should_remove_temp(false, false, true));
}

#[test]
fn temp_name_prefixes_the_original() {
    assert_eq!(temp_output_name(&bytes("song.ogg")), bytes("temp_song.ogg"));
    assert_eq!(temp_output_name(&bytes("")), bytes("temp_"));
}

#[test]
fn atempo_argument_renders_the_multiplier() {
    assert_eq!(atempo_argument(&bytes("1.5")), bytes("atempo=1.5"));
    assert_eq!(atempo_argument(&bytes("2")), bytes("atempo=2"));
}

#[test]
fn transform_args_list_the_whole_invocation() {
    let args = transform_args(&bytes("in.ogg"), &bytes("1.5"), &bytes("temp_in.ogg"));
    let expect: Vec<Vec<u8>> = [
        "-i", "in.ogg", "-filter:a", "atempo=1.5", "-vn", "temp_in.ogg", "-y", "-loglevel",
        "error",
    ]
    .iter()
    .map(|s| s.as_bytes().to_vec())
    .collect();
    assert_eq!(args, expect);
}

#[test]
fn tally_counts_each_outcome() {
    let outcomes = vec![FileOutcome::Processed, FileOutcome::Skipped, FileOutcome::Errored, FileOutcome::Skipped, FileOutcome::Processed, FileOutcome::Skipped];
    let r = tally(&outcomes);
    assert_eq!(r.processed, 2);
    assert_eq!(r.skipped, 3);
    assert_eq!(r.errored, 1);
    assert_eq!(r.total(), 6);
}

#[test]
fn tally_of_no_files_is_zero() {
    let r = tally(&Vec::new());
    assert_eq!((r.processed, r.skipped, r.errored), (0, 0, 0));
}

#[test]
fn tally_sum_equals_candidate_count() {
    // Whatever the outcomes, processed + skipped + errored is the file count.
    let outcomes = vec![FileOutcome::Errored, FileOutcome::Errored, FileOutcome::Processed, FileOutcome::Skipped, FileOutcome::Processed, FileOutcome::Processed, FileOutcome::Skipped];
    let r = tally(&outcomes);
    assert_eq!(r.processed + r.skipped + r.errored, outcomes.len());
}

#[test]
fn tally_ignores_outcome_order() {
    // The same per-file outcomes in any interleaving tally alike, so a
    // multi-worker run agrees with a single-threaded one.
    let one_order = vec![FileOutcome::Processed, FileOutcome::Processed, FileOutcome::Skipped, FileOutcome::Errored, FileOutcome::Skipped];
    let another = vec![FileOutcome::Skipped, FileOutcome::Errored, FileOutcome::Processed, FileOutcome::Skipped, FileOutcome::Processed];
    assert_eq!(tally(&one_order), tally(&another));
}

#[test]
fn scenario_ogg_selection_over_three_files() {
    // Root holds a.ogg with a valid OggS header, b.txt with neither
    // signature nor audio extension, and a file with an ID3 header under a
    // .dat name.  Selection is "ogg".
    let selection = parse_selection(&bytes("ogg")).unwrap();
    let files: [(Vec<u8>, Option<Vec<u8>>); 3] = [
        (header(&[0x4F, 0x67, 0x67, 0x53]), Some(bytes("ogg"))),
        (bytes("hello world!"), Some(bytes("txt"))),
        (header(&[0x49, 0x44, 0x33]), Some(bytes("dat"))),
    ];
    let mut outcomes: Vec<FileOutcome> = Vec::new();
    for (h, ext) in files.iter() {
        match plan_file(h, ext, selection) {
            // A transform that succeeds end to end: the file is processed.
            FileAction::Transform => outcomes.push(transform_outcome(true, true, true)),
            FileAction::Skip => outcomes.push(FileOutcome::Skipped),
        }
    }
    let r = tally(&outcomes);
    assert_eq!(r.processed, 1);
    assert_eq!(r.skipped, 2);
    assert_eq!(r.errored, 0);
}
