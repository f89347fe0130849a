//! Per-file decisions of a run and the aggregation of its outcomes.
//!
//! A worker hands the library the plain values it read for one file — the
//! leading bytes, the extension, the selected formats — and gets back the
//! decision for that file; after running the transcoder it hands back what
//! happened and gets the file's outcome.  The outcomes of every file of a
//! run are then tallied into the run's counters.

use vstd::prelude::*;
use vstd::multiset::Multiset;
use crate::classify::classify;
use crate::classify::classify_spec;
use crate::format::AudioFormat;
use crate::format::FormatSet;
use crate::bytes::subvec;

verus! {

/// What a worker is to do with one candidate file.
#[derive(Clone, Copy, Debug, PartialEq, Eq, Structural)]
pub enum FileAction {
    /// Run the transform on the file.
    Transform,
    /// Leave the file alone and count it as skipped.
    Skip,
}

/// How one candidate file ended up.
#[derive(Clone, Copy, Debug, PartialEq, Eq, Structural)]
pub enum FileOutcome {
    /// The transform ran and the result replaced the original.
    Processed,
    /// The file had no recognized format, or one outside the selection.
    Skipped,
    /// The transform or the replacement failed; the original stands.
    Errored,
}

/// The decision for a classified file: transform it exactly when a format
/// was detected and that format is in the selection.
pub open spec fn decide_spec(detected: Option<AudioFormat>, selection: FormatSet) -> FileAction {
    match detected {
        Some(f) => if selection.spec_contains(f) {
            FileAction::Transform
        } else {
            FileAction::Skip
        },
        None => FileAction::Skip,
    }
}

/// Decide what to do with a file whose classification is known.
pub fn decide(detected: Option<AudioFormat>, selection: FormatSet) -> (a: FileAction)
    ensures
        a == decide_spec(detected, selection),
{
    match detected {
        Some(f) => if selection.contains(f) {
            FileAction::Transform
        } else {
            FileAction::Skip
        },
        None => FileAction::Skip,
    }
}

/// Classify one file from its leading bytes and extension and decide
/// whether to transform it under the given selection.
pub fn plan_file(header: &Vec<u8>, ext: &Option<Vec<u8>>, selection: FormatSet) -> (a: FileAction)
    ensures
        a == decide_spec(classify_spec(header@, crate::classify::opt_bytes(*ext)), selection),
{
    decide(classify(header, ext), selection)
}

/// A file with no detected format is skipped under every selection.
pub proof fn lemma_unknown_always_skipped(h: Seq<u8>, e: Option<Seq<u8>>, selection: FormatSet)
    requires
        classify_spec(h, e) is None,
    ensures
        decide_spec(classify_spec(h, e), selection) == FileAction::Skip,
{
}

/// The outcome of a transform attempt.
///
/// `spawn_ok` says the transcoder process could be started, `exit_success`
/// that it reported success, `rename_ok` that its output then replaced the
/// original.  The file was processed exactly when all three hold; any
/// earlier failure makes the flags after it meaningless.
pub open spec fn transform_outcome_spec(
    spawn_ok: bool,
    exit_success: bool,
    rename_ok: bool,
) -> FileOutcome {
    if spawn_ok && exit_success && rename_ok {
        FileOutcome::Processed
    } else {
        FileOutcome::Errored
    }
}

/// Settle the outcome of one transform attempt.
pub fn transform_outcome(spawn_ok: bool, exit_success: bool, rename_ok: bool) -> (o: FileOutcome)
    ensures
        o == transform_outcome_spec(spawn_ok, exit_success, rename_ok),
{
    if spawn_ok && exit_success && rename_ok {
        FileOutcome::Processed
    } else {
        FileOutcome::Errored
    }
}

/// Whether a worker must delete the temporary output after an attempt: only
/// a transcoder that ran and failed leaves an artifact to remove, and only
/// if one exists.  After success the artifact is renamed, never removed; a
/// process that never started wrote nothing.
pub fn should_remove_temp(spawn_ok: bool, exit_success: bool, temp_exists: bool) -> (r: bool)
    ensures
        r == (spawn_ok && !exit_success && temp_exists),
{
    spawn_ok && !exit_success && temp_exists
}

/// The marker that a transform's temporary output carries in front of the
/// original file name.
pub open spec fn temp_prefix() -> Seq<u8> {
    seq![0x74u8, 0x65u8, 0x6Du8, 0x70u8, 0x5Fu8]  // "temp_"
}

/// The name of the temporary output beside a file: the marker prefix
/// followed by the original name.
pub fn temp_output_name(name: &Vec<u8>) -> (r: Vec<u8>)
    ensures
        r@ == temp_prefix() + name@,
{
    let mut out: Vec<u8> = Vec::new();
    out.push(0x74);
    out.push(0x65);
    out.push(0x6D);
    out.push(0x70);
    out.push(0x5F);
    proof {
        assert(out@ =~= temp_prefix());
    }
    let mut i: usize = 0;
    while i < name.len()
        invariant
            i <= name.len(),
            out@ == temp_prefix() + name@.take(i as int),
        decreases name.len() - i,
    {
        out.push(name[i]);
        proof {
            assert(temp_prefix() + name@.take(i + 1 as int) =~= (temp_prefix() + name@.take(
                i as int,
            )).push(name@[i as int]));
        }
        i += 1;
    }
    proof {
        assert(name@.take(name@.len() as int) =~= name@);
    }
    out
}

/// The tempo filter argument handed to the transcoder: `atempo=` followed
/// by the rendered multiplier.
pub open spec fn atempo_prefix() -> Seq<u8> {
    seq![0x61u8, 0x74u8, 0x65u8, 0x6Du8, 0x70u8, 0x6Fu8, 0x3Du8]  // "atempo="
}

/// Build the tempo filter argument for a rendered speed multiplier.
pub fn atempo_argument(speed_text: &Vec<u8>) -> (r: Vec<u8>)
    ensures
        r@ == atempo_prefix() + speed_text@,
{
    let mut out: Vec<u8> = Vec::new();
    out.push(0x61);
    out.push(0x74);
    out.push(0x65);
    out.push(0x6D);
    out.push(0x70);
    out.push(0x6F);
    out.push(0x3D);
    proof {
        assert(out@ =~= atempo_prefix());
    }
    let mut i: usize = 0;
    while i < speed_text.len()
        invariant
            i <= speed_text.len(),
            out@ == atempo_prefix() + speed_text@.take(i as int),
        decreases speed_text.len() - i,
    {
        out.push(speed_text[i]);
        proof {
            assert(atempo_prefix() + speed_text@.take(i + 1 as int) =~= (atempo_prefix()
                + speed_text@.take(i as int)).push(speed_text@[i as int]));
        }
        i += 1;
    }
    proof {
        assert(speed_text@.take(speed_text@.len() as int) =~= speed_text@);
    }
    out
}

/// The flag that names the transcoder's input file.
pub open spec fn flag_input() -> Seq<u8> {
    seq![0x2Du8, 0x69u8]  // "-i"
}

/// The flag that selects an audio filter.
pub open spec fn flag_audio_filter() -> Seq<u8> {
    seq![0x2Du8, 0x66u8, 0x69u8, 0x6Cu8, 0x74u8, 0x65u8, 0x72u8, 0x3Au8, 0x61u8]  // "-filter:a"
}

/// The flag that suppresses any video stream.
pub open spec fn flag_no_video() -> Seq<u8> {
    seq![0x2Du8, 0x76u8, 0x6Eu8]  // "-vn"
}

/// The flag that overwrites the output unconditionally.
pub open spec fn flag_overwrite() -> Seq<u8> {
    seq![0x2Du8, 0x79u8]  // "-y"
}

/// The flag that sets the log level.
pub open spec fn flag_loglevel() -> Seq<u8> {
    seq![0x2Du8, 0x6Cu8, 0x6Fu8, 0x67u8, 0x6Cu8, 0x65u8, 0x76u8, 0x65u8, 0x6Cu8]  // "-loglevel"
}

/// The log level that shows errors only.
pub open spec fn loglevel_error() -> Seq<u8> {
    seq![0x65u8, 0x72u8, 0x72u8, 0x6Fu8, 0x72u8]  // "error"
}

/// The argument list of one transcoder invocation: the input path, the
/// tempo filter with the rendered multiplier, no video stream, the output
/// path, unconditional overwrite of it, and quiet-but-error-visible logging.
pub open spec fn transform_args_spec(inp: Seq<u8>, spd: Seq<u8>, out: Seq<u8>) -> Seq<Seq<u8>> {
    seq![
        flag_input(),
        inp,
        flag_audio_filter(),
        atempo_prefix() + spd,
        flag_no_video(),
        out,
        flag_overwrite(),
        flag_loglevel(),
        loglevel_error(),
    ]
}

/// Build the transcoder's argument list for one file.
pub fn transform_args(input_path: &Vec<u8>, speed_text: &Vec<u8>, output_path: &Vec<u8>) -> (r:
    Vec<Vec<u8>>)
    ensures
        r@.len() == 9,
        forall|i: int|
            0 <= i < 9 ==> #[trigger] r@[i]@ == transform_args_spec(
                input_path@,
                speed_text@,
                output_path@,
            )[i],
{
    let mut r: Vec<Vec<u8>> = Vec::new();

    let mut f_in: Vec<u8> = Vec::new();
    f_in.push(0x2D);
    f_in.push(0x69);
    proof {
        assert(f_in@ =~= flag_input());
    }
    r.push(f_in);

    r.push(subvec(input_path, 0, input_path.len()));

    let mut f_af: Vec<u8> = Vec::new();
    f_af.push(0x2D);
    f_af.push(0x66);
    f_af.push(0x69);
    f_af.push(0x6C);
    f_af.push(0x74);
    f_af.push(0x65);
    f_af.push(0x72);
    f_af.push(0x3A);
    f_af.push(0x61);
    proof {
        assert(f_af@ =~= flag_audio_filter());
    }
    r.push(f_af);

    r.push(atempo_argument(speed_text));

    let mut f_vn: Vec<u8> = Vec::new();
    f_vn.push(0x2D);
    f_vn.push(0x76);
    f_vn.push(0x6E);
    proof {
        assert(f_vn@ =~= flag_no_video());
    }
    r.push(f_vn);

    r.push(subvec(output_path, 0, output_path.len()));

    let mut f_y: Vec<u8> = Vec::new();
    f_y.push(0x2D);
    f_y.push(0x79);
    proof {
        assert(f_y@ =~= flag_overwrite());
    }
    r.push(f_y);

    let mut f_ll: Vec<u8> = Vec::new();
    f_ll.push(0x2D);
    f_ll.push(0x6C);
    f_ll.push(0x6F);
    f_ll.push(0x67);
    f_ll.push(0x6C);
    f_ll.push(0x65);
    f_ll.push(0x76);
    f_ll.push(0x65);
    f_ll.push(0x6C);
    proof {
        assert(f_ll@ =~= flag_loglevel());
    }
    r.push(f_ll);

    let mut f_err: Vec<u8> = Vec::new();
    f_err.push(0x65);
    f_err.push(0x72);
    f_err.push(0x72);
    f_err.push(0x6F);
    f_err.push(0x72);
    proof {
        assert(f_err@ =~= loglevel_error());
    }
    r.push(f_err);

    proof {
        assert(input_path@.subrange(0, input_path@.len() as int) =~= input_path@);
        assert(output_path@.subrange(0, output_path@.len() as int) =~= output_path@);
    }
    r
}

/// The aggregate counters of one run.
#[derive(Clone, Copy, Debug, PartialEq, Eq, Structural)]
pub struct RunOutcome {
    /// Files whose transform ran and whose result replaced the original.
    pub processed: usize,
    /// Files left alone: no recognized format, or one outside the selection.
    pub skipped: usize,
    /// Files whose transform or replacement failed.
    pub errored: usize,
}

/// How often one outcome occurs in a sequence of outcomes.
pub open spec fn count_outcomes(s: Seq<FileOutcome>, v: FileOutcome) -> nat
    decreases s.len(),
{
    if s.len() == 0 {
        0
    } else {
        count_outcomes(s.drop_last(), v) + if s.last() == v {
            1nat
        } else {
            0nat
        }
    }
}

/// Every outcome is one of the three kinds, so the three counts of a run
/// partition it: processed + skipped + errored is exactly the number of
/// candidate files.
pub proof fn lemma_outcomes_partition(s: Seq<FileOutcome>)
    ensures
        count_outcomes(s, FileOutcome::Processed) + count_outcomes(s, FileOutcome::Skipped)
            + count_outcomes(s, FileOutcome::Errored) == s.len(),
    decreases s.len(),
{
    if s.len() > 0 {
        lemma_outcomes_partition(s.drop_last());
    }
}

/// An outcome's count is its multiplicity in the sequence seen as a
/// multiset, which forgets all order.
pub proof fn lemma_count_is_multiset_count(s: Seq<FileOutcome>, v: FileOutcome)
    ensures
        count_outcomes(s, v) == s.to_multiset().count(v),
    decreases s.len(),
{
    broadcast use vstd::multiset::group_multiset_axioms;
    broadcast use vstd::seq_lib::group_to_multiset_ensures;

    if s.len() == 0 {
        assert(s.to_multiset() =~= Multiset::<FileOutcome>::empty());
    } else {
        lemma_count_is_multiset_count(s.drop_last(), v);
        assert(s =~= s.drop_last().push(s.last()));
        assert(s.drop_last().push(s.last()).to_multiset() =~= s.drop_last().to_multiset().insert(
            s.last(),
        ));
    }
}

/// Tallying is blind to the order of the outcomes: two runs over the same
/// files whose outcomes agree file by file — however the workers interleaved
/// them — tally to the same counters.
pub proof fn lemma_tally_order_independent(a: Seq<FileOutcome>, b: Seq<FileOutcome>)
    requires
        a.to_multiset() == b.to_multiset(),
    ensures
        forall|v: FileOutcome| count_outcomes(a, v) == count_outcomes(b, v),
{
    assert forall|v: FileOutcome| count_outcomes(a, v) == count_outcomes(b, v) by {
        lemma_count_is_multiset_count(a, v);
        lemma_count_is_multiset_count(b, v);
    }
}

/// Tally the outcomes of a run into its aggregate counters.
pub fn tally(outcomes: &Vec<FileOutcome>) -> (r: RunOutcome)
    ensures
        r.processed == count_outcomes(outcomes@, FileOutcome::Processed),
        r.skipped == count_outcomes(outcomes@, FileOutcome::Skipped),
        r.errored == count_outcomes(outcomes@, FileOutcome::Errored),
        r.processed + r.skipped + r.errored == outcomes@.len(),
{
    let mut processed: usize = 0;
    let mut skipped: usize = 0;
    let mut errored: usize = 0;
    let mut i: usize = 0;
    while i < outcomes.len()
        invariant
            i <= outcomes.len(),
            processed == count_outcomes(outcomes@.take(i as int), FileOutcome::Processed),
            skipped == count_outcomes(outcomes@.take(i as int), FileOutcome::Skipped),
            errored == count_outcomes(outcomes@.take(i as int), FileOutcome::Errored),
            processed + skipped + errored == i,
        decreases outcomes.len() - i,
    {
        proof {
            assert(outcomes@.take(i + 1 as int).drop_last() =~= outcomes@.take(i as int));
            assert(outcomes@.take(i + 1 as int).last() == outcomes@[i as int]);
        }
        match outcomes[i] {
            FileOutcome::Processed => {
                processed = processed + 1;
            },
            FileOutcome::Skipped => {
                skipped = skipped + 1;
            },
            FileOutcome::Errored => {
                errored = errored + 1;
            },
        }
        i += 1;
    }
    proof {
        assert(outcomes@.take(outcomes@.len() as int) =~= outcomes@);
    }
    RunOutcome { processed, skipped, errored }
}

impl RunOutcome {
    /// The number of files the counters account for.
    pub fn total(&self) -> (r: usize)
        requires
            self.processed + self.skipped + self.errored <= usize::MAX,
        ensures
            r == self.processed + self.skipped + self.errored,
    {
        self.processed + self.skipped + self.errored
    }
}

} // verus!
