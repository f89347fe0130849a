//! Parsing a user's format selection into a `FormatSet`.
//!
//! The selection is a comma-separated list of format names, compared
//! case-insensitively with surrounding whitespace ignored, or the single
//! word `all` for every supported format.  An unrecognized name is a hard
//! error carrying the offending token; an empty selection is refused before
//! any work starts.

use vstd::prelude::*;
use crate::bytes::is3;
use crate::bytes::is4;
use crate::bytes::lower_ascii;
use crate::bytes::lower_bytes;
use crate::bytes::subvec;
use crate::format::AudioFormat;
use crate::format::FormatSet;

verus! {

/// Why a selection was refused.
#[derive(Debug, PartialEq, Eq)]
pub enum SelectionError {
    /// A token of the list names no supported format; the raw token is kept.
    UnknownToken(Vec<u8>),
    /// The selection names no format at all.
    EmptySelection,
}

/// ASCII whitespace, as trimmed from the ends of a token.
pub open spec fn is_ws(b: u8) -> bool {
    b == 0x20 || b == 0x09 || b == 0x0A || b == 0x0D || b == 0x0B || b == 0x0C
}

/// A byte string without its leading whitespace.
pub open spec fn trim_start(s: Seq<u8>) -> Seq<u8>
    decreases s.len(),
{
    if s.len() > 0 && is_ws(s[0]) {
        trim_start(s.drop_first())
    } else {
        s
    }
}

/// A byte string without its trailing whitespace.
pub open spec fn trim_end(s: Seq<u8>) -> Seq<u8>
    decreases s.len(),
{
    if s.len() > 0 && is_ws(s[s.len() - 1]) {
        trim_end(s.drop_last())
    } else {
        s
    }
}

/// A byte string without whitespace at either end.
pub open spec fn spec_trim(s: Seq<u8>) -> Seq<u8> {
    trim_end(trim_start(s))
}

/// The position of the first comma, or a negative value if there is none.
pub open spec fn find_comma(s: Seq<u8>) -> int
    decreases s.len(),
{
    if s.len() == 0 {
        -1
    } else if s[0] == 0x2Cu8 {
        0
    } else {
        let r = find_comma(s.drop_first());
        if r < 0 {
            -1
        } else {
            r + 1
        }
    }
}

/// A byte string split at its commas.  Every string splits into at least
/// one token; the commas themselves are not kept.
pub open spec fn split_commas(s: Seq<u8>) -> Seq<Seq<u8>>
    decreases s.len(),
{
    let j = find_comma(s);
    if j < 0 || j >= s.len() {
        seq![s]
    } else {
        seq![s.take(j)] + split_commas(s.skip(j + 1))
    }
}

/// A token brought to its canonical form: trimmed, then lower-cased.
pub open spec fn spec_canon(t: Seq<u8>) -> Seq<u8> {
    lower_bytes(spec_trim(t))
}

/// The format a canonical token names, if any.
pub open spec fn spec_token_format(t: Seq<u8>) -> Option<AudioFormat> {
    if t == seq![0x6Fu8, 0x67u8, 0x67u8] {  // "ogg"
        Some(AudioFormat::Ogg)
    } else if t == seq![0x6Du8, 0x70u8, 0x33u8] {  // "mp3"
        Some(AudioFormat::Mp3)
    } else if t == seq![0x77u8, 0x61u8, 0x76u8] {  // "wav"
        Some(AudioFormat::Wav)
    } else if t == seq![0x66u8, 0x6Cu8, 0x61u8, 0x63u8] {  // "flac"
        Some(AudioFormat::Flac)
    } else if t == seq![0x61u8, 0x61u8, 0x63u8] {  // "aac"
        Some(AudioFormat::Aac)
    } else if t == seq![0x6Fu8, 0x70u8, 0x75u8, 0x73u8] {  // "opus"
        Some(AudioFormat::Opus)
    } else if t == seq![0x61u8, 0x6Cu8, 0x61u8, 0x63u8] {  // "alac"
        Some(AudioFormat::Alac)
    } else if t == seq![0x77u8, 0x6Du8, 0x61u8] {  // "wma"
        Some(AudioFormat::Wma)
    } else {
        None
    }
}

/// Whether a token is recognized as a format name.
pub open spec fn recognized(t: Seq<u8>) -> bool {
    spec_token_format(spec_canon(t)) is Some
}

/// The position of the first unrecognized token, or a negative value when
/// every token is recognized.
pub open spec fn first_unknown(toks: Seq<Seq<u8>>) -> int
    decreases toks.len(),
{
    if toks.len() == 0 {
        -1
    } else if !recognized(toks[0]) {
        0
    } else {
        let r = first_unknown(toks.drop_first());
        if r < 0 {
            -1
        } else {
            r + 1
        }
    }
}

/// Token `k` of the list names format `f`.
pub open spec fn token_names(toks: Seq<Seq<u8>>, f: AudioFormat, k: int) -> bool {
    0 <= k < toks.len() && spec_token_format(spec_canon(toks[k])) == Some(f)
}

/// Some token of the list names format `f`.
pub open spec fn selection_has(toks: Seq<Seq<u8>>, f: AudioFormat) -> bool {
    exists|k: int| token_names(toks, f, k)
}

/// The whole-input word that selects every format.
pub open spec fn all_token() -> Seq<u8> {
    seq![0x61u8, 0x6Cu8, 0x6Cu8]  // "all"
}

/// `find_comma` finds the first comma: a prefix free of commas up to a
/// comma (or the end) pins its result down.
proof fn lemma_find_comma_at(s: Seq<u8>, k: int)
    requires
        0 <= k <= s.len(),
        forall|i: int| 0 <= i < k ==> s[i] != 0x2Cu8,
        k < s.len() ==> s[k] == 0x2Cu8,
    ensures
        find_comma(s) == if k < s.len() {
            k
        } else {
            -1
        },
    decreases s.len(),
{
    if s.len() == 0 {
    } else if k == 0 {
    } else {
        assert(s.drop_first() =~= s.skip(1));
        lemma_find_comma_at(s.drop_first(), k - 1);
    }
}

/// Splitting at the first comma: a comma-free stretch from `start` up to a
/// comma at `j` (or the end at `j`) makes the split of the tail at `start`
/// begin with exactly that stretch.
proof fn lemma_split_head(s: Seq<u8>, start: int, j: int)
    requires
        0 <= start <= j <= s.len(),
        forall|k: int| start <= k < j ==> s[k] != 0x2Cu8,
        j < s.len() ==> s[j] == 0x2Cu8,
    ensures
        j < s.len() ==> split_commas(s.skip(start)) == seq![s.subrange(start, j)] + split_commas(
            s.skip(j + 1),
        ),
        j == s.len() ==> split_commas(s.skip(start)) == seq![s.subrange(start, j)],
{
    let t = s.skip(start);
    lemma_find_comma_at(t, j - start);
    if j < s.len() {
        assert(t.take(j - start) =~= s.subrange(start, j));
        assert(t.skip(j - start + 1) =~= s.skip(j + 1));
    } else {
        assert(t =~= s.subrange(start, j));
    }
}

/// `first_unknown` finds the first unrecognized token: a recognized prefix
/// up to an unrecognized token (or the end) pins its result down.
proof fn lemma_first_unknown_at(toks: Seq<Seq<u8>>, k: int)
    requires
        0 <= k <= toks.len(),
        forall|i: int| 0 <= i < k ==> recognized(#[trigger] toks[i]),
        k < toks.len() ==> !recognized(toks[k]),
    ensures
        first_unknown(toks) == if k < toks.len() {
            k
        } else {
            -1
        },
    decreases toks.len(),
{
    if toks.len() == 0 {
    } else if k == 0 {
    } else {
        assert(toks.drop_first() =~= toks.skip(1));
        lemma_first_unknown_at(toks.drop_first(), k - 1);
    }
}

/// Trimming from the start skips exactly the leading whitespace.
proof fn lemma_trim_start_skip(s: Seq<u8>, a: int)
    requires
        0 <= a <= s.len(),
        forall|i: int| 0 <= i < a ==> is_ws(#[trigger] s[i]),
        a < s.len() ==> !is_ws(s[a]),
    ensures
        trim_start(s) == s.skip(a),
    decreases a,
{
    if a == 0 {
        assert(s.skip(0) =~= s);
    } else {
        assert(s.drop_first() =~= s.skip(1));
        lemma_trim_start_skip(s.drop_first(), a - 1);
        assert(s.skip(1).skip(a - 1) =~= s.skip(a));
    }
}

/// Trimming from the end keeps exactly the bytes before the trailing
/// whitespace.
proof fn lemma_trim_end_take(s: Seq<u8>, b: int)
    requires
        0 <= b <= s.len(),
        forall|i: int| b <= i < s.len() ==> is_ws(#[trigger] s[i]),
        b > 0 ==> !is_ws(s[b - 1]),
    ensures
        trim_end(s) == s.take(b),
    decreases s.len() - b,
{
    if b == s.len() {
        assert(s.take(b) =~= s);
    } else {
        assert(s.drop_last() =~= s.take(s.len() - 1));
        lemma_trim_end_take(s.drop_last(), b);
        assert(s.take(s.len() - 1).take(b) =~= s.take(b));
    }
}

/// Whether a byte is selection whitespace.
pub fn is_ws_byte(b: u8) -> (r: bool)
    ensures
        r == is_ws(b),
{
    b == 0x20 || b == 0x09 || b == 0x0A || b == 0x0D || b == 0x0B || b == 0x0C
}

/// A byte string with whitespace removed from both ends.
pub fn trim_bytes(v: &Vec<u8>) -> (r: Vec<u8>)
    ensures
        r@ == spec_trim(v@),
{
    let n = v.len();
    let mut lo: usize = 0;
    while lo < n && is_ws_byte(v[lo])
        invariant
            lo <= n,
            n == v@.len(),
            forall|k: int| 0 <= k < lo ==> is_ws(#[trigger] v@[k]),
        decreases n - lo,
    {
        lo += 1;
    }
    let mut hi: usize = n;
    while hi > lo && is_ws_byte(v[hi - 1])
        invariant
            lo <= hi <= n,
            n == v@.len(),
            forall|k: int| hi <= k < n ==> is_ws(#[trigger] v@[k]),
        decreases hi,
    {
        hi -= 1;
    }
    let r = subvec(v, lo, hi);
    proof {
        lemma_trim_start_skip(v@, lo as int);
        let t = v@.skip(lo as int);
        assert forall|i: int| hi - lo <= i < t.len() implies is_ws(#[trigger] t[i]) by {
            assert(t[i] == v@[lo + i]);
        }
        lemma_trim_end_take(t, hi - lo);
        assert(t.take(hi - lo) =~= v@.subrange(lo as int, hi as int));
    }
    r
}

/// The format a canonical token names, if any.
pub fn token_format(canon: &Vec<u8>) -> (r: Option<AudioFormat>)
    ensures
        r == spec_token_format(canon@),
{
    if is3(canon, 0x6F, 0x67, 0x67) {
        Some(AudioFormat::Ogg)
    } else if is3(canon, 0x6D, 0x70, 0x33) {
        Some(AudioFormat::Mp3)
    } else if is3(canon, 0x77, 0x61, 0x76) {
        Some(AudioFormat::Wav)
    } else if is4(canon, 0x66, 0x6C, 0x61, 0x63) {
        Some(AudioFormat::Flac)
    } else if is3(canon, 0x61, 0x61, 0x63) {
        Some(AudioFormat::Aac)
    } else if is4(canon, 0x6F, 0x70, 0x75, 0x73) {
        Some(AudioFormat::Opus)
    } else if is4(canon, 0x61, 0x6C, 0x61, 0x63) {
        Some(AudioFormat::Alac)
    } else if is3(canon, 0x77, 0x6D, 0x61) {
        Some(AudioFormat::Wma)
    } else {
        None
    }
}

/// Parse a comma-separated selection of format names into a `FormatSet`.
///
/// The whole input lower-cased to `all` selects every format.  Otherwise
/// each comma-separated token, trimmed and lower-cased, must name a format;
/// the first token that names none is returned as the error, before any
/// further work.  A selection that named no format at all would be refused,
/// though the grammar makes that impossible: every list has a first token,
/// and it either names a format or is itself the error.
pub fn parse_selection(input: &Vec<u8>) -> (r: Result<FormatSet, SelectionError>)
    ensures
        ({
            let toks = split_commas(input@);
            &&& (lower_bytes(input@) == all_token() ==> r == Ok::<FormatSet, SelectionError>(
                FormatSet::spec_all(),
            ))
            &&& (lower_bytes(input@) != all_token() && first_unknown(toks) >= 0 ==> (r matches Err(
                e,
            ) && e matches SelectionError::UnknownToken(t) && t@ == toks[first_unknown(toks)]))
            &&& (lower_bytes(input@) != all_token() && first_unknown(toks) < 0 ==> (r matches Ok(
                sel,
            ) && sel.wf() && forall|f: AudioFormat|
                #[trigger] sel.spec_contains(f) <==> selection_has(toks, f)))
        }),
{
    let low = lower_ascii(input);
    if is3(&low, 0x61, 0x6C, 0x6C) {
        return Ok(FormatSet::all());
    }
    let n = input.len();
    let mut sel = FormatSet::empty();
    let ghost toks = split_commas(input@);
    let ghost mut done: Seq<Seq<u8>> = Seq::empty();
    let mut start: usize = 0;
    proof {
        assert(input@.skip(0) =~= input@);
        assert(done + split_commas(input@) =~= split_commas(input@));
    }
    loop
        invariant
            n == input@.len(),
            start <= n,
            sel.wf(),
            toks == split_commas(input@),
            toks == done + split_commas(input@.skip(start as int)),
            forall|i: int| 0 <= i < done.len() ==> recognized(#[trigger] done[i]),
            forall|f: AudioFormat| #[trigger] sel.spec_contains(f) <==> selection_has(done, f),
            lower_bytes(input@) != all_token(),
        decreases n - start,
    {
        let mut j = start;
        while j < n && input[j] != 0x2C
            invariant
                start <= j <= n,
                n == input@.len(),
                forall|k: int| start <= k < j ==> input@[k] != 0x2Cu8,
            decreases n - j,
        {
            j += 1;
        }
        let tok = subvec(input, start, j);
        proof {
            lemma_split_head(input@, start as int, j as int);
        }
        let trimmed = trim_bytes(&tok);
        let canon = lower_ascii(&trimmed);
        match token_format(&canon) {
            Some(f) => {
                let ghost old_sel = sel;
                let ghost old_done = done;
                sel = sel.insert(f);
                proof {
                    done = done.push(tok@);
                    assert(done =~= old_done + seq![tok@]);
                    if j < n {
                        assert(toks =~= done + split_commas(input@.skip(j + 1 as int)));
                    } else {
                        assert(toks =~= done);
                    }
                    assert forall|g: AudioFormat| #[trigger] sel.spec_contains(g) <==> selection_has(
                        done,
                        g,
                    ) by {
                        if sel.spec_contains(g) {
                            if g == f {
                                assert(token_names(done, g, done.len() - 1));
                            } else {
                                let k = choose|k: int| token_names(old_done, g, k);
                                assert(token_names(done, g, k));
                            }
                        }
                        if selection_has(done, g) {
                            let k = choose|k: int| token_names(done, g, k);
                            if k < old_done.len() {
                                assert(token_names(old_done, g, k));
                            }
                        }
                    }
                }
                if j == n {
                    proof {
                        assert forall|i: int| 0 <= i < toks.len() implies recognized(
                            #[trigger] toks[i],
                        ) by {
                            assert(toks[i] == done[i]);
                        }
                        lemma_first_unknown_at(toks, toks.len() as int);
                        assert(sel.spec_contains(f));
                    }
                    if sel.is_empty() {
                        // Unreachable: the token just accepted is a member.
                        return Err(SelectionError::EmptySelection);
                    }
                    return Ok(sel);
                }
                start = j + 1;
            },
            None => {
                proof {
                    assert(toks[done.len() as int] == tok@);
                    assert forall|i: int| 0 <= i < done.len() implies recognized(
                        #[trigger] toks[i],
                    ) by {
                        assert(toks[i] == done[i]);
                    }
                    lemma_first_unknown_at(toks, done.len() as int);
                }
                return Err(SelectionError::UnknownToken(tok));
            },
        }
    }
}

} // verus!
