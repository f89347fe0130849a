//! The closed set of supported audio formats and sets of them.

use vstd::prelude::*;

verus! {

/// One supported audio format tag.
#[derive(Clone, Copy, Debug, PartialEq, Eq, Structural)]
pub enum AudioFormat {
    /// Ogg Vorbis.
    Ogg,
    /// MPEG Audio Layer III.
    Mp3,
    /// Waveform Audio File Format.
    Wav,
    /// Free Lossless Audio Codec.
    Flac,
    /// Advanced Audio Coding (usually in MP4 containers).
    Aac,
    /// Opus (usually in Ogg or WebM containers).
    Opus,
    /// Apple Lossless Audio Codec.
    Alac,
    /// Windows Media Audio.
    Wma,
}

/// The mask with every format's bit set.
pub const ALL_BITS: u32 = 0xFF;

/// The bit that stands for one format inside a `FormatSet`.
pub open spec fn format_bit(f: AudioFormat) -> u32 {
    match f {
        AudioFormat::Ogg => 0x01,
        AudioFormat::Mp3 => 0x02,
        AudioFormat::Wav => 0x04,
        AudioFormat::Flac => 0x08,
        AudioFormat::Aac => 0x10,
        AudioFormat::Opus => 0x20,
        AudioFormat::Alac => 0x40,
        AudioFormat::Wma => 0x80,
    }
}

/// Executable counterpart of `format_bit`.
pub fn bit_of(f: AudioFormat) -> (r: u32)
    ensures
        r == format_bit(f),
{
    match f {
        AudioFormat::Ogg => 0x01,
        AudioFormat::Mp3 => 0x02,
        AudioFormat::Wav => 0x04,
        AudioFormat::Flac => 0x08,
        AudioFormat::Aac => 0x10,
        AudioFormat::Opus => 0x20,
        AudioFormat::Alac => 0x40,
        AudioFormat::Wma => 0x80,
    }
}

/// A set of audio formats, stored as a bitmask over the eight tags.
/// Used as the inclusion filter of a run.
#[derive(Clone, Copy, Debug, PartialEq, Eq, Structural)]
pub struct FormatSet {
    /// The underlying bitmask; only the low eight bits are meaningful.
    pub bits: u32,
}

impl FormatSet {
    /// A well-formed set uses only the eight format bits.
    pub open spec fn wf(self) -> bool {
        self.bits & ALL_BITS == self.bits
    }

    /// Membership of one format in the set.
    pub open spec fn spec_contains(self, f: AudioFormat) -> bool {
        self.bits & format_bit(f) != 0
    }

    /// The set written `{}`.
    pub open spec fn spec_empty() -> FormatSet {
        FormatSet { bits: 0 }
    }

    /// The set of every supported format.
    pub open spec fn spec_all() -> FormatSet {
        FormatSet { bits: ALL_BITS }
    }

    /// The set with `f` added.
    pub open spec fn spec_insert(self, f: AudioFormat) -> FormatSet {
        FormatSet { bits: self.bits | format_bit(f) }
    }

    /// The union of two sets.
    pub open spec fn spec_union(self, other: FormatSet) -> FormatSet {
        FormatSet { bits: self.bits | other.bits }
    }

    /// The empty set: no format is a member.
    pub fn empty() -> (r: FormatSet)
        ensures
            r == FormatSet::spec_empty(),
            r.wf(),
            forall|f: AudioFormat| !r.spec_contains(f),
    {
        proof {
            lemma_zero_bits();
        }
        FormatSet { bits: 0 }
    }

    /// The full set: every format is a member.
    pub fn all() -> (r: FormatSet)
        ensures
            r == FormatSet::spec_all(),
            r.wf(),
            forall|f: AudioFormat| r.spec_contains(f),
    {
        proof {
            lemma_all_bits();
            assert forall|f: AudioFormat| FormatSet::spec_all().spec_contains(f) by {
                lemma_format_bit_cases(f);
            }
        }
        FormatSet { bits: ALL_BITS }
    }

    /// Membership test.
    pub fn contains(self, f: AudioFormat) -> (r: bool)
        ensures
            r == self.spec_contains(f),
    {
        self.bits & bit_of(f) != 0
    }

    /// The set with `f` added; the receiver is unchanged.
    pub fn insert(self, f: AudioFormat) -> (r: FormatSet)
        ensures
            r == self.spec_insert(f),
            self.wf() ==> r.wf(),
            forall|g: AudioFormat| r.spec_contains(g) <==> (self.spec_contains(g) || g == f),
    {
        let b = bit_of(f);
        let r = FormatSet { bits: self.bits | b };
        proof {
            if self.wf() {
                lemma_format_bit_cases(f);
                lemma_or_wf(self.bits, b);
            }
            assert forall|g: AudioFormat|
                r.spec_contains(g) <==> (self.spec_contains(g) || g == f) by {
                lemma_or_member_bit(self.bits, b, format_bit(g));
                lemma_format_bit_distinct(f, g);
            }
        }
        r
    }

    /// The union of two sets; neither argument is changed.
    pub fn union(self, other: FormatSet) -> (r: FormatSet)
        ensures
            r == self.spec_union(other),
            self.wf() && other.wf() ==> r.wf(),
            forall|g: AudioFormat|
                r.spec_contains(g) <==> (self.spec_contains(g) || other.spec_contains(g)),
    {
        proof {
            if self.wf() && other.wf() {
                lemma_or_wf(self.bits, other.bits);
            }
            assert forall|g: AudioFormat|
                (FormatSet { bits: self.bits | other.bits }).spec_contains(g)
                    <==> (self.spec_contains(g) || other.spec_contains(g)) by {
                lemma_or_member_bit(self.bits, other.bits, format_bit(g));
            }
        }
        FormatSet { bits: self.bits | other.bits }
    }

    /// Whether the set has no member at all.
    pub fn is_empty(self) -> (r: bool)
        ensures
            r == (self.bits == 0),
            self.wf() ==> (r <==> forall|f: AudioFormat| !self.spec_contains(f)),
    {
        proof {
            if self.bits == 0 {
                lemma_zero_bits();
                assert(forall|f: AudioFormat|
                    !(FormatSet { bits: 0u32 }).spec_contains(f));
            } else if self.wf() {
                lemma_some_bit_set(self.bits);
                if self.bits & 0x01 != 0 {
                    assert(self.spec_contains(AudioFormat::Ogg));
                } else if self.bits & 0x02 != 0 {
                    assert(self.spec_contains(AudioFormat::Mp3));
                } else if self.bits & 0x04 != 0 {
                    assert(self.spec_contains(AudioFormat::Wav));
                } else if self.bits & 0x08 != 0 {
                    assert(self.spec_contains(AudioFormat::Flac));
                } else if self.bits & 0x10 != 0 {
                    assert(self.spec_contains(AudioFormat::Aac));
                } else if self.bits & 0x20 != 0 {
                    assert(self.spec_contains(AudioFormat::Opus));
                } else if self.bits & 0x40 != 0 {
                    assert(self.spec_contains(AudioFormat::Alac));
                } else {
                    assert(self.spec_contains(AudioFormat::Wma));
                }
            }
        }
        self.bits == 0
    }
}

impl Default for FormatSet {
    /// The default selection: every supported format.
    fn default() -> (r: FormatSet)
        ensures
            r == FormatSet::spec_all(),
    {
        FormatSet::all()
    }
}

/// `format_bit` always yields one of the eight single-bit masks.
proof fn lemma_format_bit_cases(f: AudioFormat)
    ensures
        format_bit(f) == 0x01 || format_bit(f) == 0x02 || format_bit(f) == 0x04 || format_bit(f)
            == 0x08 || format_bit(f) == 0x10 || format_bit(f) == 0x20 || format_bit(f) == 0x40
            || format_bit(f) == 0x80,
        format_bit(f) & ALL_BITS == format_bit(f),
        format_bit(f) != 0,
{
    match f {
        AudioFormat::Ogg => {
            assert(0x01u32 & 0xFF == 0x01) by (bit_vector);
        },
        AudioFormat::Mp3 => {
            assert(0x02u32 & 0xFF == 0x02) by (bit_vector);
        },
        AudioFormat::Wav => {
            assert(0x04u32 & 0xFF == 0x04) by (bit_vector);
        },
        AudioFormat::Flac => {
            assert(0x08u32 & 0xFF == 0x08) by (bit_vector);
        },
        AudioFormat::Aac => {
            assert(0x10u32 & 0xFF == 0x10) by (bit_vector);
        },
        AudioFormat::Opus => {
            assert(0x20u32 & 0xFF == 0x20) by (bit_vector);
        },
        AudioFormat::Alac => {
            assert(0x40u32 & 0xFF == 0x40) by (bit_vector);
        },
        AudioFormat::Wma => {
            assert(0x80u32 & 0xFF == 0x80) by (bit_vector);
        },
    }
}

/// Two distinct formats never share a bit.
proof fn lemma_format_bit_distinct(f: AudioFormat, g: AudioFormat)
    ensures
        (format_bit(f) & format_bit(g) != 0) <==> f == g,
{
    lemma_format_bit_cases(f);
    lemma_format_bit_cases(g);
    let a = format_bit(f);
    let b = format_bit(g);
    assert(((a == 0x01 || a == 0x02 || a == 0x04 || a == 0x08 || a == 0x10 || a == 0x20 || a
        == 0x40 || a == 0x80) && (b == 0x01 || b == 0x02 || b == 0x04 || b == 0x08 || b == 0x10
        || b == 0x20 || b == 0x40 || b == 0x80)) ==> ((a & b != 0) <==> a == b))
        by (bit_vector);
    if a == b {
        match f {
            AudioFormat::Ogg => {
                assert(g is Ogg);
            },
            AudioFormat::Mp3 => {
                assert(g is Mp3);
            },
            AudioFormat::Wav => {
                assert(g is Wav);
            },
            AudioFormat::Flac => {
                assert(g is Flac);
            },
            AudioFormat::Aac => {
                assert(g is Aac);
            },
            AudioFormat::Opus => {
                assert(g is Opus);
            },
            AudioFormat::Alac => {
                assert(g is Alac);
            },
            AudioFormat::Wma => {
                assert(g is Wma);
            },
        }
    }
}

/// Zero has no bit in common with anything.
proof fn lemma_zero_bits()
    by (bit_vector)
    ensures
        forall|m: u32| #[trigger] (0u32 & m) == 0,
        0u32 & 0xFF == 0,
{
}

/// The full mask keeps every low bit.
proof fn lemma_all_bits()
    by (bit_vector)
    ensures
        0xFFu32 & 0xFF == 0xFF,
        forall|m: u32|
            (m == 0x01 || m == 0x02 || m == 0x04 || m == 0x08 || m == 0x10 || m == 0x20 || m
                == 0x40 || m == 0x80) ==> #[trigger] (0xFFu32 & m) != 0,
{
}

/// A union is nonempty on a bit exactly when one operand is.
proof fn lemma_or_member_bit(a: u32, b: u32, m: u32)
    by (bit_vector)
    ensures
        ((a | b) & m != 0) <==> (a & m != 0 || b & m != 0),
{
}

/// A union of well-formed masks is well-formed.
proof fn lemma_or_wf(a: u32, b: u32)
    by (bit_vector)
    ensures
        (a & 0xFF == a && b & 0xFF == b) ==> ((a | b) & 0xFF == (a | b)),
{
}

/// A nonzero well-formed mask has one of the eight bits set.
proof fn lemma_some_bit_set(a: u32)
    by (bit_vector)
    ensures
        (a & 0xFF == a && a != 0) ==> (a & 0x01 != 0 || a & 0x02 != 0 || a & 0x04 != 0 || a
            & 0x08 != 0 || a & 0x10 != 0 || a & 0x20 != 0 || a & 0x40 != 0 || a & 0x80 != 0),
{
}

/// Union takes the same set twice to itself: selecting a format twice is
/// the same as selecting it once.
pub proof fn lemma_union_idempotent(s: FormatSet)
    ensures
        s.spec_union(s) == s,
{
    let a = s.bits;
    assert(a | a == a) by (bit_vector);
}

/// Union does not care about the order of its operands.
pub proof fn lemma_union_commutative(s: FormatSet, t: FormatSet)
    ensures
        s.spec_union(t) == t.spec_union(s),
{
    let a = s.bits;
    let b = t.bits;
    assert(a | b == b | a) by (bit_vector);
}

/// The full set is exactly the empty set with every named format inserted:
/// selecting every format one by one builds the same filter as selecting all.
pub proof fn lemma_all_is_every_named()
    ensures
        FormatSet::spec_empty().spec_insert(AudioFormat::Ogg).spec_insert(
            AudioFormat::Mp3,
        ).spec_insert(AudioFormat::Wav).spec_insert(AudioFormat::Flac).spec_insert(
            AudioFormat::Aac,
        ).spec_insert(AudioFormat::Opus).spec_insert(AudioFormat::Alac).spec_insert(
            AudioFormat::Wma,
        ) == FormatSet::spec_all(),
{
    assert((((((((0u32 | 0x01) | 0x02) | 0x04) | 0x08) | 0x10) | 0x20) | 0x40) | 0x80 == 0xFF)
        by (bit_vector);
}

} // verus!
