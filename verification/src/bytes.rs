//! Small helpers on byte strings, shared by classification and parsing.

use vstd::prelude::*;

verus! {

/// An ASCII upper-case letter mapped to lower case; anything else unchanged.
pub open spec fn lower_byte(b: u8) -> u8 {
    if 0x41 <= b && b <= 0x5A {
        (b + 0x20) as u8
    } else {
        b
    }
}

/// ASCII lower-casing of a whole byte string.
pub open spec fn lower_bytes(s: Seq<u8>) -> Seq<u8> {
    s.map_values(|b: u8| lower_byte(b))
}

/// ASCII lower-casing, executable.
pub fn lower_ascii(v: &Vec<u8>) -> (r: Vec<u8>)
    ensures
        r@ == lower_bytes(v@),
{
    let mut out: Vec<u8> = Vec::new();
    let mut i: usize = 0;
    while i < v.len()
        invariant
            i <= v.len(),
            out@ == lower_bytes(v@.take(i as int)),
        decreases v.len() - i,
    {
        let b = v[i];
        if 0x41 <= b && b <= 0x5A {
            out.push(b + 0x20);
        } else {
            out.push(b);
        }
        proof {
            assert(lower_bytes(v@.take(i + 1 as int)) =~= lower_bytes(v@.take(i as int)).push(
                lower_byte(v@[i as int]),
            ));
        }
        i += 1;
    }
    proof {
        assert(v@.take(v@.len() as int) =~= v@);
    }
    out
}

/// Lower-casing a byte string twice is the same as doing it once.
pub proof fn lemma_lower_bytes_idempotent(e: Seq<u8>)
    ensures
        lower_bytes(lower_bytes(e)) == lower_bytes(e),
{
    assert(lower_bytes(lower_bytes(e)) =~= lower_bytes(e));
}

/// Whether a byte string is exactly the three given bytes.
pub fn is3(v: &Vec<u8>, b0: u8, b1: u8, b2: u8) -> (r: bool)
    ensures
        r == (v@ == seq![b0, b1, b2]),
{
    let r = v.len() == 3 && v[0] == b0 && v[1] == b1 && v[2] == b2;
    proof {
        if r {
            assert(v@ =~= seq![b0, b1, b2]);
        }
    }
    r
}

/// Whether a byte string is exactly the four given bytes.
pub fn is4(v: &Vec<u8>, b0: u8, b1: u8, b2: u8, b3: u8) -> (r: bool)
    ensures
        r == (v@ == seq![b0, b1, b2, b3]),
{
    let r = v.len() == 4 && v[0] == b0 && v[1] == b1 && v[2] == b2 && v[3] == b3;
    proof {
        if r {
            assert(v@ =~= seq![b0, b1, b2, b3]);
        }
    }
    r
}

/// Copy the bytes of `v` between two positions.
pub fn subvec(v: &Vec<u8>, a: usize, b: usize) -> (r: Vec<u8>)
    requires
        a <= b <= v@.len(),
    ensures
        r@ == v@.subrange(a as int, b as int),
{
    let mut out: Vec<u8> = Vec::new();
    let mut i: usize = a;
    while i < b
        invariant
            a <= i <= b <= v@.len(),
            out@ == v@.subrange(a as int, i as int),
        decreases b - i,
    {
        out.push(v[i]);
        proof {
            assert(v@.subrange(a as int, i + 1 as int) =~= v@.subrange(a as int, i as int).push(
                v@[i as int],
            ));
        }
        i += 1;
    }
    out
}

} // verus!
