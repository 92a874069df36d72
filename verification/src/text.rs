//! Byte-string utilities: ASCII lowercasing and substring search.

use vstd::prelude::*;

verus! {

/// ASCII lowercase of one byte.
pub open spec fn lower_byte(b: u8) -> u8 {
    if 65 <= b <= 90 {
        (b + 32) as u8
    } else {
        b
    }
}

/// ASCII lowercase of a byte string.
pub open spec fn lower_bytes(s: Seq<u8>) -> Seq<u8> {
    s.map_values(|b: u8| lower_byte(b))
}

/// `needle` occurs in `hay` starting at offset `i`.
pub open spec fn begins_at(hay: Seq<u8>, needle: Seq<u8>, i: int) -> bool {
    0 <= i
    && i + needle.len() <= hay.len()
    && forall|k: int| 0 <= k < needle.len() ==> hay[i + k] == #[trigger] needle[k]
}

/// `needle` occurs somewhere in `hay` (the empty needle occurs everywhere).
pub open spec fn contains_seq(hay: Seq<u8>, needle: Seq<u8>) -> bool {
    exists|i: int| begins_at(hay, needle, i)
}

/// ASCII-lowercased copy of a byte vector.
pub fn to_lower(v: &Vec<u8>) -> (r: Vec<u8>)
    ensures
        r@ == lower_bytes(v@),
{
    let mut r: Vec<u8> = Vec::new();
    let mut i: usize = 0;
    while i < v.len()
        invariant
            i <= v.len(),
            r@ == lower_bytes(v@.take(i as int)),
        decreases v.len() - i,
    {
        let b = v[i];
        if 65 <= b && b <= 90 {
            r.push(b + 32);
        } else {
            r.push(b);
        }
        proof {
            assert(r@ =~= lower_bytes(v@.take(i + 1)));
        }
        i = i + 1;
    }
    proof {
        assert(v@.take(v@.len() as int) =~= v@);
    }
    r
}

/// Case-sensitive substring search.
pub fn contains_bytes(hay: &Vec<u8>, needle: &Vec<u8>) -> (r: bool)
    ensures
        r == contains_seq(hay@, needle@),
{
    if needle.len() > hay.len() {
        return false;
    }
    if needle.len() == 0 {
        proof {
            assert(begins_at(hay@, needle@, 0));
        }
        return true;
    }
    let last_start = hay.len() - needle.len();
    let mut i: usize = 0;
    while i <= last_start
        invariant
            1 <= needle@.len() <= hay@.len(),
            last_start == hay@.len() - needle@.len(),
            i <= last_start + 1,
            forall|s: int| 0 <= s < i ==> !begins_at(hay@, needle@, s),
        decreases last_start + 1 - i,
    {
        let mut j: usize = 0;
        let mut mismatch = false;
        while j < needle.len()
            invariant
                i + needle@.len() <= hay@.len(),
                j <= needle@.len(),
                !mismatch ==> forall|k: int| 0 <= k < j ==> hay@[i + k] == #[trigger] needle@[k],
                mismatch ==> !begins_at(hay@, needle@, i as int),
            decreases needle@.len() - j,
        {
            if hay[i + j] != needle[j] {
                proof {
                    assert(!begins_at(hay@, needle@, i as int)) by {
                        if begins_at(hay@, needle@, i as int) {
                            assert(hay@[i + j] == needle@[j as int]);
                        }
                    }
                }
                mismatch = true;
                j = needle.len();
            } else {
                j = j + 1;
            }
        }
        if !mismatch {
            proof {
                assert(begins_at(hay@, needle@, i as int));
            }
            return true;
        }
        i = i + 1;
    }
    proof {
        assert forall|s: int| !begins_at(hay@, needle@, s) by {
            if 0 <= s && s + needle@.len() <= hay@.len() {
                assert(s < i);
            }
        }
    }
    false
}

} // verus!
