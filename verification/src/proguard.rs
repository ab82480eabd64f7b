use vstd::prelude::*;

use crate::raw::{
    append_hex, bytes_hex, find_line_end, lemma_line_end_bounds, line_end,
};

verus! {

/// Offset basis of the 64-bit FNV-1a hash.
pub const FNV_OFFSET: u64 = 0xcbf29ce484222325;

/// Prime of the 64-bit FNV-1a hash.
pub const FNV_PRIME: u64 = 0x100000001b3;

/// One step of the FNV-1a hash: fold one byte into the accumulator.
pub open spec fn fnv_step(acc: u64, b: u8) -> u64 {
    vstd::wrapping::u64_specs::wrapping_mul(acc ^ (b as u64), FNV_PRIME)
}

/// The 64-bit FNV-1a hash of a byte sequence.
pub open spec fn fnv64(s: Seq<u8>) -> u64
    decreases s.len(),
{
    if s.len() == 0 {
        FNV_OFFSET
    } else {
        fnv_step(fnv64(s.drop_last()), s.last())
    }
}

/// Computes the 64-bit FNV-1a hash of the whole input.
pub fn fnv64_hash(data: &Vec<u8>) -> (r: u64)
    ensures
        r == fnv64(data@),
{
    let mut acc: u64 = FNV_OFFSET;
    let mut i: usize = 0;
    proof {
        assert(data@.subrange(0, 0) =~= Seq::<u8>::empty());
    }
    while i < data.len()
        invariant
            0 <= i <= data@.len(),
            acc == fnv64(data@.subrange(0, i as int)),
        decreases data@.len() - i,
    {
        acc = (acc ^ (data[i] as u64)).wrapping_mul(FNV_PRIME);
        proof {
            let pre = data@.subrange(0, i as int);
            let post = data@.subrange(0, i as int + 1);
            assert(post.drop_last() =~= pre);
            assert(post.last() == data@[i as int]);
        }
        i = i + 1;
    }
    proof {
        assert(data@.subrange(0, data@.len() as int) =~= data@);
    }
    acc
}

/// The big-endian byte rendering of a 64-bit value.
pub open spec fn u64_be_bytes(x: u64) -> Seq<u8> {
    seq![
        ((x as int / 0x100000000000000) % 0x100) as u8,
        ((x as int / 0x1000000000000) % 0x100) as u8,
        ((x as int / 0x10000000000) % 0x100) as u8,
        ((x as int / 0x100000000) % 0x100) as u8,
        ((x as int / 0x1000000) % 0x100) as u8,
        ((x as int / 0x10000) % 0x100) as u8,
        ((x as int / 0x100) % 0x100) as u8,
        ((x as int) % 0x100) as u8,
    ]
}

/// The content-hash identifier of a Proguard mapping file: the FNV-1a hash
/// of the whole file, rendered as sixteen hexadecimal digits.
pub open spec fn proguard_id(s: Seq<u8>) -> Seq<char> {
    bytes_hex(u64_be_bytes(fnv64(s)))
}

/// Derives the content-hash identifier of a Proguard mapping file.
pub fn proguard_identifier(data: &Vec<u8>) -> (r: String)
    ensures
        r@ == proguard_id(data@),
{
    let acc = fnv64_hash(data);
    let mut bytes: Vec<u8> = Vec::new();
    bytes.push((acc / 0x100000000000000 % 0x100) as u8);
    bytes.push((acc / 0x1000000000000 % 0x100) as u8);
    bytes.push((acc / 0x10000000000 % 0x100) as u8);
    bytes.push((acc / 0x100000000 % 0x100) as u8);
    bytes.push((acc / 0x1000000 % 0x100) as u8);
    bytes.push((acc / 0x10000 % 0x100) as u8);
    bytes.push((acc / 0x100 % 0x100) as u8);
    bytes.push((acc % 0x100) as u8);
    proof {
        assert(bytes@ =~= u64_be_bytes(acc));
    }
    let mut s = String::new();
    append_hex(&mut s, &bytes, 0, 8);
    proof {
        assert(bytes@.subrange(0, 8) =~= bytes@);
        assert(s@ =~= proguard_id(data@));
    }
    s
}

/// Whether `b` holds the four bytes of the mapping arrow `" -> "` at `k`.
pub open spec fn arrow_at(b: Seq<u8>, k: int) -> bool {
    b[k] == 32u8 && b[k + 1] == 45u8 && b[k + 2] == 62u8 && b[k + 3] == 32u8
}

/// Whether the line `b[i..j)` matches the mapping grammar
/// `original-name -> obfuscated-name:`: it ends with a colon and holds the
/// arrow with at least one byte on either side.
pub open spec fn is_mapping_line(b: Seq<u8>, i: int, j: int) -> bool {
    &&& i < j <= b.len()
    &&& b[j - 1] == 58u8
    &&& exists|k: int| i < k && k + 5 < j && #[trigger] arrow_at(b, k)
}

/// Whether the first line of `b` at or after `i` that is neither empty nor a
/// `#` comment matches the mapping grammar.
pub open spec fn proguard_sig(b: Seq<u8>, i: int) -> bool
    decreases b.len() - i,
        via proguard_sig_dec
{
    if i < 0 || i >= b.len() {
        false
    } else {
        let j = line_end(b, i);
        if j == i || b[i] == 35u8 {
            if j >= b.len() {
                false
            } else {
                proguard_sig(b, j + 1)
            }
        } else {
            is_mapping_line(b, i, j)
        }
    }
}

#[via_fn]
proof fn proguard_sig_dec(b: Seq<u8>, i: int) {
    if 0 <= i < b.len() {
        lemma_line_end_bounds(b, i);
    }
}

/// Checks the line `data[i..j)` against the mapping grammar.
fn check_mapping_line(data: &Vec<u8>, i: usize, j: usize) -> (r: bool)
    requires
        i <= j <= data@.len(),
    ensures
        r == is_mapping_line(data@, i as int, j as int),
{
    if j == i {
        return false;
    }
    if data[j - 1] != 58 {
        return false;
    }
    if j - i < 7 {
        // the shortest mapping line has one byte, the arrow, one byte and
        // the colon
        assert(forall|k: int| !(i < k && k + 5 < j && #[trigger] arrow_at(data@, k)));
        return false;
    }
    let mut k: usize = i + 1;
    while k < j - 5
        invariant
            i + 1 <= k <= j - 5,
            i + 7 <= j <= data@.len(),
            data@[j - 1] == 58u8,
            forall|t: int| i < t < k ==> !(#[trigger] arrow_at(data@, t)),
        decreases j - k,
    {
        if data[k] == 32 && data[k + 1] == 45 && data[k + 2] == 62 && data[k + 3] == 32 {
            assert(arrow_at(data@, k as int));
            return true;
        }
        k = k + 1;
    }
    assert(forall|t: int| !(i < t && t + 5 < j && #[trigger] arrow_at(data@, t)));
    false
}

/// Checks whether the input's first substantive line matches the Proguard
/// mapping grammar.
pub fn is_proguard(data: &Vec<u8>) -> (r: bool)
    ensures
        r == proguard_sig(data@, 0),
{
    let n = data.len();
    let mut i: usize = 0;
    loop
        invariant
            0 <= i <= data@.len(),
            n == data@.len(),
            proguard_sig(data@, 0) == proguard_sig(data@, i as int),
        decreases data@.len() - i,
    {
        if i >= n {
            return false;
        }
        let j = find_line_end(data, i);
        if j == i || data[i] == 35 {
            if j >= n {
                // the recursion would start past the end of the input
                return false;
            }
            i = j + 1;
        } else {
            return check_mapping_line(data, i, j);
        }
    }
}

} // verus!
