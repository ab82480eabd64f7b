use vstd::prelude::*;

use crate::macho::{
    fat_count, fat_variants, has_id, parse_region, slice_variant, RegionV, is_fat_sig,
    cpu_name, uuid_hex,
};
use crate::proguard::{fnv64, proguard_id, proguard_sig, u64_be_bytes};
use crate::raw::{byte_hex, bytes_hex, hex_digit, line_end, token_end, u32_at};
use crate::sniff::{is_breakpad_sig, is_macho_sig};
use crate::types::{DifError, Format, VariantV};
use crate::validate::{degenerate_id, msg_incomplete, msg_missing_ids};
use crate::{open_spec, DifV, MAX_DIF_SIZE};

verus! {

/// A Breakpad signature excludes every Mach-O magic: the leading `M` keeps
/// the big-endian word below all six magic values.
pub proof fn lemma_sigs_disjoint(b: Seq<u8>)
    requires
        is_breakpad_sig(b),
    ensures
        !is_macho_sig(b),
{
    assert(u32_at(b, 0, true) as int <= 0x4dffffff);
}

/// Opening a valid thin Mach-O debug file yields exactly one variant, its
/// identifier rendered from the file's identifier command and its
/// architecture tag from the file's declared cpu type; the file carries no
/// note and no problem.
pub proof fn lemma_thin_open(
    b: Seq<u8>,
    hint: Option<Format>,
    cputype: u32,
    cpusubtype: u32,
    u: Seq<u8>,
)
    requires
        b.len() <= MAX_DIF_SIZE,
        is_macho_sig(b),
        !is_fat_sig(b),
        parse_region(b, 0, b.len() as int) == (RegionV::Parsed {
            cputype,
            cpusubtype,
            uuid: Option::Some(u),
        }),
        hint == Option::None::<Format> || hint == Option::Some(Format::MachODsym),
    ensures
        open_spec(b, hint) == Result::Ok::<DifV, DifError>(
            DifV {
                format: Format::MachODsym,
                variants: seq![
                    VariantV {
                        identifier: uuid_hex(u),
                        cpu_type: Option::Some(cpu_name(cputype, cpusubtype)),
                    },
                ],
                note: Option::None,
                problem: Option::None,
            },
        ),
{
}

/// In a fat container whose first `n` slices all carry identifiers, and
/// whose identifiers are pairwise distinct, extraction keeps all `n`
/// variants in slice order.
pub proof fn lemma_fat_variants_full(b: Seq<u8>, n: int)
    requires
        0 <= n,
        forall|k: int| 0 <= k < n ==> (#[trigger] slice_variant(b, k)) is Some,
        forall|k1: int, k2: int|
            #![trigger slice_variant(b, k1), slice_variant(b, k2)]
            0 <= k1 < k2 < n ==> slice_variant(b, k1)->Some_0.identifier != slice_variant(
                b,
                k2,
            )->Some_0.identifier,
    ensures
        fat_variants(b, n).len() == n,
        forall|k: int| 0 <= k < n ==> fat_variants(b, n)[k] == (#[trigger] slice_variant(
            b,
            k,
        ))->Some_0,
    decreases n,
{
    if n > 0 {
        lemma_fat_variants_full(b, n - 1);
        let pre = fat_variants(b, n - 1);
        let v = slice_variant(b, n - 1)->Some_0;
        if has_id(pre, v.identifier) {
            let t = choose|t: int| 0 <= t < pre.len() && (#[trigger] pre[t]).identifier
                == v.identifier;
            assert(pre[t] == slice_variant(b, t)->Some_0);
            assert(slice_variant(b, t)->Some_0.identifier != slice_variant(
                b,
                n - 1,
            )->Some_0.identifier);
            assert(false);
        }
        assert(fat_variants(b, n) == pre.push(v));
    }
}

/// Opening a valid fat Mach-O debug file with `N` slices that all carry
/// pairwise-distinct identifiers yields exactly `N` variants in slice
/// order, no note, no problem — so the file is usable.
pub proof fn lemma_fat_open(b: Seq<u8>, hint: Option<Format>)
    requires
        b.len() <= MAX_DIF_SIZE,
        is_fat_sig(b),
        8 <= b.len(),
        8 + 20 * fat_count(b) <= b.len(),
        0 < fat_count(b),
        forall|k: int| 0 <= k < fat_count(b) ==> (#[trigger] slice_variant(b, k)) is Some,
        forall|k1: int, k2: int|
            #![trigger slice_variant(b, k1), slice_variant(b, k2)]
            0 <= k1 < k2 < fat_count(b) ==> slice_variant(b, k1)->Some_0.identifier
                != slice_variant(b, k2)->Some_0.identifier,
        hint == Option::None::<Format> || hint == Option::Some(Format::MachODsym),
    ensures
        open_spec(b, hint) is Ok,
        open_spec(b, hint)->Ok_0.format == Format::MachODsym,
        open_spec(b, hint)->Ok_0.variants.len() == fat_count(b),
        forall|k: int| 0 <= k < fat_count(b) ==> open_spec(b, hint)->Ok_0.variants[k] == (
        #[trigger] slice_variant(b, k))->Some_0,
        open_spec(b, hint)->Ok_0.note is None,
        open_spec(b, hint)->Ok_0.problem is None,
{
    lemma_fat_variants_full(b, fat_count(b));
}

/// Opening a fat Mach-O file of two slices where only the first carries an
/// identifier yields exactly that one variant, an incomplete-coverage note,
/// and no problem — the file stays usable.
#[verifier::rlimit(60)]
pub proof fn lemma_fat_partial_open(b: Seq<u8>, hint: Option<Format>, v: VariantV)
    requires
        b.len() <= MAX_DIF_SIZE,
        is_fat_sig(b),
        8 <= b.len(),
        8 + 20 * fat_count(b) <= b.len(),
        fat_count(b) == 2,
        slice_variant(b, 0) == Option::Some(v),
        slice_variant(b, 1) is None,
        hint == Option::None::<Format> || hint == Option::Some(Format::MachODsym),
    ensures
        open_spec(b, hint) is Ok,
        open_spec(b, hint)->Ok_0.format == Format::MachODsym,
        open_spec(b, hint)->Ok_0.variants == seq![v],
        open_spec(b, hint)->Ok_0.note == Option::Some(msg_incomplete()),
        open_spec(b, hint)->Ok_0.problem is None,
{
    lemma_fat_variants_two(b, v);
    assert(crate::sniff::resolve_spec(b, hint) == Result::Ok::<Format, DifError>(
        Format::MachODsym,
    ));
    assert(crate::extract_spec(b, Format::MachODsym) == Result::Ok::<
        (int, Seq<VariantV>),
        DifError,
    >((2int, seq![v])));
    assert(crate::validate::validate_spec(Format::MachODsym, 2, seq![v])
        == (crate::validate::AssessV { note: Option::Some(msg_incomplete()), problem: Option::None }));
}

/// In a fat container of two slices where only the first yields a variant,
/// extraction keeps exactly that variant.
pub proof fn lemma_fat_variants_two(b: Seq<u8>, v: VariantV)
    requires
        slice_variant(b, 0) == Option::Some(v),
        slice_variant(b, 1) is None,
    ensures
        fat_variants(b, 2) == seq![v],
{
    assert(!has_id(Seq::<VariantV>::empty(), v.identifier));
    assert(fat_variants(b, 0) == Seq::<VariantV>::empty());
    assert(fat_variants(b, 1) == Seq::<VariantV>::empty().push(v));
    assert(fat_variants(b, 2) == fat_variants(b, 1));
    assert(Seq::<VariantV>::empty().push(v) =~= seq![v]);
}

/// In a fat container none of whose first `n` slices carries an
/// identifier, extraction yields no variant.
pub proof fn lemma_fat_variants_empty(b: Seq<u8>, n: int)
    requires
        forall|k: int| 0 <= k < n ==> (#[trigger] slice_variant(b, k)) is None,
    ensures
        fat_variants(b, n) == Seq::<VariantV>::empty(),
    decreases n,
{
    if n > 0 {
        lemma_fat_variants_empty(b, n - 1);
    }
}

/// Opening a fat Mach-O file whose slices carry no decodable identifier at
/// all reports the missing-identifiers problem, so the file is unusable.
pub proof fn lemma_fat_missing_ids(b: Seq<u8>, hint: Option<Format>)
    requires
        b.len() <= MAX_DIF_SIZE,
        is_fat_sig(b),
        8 <= b.len(),
        8 + 20 * fat_count(b) <= b.len(),
        0 < fat_count(b),
        forall|k: int| 0 <= k < fat_count(b) ==> (#[trigger] slice_variant(b, k)) is None,
        hint == Option::None::<Format> || hint == Option::Some(Format::MachODsym),
    ensures
        open_spec(b, hint) is Ok,
        open_spec(b, hint)->Ok_0.variants.len() == 0,
        open_spec(b, hint)->Ok_0.problem == Option::Some(msg_missing_ids()),
{
    lemma_fat_variants_empty(b, fat_count(b));
}

/// Opening a thin Mach-O file without an identifier command reports the
/// missing-identifiers problem, so the file is unusable.
pub proof fn lemma_thin_missing_id(b: Seq<u8>, hint: Option<Format>, cputype: u32, cpusubtype: u32)
    requires
        b.len() <= MAX_DIF_SIZE,
        is_macho_sig(b),
        !is_fat_sig(b),
        parse_region(b, 0, b.len() as int) == (RegionV::Parsed {
            cputype,
            cpusubtype,
            uuid: Option::None::<Seq<u8>>,
        }),
        hint == Option::None::<Format> || hint == Option::Some(Format::MachODsym),
    ensures
        open_spec(b, hint) is Ok,
        open_spec(b, hint)->Ok_0.variants.len() == 0,
        open_spec(b, hint)->Ok_0.problem == Option::Some(msg_missing_ids()),
{
}

pub proof fn lemma_bytes_hex_len(s: Seq<u8>)
    ensures
        bytes_hex(s).len() == 2 * s.len(),
    decreases s.len(),
{
    if s.len() > 0 {
        lemma_bytes_hex_len(s.drop_last());
    }
}

pub proof fn lemma_bytes_hex_index(s: Seq<u8>, i: int)
    requires
        0 <= i < s.len(),
    ensures
        bytes_hex(s)[2 * i] == hex_digit(s[i] as int / 16),
        bytes_hex(s)[2 * i + 1] == hex_digit(s[i] as int % 16),
    decreases s.len(),
{
    lemma_bytes_hex_len(s.drop_last());
    if i == s.len() - 1 {
        assert(bytes_hex(s)[2 * i] == byte_hex(s.last())[0]);
        assert(bytes_hex(s)[2 * i + 1] == byte_hex(s.last())[1]);
    } else {
        lemma_bytes_hex_index(s.drop_last(), i);
        assert(s.drop_last()[i] == s[i]);
    }
}

/// A nonzero hash never renders as a degenerate identifier: some digit of
/// its hexadecimal form differs from zero.
pub proof fn lemma_proguard_id_not_degenerate(b: Seq<u8>)
    requires
        fnv64(b) != 0,
    ensures
        !degenerate_id(proguard_id(b)),
{
    let x = fnv64(b);
    let bytes = u64_be_bytes(x);
    lemma_bytes_hex_len(bytes);
    if degenerate_id(proguard_id(b)) {
        assert forall|j: int| 0 <= j < 8 implies bytes[j] == 0 by {
            lemma_bytes_hex_index(bytes, j);
            assert(proguard_id(b)[2 * j] == '0');
            assert(proguard_id(b)[2 * j + 1] == '0');
            assert(hex_digit(bytes[j] as int / 16) == '0');
            assert(hex_digit(bytes[j] as int % 16) == '0');
        }
        assert((x as int / 0x100000000000000) % 0x100 == 0);
        assert((x as int / 0x1000000000000) % 0x100 == 0);
        assert((x as int / 0x10000000000) % 0x100 == 0);
        assert((x as int / 0x100000000) % 0x100 == 0);
        assert((x as int / 0x1000000) % 0x100 == 0);
        assert((x as int / 0x10000) % 0x100 == 0);
        assert((x as int / 0x100) % 0x100 == 0);
        assert((x as int) % 0x100 == 0);
        assert(x == 0) by (bit_vector)
            requires
                x / 0x100000000000000u64 % 0x100u64 == 0u64,
                x / 0x1000000000000u64 % 0x100u64 == 0u64,
                x / 0x10000000000u64 % 0x100u64 == 0u64,
                x / 0x100000000u64 % 0x100u64 == 0u64,
                x / 0x1000000u64 % 0x100u64 == 0u64,
                x / 0x10000u64 % 0x100u64 == 0u64,
                x / 0x100u64 % 0x100u64 == 0u64,
                x % 0x100u64 == 0u64,
        ;
        assert(false);
    }
}

/// Opening a Proguard mapping file yields exactly one variant whose
/// identifier is the content hash of the whole file and whose architecture
/// tag is absent, with no note and no problem. The identifier is a function
/// of the bytes alone, so reopening unchanged bytes yields the same value.
/// An input whose hash value is exactly zero would be flagged as
/// degenerate and is excluded here.
pub proof fn lemma_proguard_open(b: Seq<u8>, hint: Option<Format>)
    requires
        b.len() <= MAX_DIF_SIZE,
        proguard_sig(b, 0),
        fnv64(b) != 0,
        hint == Option::Some(Format::Proguard) || (hint == Option::None::<Format> && !is_macho_sig(
            b,
        ) && !is_breakpad_sig(b)),
    ensures
        open_spec(b, hint) == Result::Ok::<DifV, DifError>(
            DifV {
                format: Format::Proguard,
                variants: seq![
                    VariantV { identifier: proguard_id(b), cpu_type: Option::None },
                ],
                note: Option::None,
                problem: Option::None,
            },
        ),
{
    lemma_proguard_id_not_degenerate(b);
}

/// Opening a Breakpad file whose MODULE line stops after its fourth token
/// — the debug identifier is the last thing on the line — fails with
/// `MalformedHeader`.
pub proof fn lemma_breakpad_malformed(b: Seq<u8>, hint: Option<Format>)
    requires
        b.len() <= MAX_DIF_SIZE,
        is_breakpad_sig(b),
        ({
            let le = line_end(b, 0);
            let os_e = token_end(b, 7, le);
            let arch_e = token_end(b, os_e + 1, le);
            let id_e = token_end(b, arch_e + 1, le);
            id_e + 1 >= le
        }),
        hint == Option::None::<Format> || hint == Option::Some(Format::Breakpad),
    ensures
        open_spec(b, hint) == Result::Err::<DifV, DifError>(DifError::MalformedHeader),
{
    lemma_sigs_disjoint(b);
}

/// A file whose first bytes match no signature fails with
/// `UnknownFormat` when no hint is given.
pub proof fn lemma_unknown_format(b: Seq<u8>)
    requires
        b.len() <= MAX_DIF_SIZE,
        !is_macho_sig(b),
        !is_breakpad_sig(b),
        !proguard_sig(b, 0),
    ensures
        open_spec(b, Option::None) == Result::Err::<DifV, DifError>(DifError::UnknownFormat),
{
}

/// Supplying a wrong explicit hint for a valid Mach-O file fails with
/// `FormatMismatch` rather than succeeding: always for a Breakpad hint,
/// and for a Proguard hint whenever the binary's first line does not
/// happen to spell a mapping line as well.
pub proof fn lemma_wrong_hint_macho(b: Seq<u8>, hint: Option<Format>)
    requires
        b.len() <= MAX_DIF_SIZE,
        is_macho_sig(b),
        hint == Option::Some(Format::Breakpad) || (hint == Option::Some(Format::Proguard)
            && !proguard_sig(b, 0)),
    ensures
        open_spec(b, hint) == Result::Err::<DifV, DifError>(DifError::FormatMismatch),
{
    if hint == Option::Some(Format::Breakpad) && is_breakpad_sig(b) {
        lemma_sigs_disjoint(b);
    }
}

/// The identifiers of the variants of any successfully opened file are
/// pairwise distinct: duplicate identifiers across fat slices collapse to
/// the first entry at extraction time.
pub proof fn lemma_fat_variants_unique(b: Seq<u8>, n: int)
    ensures
        forall|t1: int, t2: int|
            #![trigger fat_variants(b, n)[t1], fat_variants(b, n)[t2]]
            0 <= t1 < t2 < fat_variants(b, n).len() ==> fat_variants(b, n)[t1].identifier
                != fat_variants(b, n)[t2].identifier,
    decreases n,
{
    if n > 0 {
        lemma_fat_variants_unique(b, n - 1);
        let pre = fat_variants(b, n - 1);
        if slice_variant(b, n - 1) is Some {
            let v = slice_variant(b, n - 1)->Some_0;
            if !has_id(pre, v.identifier) {
                assert(fat_variants(b, n) == pre.push(v));
                assert forall|t1: int, t2: int|
                    0 <= t1 < t2 < fat_variants(b, n).len() implies fat_variants(b, n)[t1]
                    .identifier != fat_variants(b, n)[t2].identifier by {
                    if t2 == pre.len() {
                        assert(fat_variants(b, n)[t1] == pre[t1]);
                        assert(!(pre[t1].identifier == v.identifier));
                    } else {
                        assert(fat_variants(b, n)[t1] == pre[t1]);
                        assert(fat_variants(b, n)[t2] == pre[t2]);
                    }
                }
            }
        }
    }
}

/// Identifier uniqueness holds of every open result, whatever the format.
pub proof fn lemma_open_unique_identifiers(b: Seq<u8>, hint: Option<Format>)
    ensures
        open_spec(b, hint) matches Result::Ok(m) ==> forall|t1: int, t2: int|
            #![trigger m.variants[t1], m.variants[t2]]
            0 <= t1 < t2 < m.variants.len() ==> m.variants[t1].identifier
                != m.variants[t2].identifier,
{
    lemma_fat_variants_unique(b, fat_count(b));
}

} // verus!
