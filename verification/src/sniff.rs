use vstd::prelude::*;

use crate::macho::is_thin_magic;
use crate::proguard::{is_proguard, proguard_sig};
use crate::raw::{read_u32, u32_at};
use crate::types::{DifError, Format};

verus! {

/// Whether the input opens with any Mach-O magic number: thin in either
/// byte order, either width, or one of the two fat-container magics.
pub open spec fn is_macho_sig(b: Seq<u8>) -> bool {
    b.len() >= 4 && (is_thin_magic(u32_at(b, 0, true)) || u32_at(b, 0, true) == 0xcafebabeu32
        || u32_at(b, 0, true) == 0xbebafebau32)
}

/// Whether the input opens with the Breakpad header token `MODULE `.
pub open spec fn is_breakpad_sig(b: Seq<u8>) -> bool {
    b.len() >= 7 && b[0] == 77u8 && b[1] == 79u8 && b[2] == 68u8 && b[3] == 85u8 && b[4] == 76u8
        && b[5] == 69u8 && b[6] == 32u8
}

/// Whether the input carries the structural signature of `f`.
pub open spec fn matches_format(b: Seq<u8>, f: Format) -> bool {
    match f {
        Format::MachODsym => is_macho_sig(b),
        Format::Breakpad => is_breakpad_sig(b),
        Format::Proguard => proguard_sig(b, 0),
    }
}

/// Detection without a hint tries the signatures in a fixed order — Mach-O
/// magic numbers, then the Breakpad header token, then the Proguard mapping
/// grammar — so the two text formats are disambiguated deterministically.
pub open spec fn sniff_spec(b: Seq<u8>) -> Option<Format> {
    if is_macho_sig(b) {
        Option::Some(Format::MachODsym)
    } else if is_breakpad_sig(b) {
        Option::Some(Format::Breakpad)
    } else if proguard_sig(b, 0) {
        Option::Some(Format::Proguard)
    } else {
        Option::None
    }
}

/// The format the input is treated as: a hint is checked against the
/// input's signature and fails with `FormatMismatch` when it does not hold;
/// without a hint the sniffed format is used, or `UnknownFormat` when no
/// signature matches.
pub open spec fn resolve_spec(b: Seq<u8>, hint: Option<Format>) -> Result<Format, DifError> {
    match hint {
        Option::Some(f) => if matches_format(b, f) {
            Result::Ok(f)
        } else {
            Result::Err(DifError::FormatMismatch)
        },
        Option::None => match sniff_spec(b) {
            Option::Some(f) => Result::Ok(f),
            Option::None => Result::Err(DifError::UnknownFormat),
        },
    }
}

/// Checks the input for a Mach-O magic number.
pub fn has_macho_sig(data: &Vec<u8>) -> (r: bool)
    ensures
        r == is_macho_sig(data@),
{
    if data.len() < 4 {
        return false;
    }
    let m = read_u32(data, 0, true);
    m == 0xfeedface || m == 0xfeedfacf || m == 0xcefaedfe || m == 0xcffaedfe || m == 0xcafebabe
        || m == 0xbebafeba
}

/// Checks the input for the Breakpad header token.
pub fn has_breakpad_sig(data: &Vec<u8>) -> (r: bool)
    ensures
        r == is_breakpad_sig(data@),
{
    if data.len() < 7 {
        return false;
    }
    data[0] == 77 && data[1] == 79 && data[2] == 68 && data[3] == 85 && data[4] == 76 && data[5]
        == 69 && data[6] == 32
}

/// Checks the input against the signature of one format.
pub fn check_format(data: &Vec<u8>, f: Format) -> (r: bool)
    ensures
        r == matches_format(data@, f),
{
    match f {
        Format::MachODsym => has_macho_sig(data),
        Format::Breakpad => has_breakpad_sig(data),
        Format::Proguard => is_proguard(data),
    }
}

/// Resolves the format of the input from its bytes and an optional hint.
pub fn resolve_format(data: &Vec<u8>, hint: Option<Format>) -> (r: Result<Format, DifError>)
    ensures
        r == resolve_spec(data@, hint),
{
    match hint {
        Option::Some(f) => {
            if check_format(data, f) {
                Result::Ok(f)
            } else {
                Result::Err(DifError::FormatMismatch)
            }
        },
        Option::None => {
            if has_macho_sig(data) {
                Result::Ok(Format::MachODsym)
            } else if has_breakpad_sig(data) {
                Result::Ok(Format::Breakpad)
            } else if is_proguard(data) {
                Result::Ok(Format::Proguard)
            } else {
                Result::Err(DifError::UnknownFormat)
            }
        },
    }
}

} // verus!
