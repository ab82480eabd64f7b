use vstd::prelude::*;

use crate::raw::{find_line_end, find_token_end, latin1, latin1_string, line_end, token_end};
use crate::types::{DifError, Variant, VariantV};

verus! {

/// The variant carried by a Breakpad symbol file, read from its
/// `MODULE <os> <arch> <debug-id> <name>` header line: the identifier is the
/// debug-id field verbatim and the architecture tag is the arch field.
/// `MalformedHeader` when that line does not tokenize into at least the five
/// expected fields.
pub open spec fn breakpad_spec(b: Seq<u8>) -> Result<VariantV, DifError> {
    let le = line_end(b, 0);
    let os_s = 7int;
    let os_e = token_end(b, os_s, le);
    let arch_s = os_e + 1;
    let arch_e = token_end(b, arch_s, le);
    let id_s = arch_e + 1;
    let id_e = token_end(b, id_s, le);
    let name_s = id_e + 1;
    if os_e <= os_s || os_e >= le || arch_e <= arch_s || arch_e >= le || id_e <= id_s || name_s
        >= le {
        Result::Err(DifError::MalformedHeader)
    } else {
        Result::Ok(
            VariantV {
                identifier: latin1(b.subrange(id_s, id_e)),
                cpu_type: Option::Some(latin1(b.subrange(arch_s, arch_e))),
            },
        )
    }
}

/// Parses the MODULE header line of a Breakpad symbol file.
pub fn breakpad_extract(data: &Vec<u8>) -> (r: Result<Variant, DifError>)
    requires
        7 <= data@.len(),
    ensures
        match r {
            Result::Ok(v) => breakpad_spec(data@) == Result::Ok::<VariantV, DifError>(v@),
            Result::Err(e) => breakpad_spec(data@) == Result::Err::<VariantV, DifError>(e),
        },
{
    let le = find_line_end(data, 0);
    let os_s: usize = 7;
    if os_s > le {
        // the header line ends inside the MODULE keyword
        return Result::Err(DifError::MalformedHeader);
    }
    let os_e = find_token_end(data, os_s, le);
    if os_e <= os_s || os_e >= le {
        return Result::Err(DifError::MalformedHeader);
    }
    let arch_s = os_e + 1;
    let arch_e = find_token_end(data, arch_s, le);
    if arch_e <= arch_s || arch_e >= le {
        return Result::Err(DifError::MalformedHeader);
    }
    let id_s = arch_e + 1;
    let id_e = find_token_end(data, id_s, le);
    if id_e <= id_s || id_e >= le {
        return Result::Err(DifError::MalformedHeader);
    }
    let name_s = id_e + 1;
    if name_s >= le {
        return Result::Err(DifError::MalformedHeader);
    }
    let identifier = latin1_string(data, id_s, id_e);
    let arch = latin1_string(data, arch_s, arch_e);
    Result::Ok(Variant { identifier, cpu_type: Option::Some(arch) })
}

} // verus!
