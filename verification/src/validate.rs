use vstd::prelude::*;

use crate::types::{opt_str_view, views_of, Format, Variant, VariantV};

verus! {

/// The problem reported when a file yields no variant at all.
pub open spec fn msg_no_usable() -> Seq<char> {
    "no usable debug information found"@
}

/// The problem reported when Mach-O slices were located but none carried a
/// decodable identifier.
pub open spec fn msg_missing_ids() -> Seq<char> {
    "missing debug identifiers"@
}

/// The note attached when only some slices of a fat binary yielded a
/// variant.
pub open spec fn msg_incomplete() -> Seq<char> {
    "incomplete architecture coverage"@
}

/// The problem reported when a single-variant format carries an empty or
/// all-zero identifier.
pub open spec fn msg_degenerate() -> Seq<char> {
    "degenerate identifier"@
}

/// An identifier that is empty or consists of zero digits only: such a key
/// cannot distinguish builds downstream.
pub open spec fn degenerate_id(id: Seq<char>) -> bool {
    id.len() == 0 || (forall|i: int| 0 <= i < id.len() ==> #[trigger] id[i] == '0')
}

/// The outcome of the usability rules: an informational note and a
/// usability-blocking problem, either of them optional.
pub ghost struct AssessV {
    pub note: Option<Seq<char>>,
    pub problem: Option<Seq<char>>,
}

/// The usability rules, evaluated on the extraction outcome. The first
/// blocking rule wins: a Mach-O file whose located slices carried no
/// decodable identifier is missing its identifiers; any other file with
/// zero variants has no usable debug information; a fat binary where only
/// some slices yielded a variant gets a note and stays usable; a
/// single-variant format with a degenerate identifier is unusable.
pub open spec fn validate_spec(format: Format, n_slices: int, vs: Seq<VariantV>) -> AssessV {
    if vs.len() == 0 {
        if format == Format::MachODsym && n_slices > 0 {
            AssessV { note: Option::None, problem: Option::Some(msg_missing_ids()) }
        } else {
            AssessV { note: Option::None, problem: Option::Some(msg_no_usable()) }
        }
    } else if format == Format::MachODsym {
        if vs.len() < n_slices {
            AssessV { note: Option::Some(msg_incomplete()), problem: Option::None }
        } else {
            AssessV { note: Option::None, problem: Option::None }
        }
    } else {
        if degenerate_id(vs[0].identifier) {
            AssessV { note: Option::None, problem: Option::Some(msg_degenerate()) }
        } else {
            AssessV { note: Option::None, problem: Option::None }
        }
    }
}

/// Checks a parsed identifier for the degenerate shape.
fn is_degenerate(s: &String) -> (r: bool)
    ensures
        r == degenerate_id(s@),
{
    let n = s.as_str().unicode_len();
    if n == 0 {
        return true;
    }
    let mut i: usize = 0;
    while i < n
        invariant
            i <= n,
            n == s@.len(),
            forall|t: int| 0 <= t < i ==> #[trigger] s@[t] == '0',
        decreases n - i,
    {
        if s.as_str().get_char(i) != '0' {
            return false;
        }
        i = i + 1;
    }
    true
}

/// Applies the usability rules to the extraction outcome.
pub fn validate(format: Format, n_slices: usize, vs: &Vec<Variant>) -> (r: (
    Option<String>,
    Option<String>,
))
    ensures
        ({
            let a = validate_spec(format, n_slices as int, views_of(vs@));
            opt_str_view(r.0) == a.note && opt_str_view(r.1) == a.problem
        }),
{
    if vs.len() == 0 {
        if format == Format::MachODsym && n_slices > 0 {
            (Option::None, Option::Some(String::from_str("missing debug identifiers")))
        } else {
            (Option::None, Option::Some(String::from_str("no usable debug information found")))
        }
    } else if format == Format::MachODsym {
        if vs.len() < n_slices {
            (Option::Some(String::from_str("incomplete architecture coverage")), Option::None)
        } else {
            (Option::None, Option::None)
        }
    } else {
        let v0 = &vs[0];
        if is_degenerate(&v0.identifier) {
            (Option::None, Option::Some(String::from_str("degenerate identifier")))
        } else {
            (Option::None, Option::None)
        }
    }
}

} // verus!
