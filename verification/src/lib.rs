use vstd::prelude::*;

pub mod breakpad;
pub mod laws;
pub mod macho;
pub mod proguard;
pub mod raw;
pub mod record;
pub mod sniff;
pub mod types;
pub mod validate;

pub use crate::types::{DifError, Format, Variant};

use crate::breakpad::{breakpad_extract, breakpad_spec};
use crate::macho::{macho_extract, macho_extract_spec};
use crate::proguard::{proguard_id, proguard_identifier};
use crate::sniff::{is_breakpad_sig, resolve_format, resolve_spec};
use crate::types::{opt_str_view, views_of, VariantV};
use crate::validate::{validate, validate_spec};

verus! {

/// Size cap on buffered input: larger files are refused with
/// `FileTooLarge` instead of being inspected.
pub const MAX_DIF_SIZE: usize = 0x40000000;

/// Mathematical model of an inspected debug info file.
pub ghost struct DifV {
    pub format: Format,
    pub variants: Seq<VariantV>,
    pub note: Option<Seq<char>>,
    pub problem: Option<Seq<char>>,
}

/// An inspected debug info file: its detected format, the identified
/// variants in slice order, an optional informational note and an optional
/// usability-blocking problem. Immutable once constructed.
#[derive(Debug)]
pub struct DifFile {
    pub format: Format,
    pub variants: Vec<Variant>,
    pub note: Option<String>,
    pub problem: Option<String>,
}

impl View for DifFile {
    type V = DifV;

    open spec fn view(&self) -> DifV {
        DifV {
            format: self.format,
            variants: views_of(self.variants@),
            note: opt_str_view(self.note),
            problem: opt_str_view(self.problem),
        }
    }
}

/// Extraction for a resolved format: the number of located slices and the
/// variants found in them. Mach-O files may hold several slices; a
/// Proguard mapping always yields exactly one content-hash variant; a
/// Breakpad file yields exactly one variant from its MODULE record.
pub open spec fn extract_spec(b: Seq<u8>, f: Format) -> Result<(int, Seq<VariantV>), DifError> {
    match f {
        Format::MachODsym => match macho_extract_spec(b) {
            Result::Ok(m) => Result::Ok((m.n_slices, m.variants)),
            Result::Err(e) => Result::Err(e),
        },
        Format::Proguard => Result::Ok(
            (1int, seq![VariantV { identifier: proguard_id(b), cpu_type: Option::None }]),
        ),
        Format::Breakpad => match breakpad_spec(b) {
            Result::Ok(v) => Result::Ok((1int, seq![v])),
            Result::Err(e) => Result::Err(e),
        },
    }
}

/// The whole inspection: the size guard, then format resolution, then
/// extraction, then the usability rules, composed exactly as `from_bytes`
/// performs them.
pub open spec fn open_spec(b: Seq<u8>, hint: Option<Format>) -> Result<DifV, DifError> {
    if b.len() > MAX_DIF_SIZE {
        Result::Err(DifError::FileTooLarge)
    } else {
        match resolve_spec(b, hint) {
            Result::Err(e) => Result::Err(e),
            Result::Ok(f) => match extract_spec(b, f) {
                Result::Err(e) => Result::Err(e),
                Result::Ok(p) => {
                    let a = validate_spec(f, p.0, p.1);
                    Result::Ok(DifV { format: f, variants: p.1, note: a.note, problem: a.problem })
                },
            },
        }
    }
}

impl DifFile {
    /// Inspects one in-memory debug info file: sniffs or checks the format,
    /// extracts the variant list, and applies the usability rules. The
    /// layer that reads the file from disk hands the bytes in and maps I/O
    /// failures to `UnreadableFile` itself.
    pub fn from_bytes(data: &Vec<u8>, ty: Option<Format>) -> (r: Result<DifFile, DifError>)
        ensures
            match r {
                Result::Ok(f) => open_spec(data@, ty) == Result::Ok::<DifV, DifError>(f@),
                Result::Err(e) => open_spec(data@, ty) == Result::Err::<DifV, DifError>(e),
            },
    {
        if data.len() > MAX_DIF_SIZE {
            return Result::Err(DifError::FileTooLarge);
        }
        let f = match resolve_format(data, ty) {
            Result::Ok(f) => f,
            Result::Err(e) => { return Result::Err(e) },
        };
        let n_slices: usize;
        let variants: Vec<Variant>;
        match f {
            Format::MachODsym => {
                match macho_extract(data) {
                    Result::Ok(p) => {
                        n_slices = p.0;
                        variants = p.1;
                    },
                    Result::Err(e) => { return Result::Err(e) },
                }
            },
            Format::Proguard => {
                let id = proguard_identifier(data);
                let mut vs: Vec<Variant> = Vec::new();
                vs.push(Variant { identifier: id, cpu_type: Option::None });
                proof {
                    assert(views_of(vs@) =~= seq![
                        VariantV { identifier: proguard_id(data@), cpu_type: Option::None },
                    ]);
                }
                n_slices = 1;
                variants = vs;
            },
            Format::Breakpad => {
                proof {
                    assert(is_breakpad_sig(data@));
                }
                match breakpad_extract(data) {
                    Result::Ok(v) => {
                        let ghost vv = v@;
                        let mut vs: Vec<Variant> = Vec::new();
                        vs.push(v);
                        proof {
                            assert(views_of(vs@) =~= seq![vv]);
                        }
                        n_slices = 1;
                        variants = vs;
                    },
                    Result::Err(e) => { return Result::Err(e) },
                }
            },
        }
        let (note, problem) = validate(f, n_slices, &variants);
        Result::Ok(DifFile { format: f, variants, note, problem })
    }

    /// The format resolved at open time; fixed at construction.
    pub fn format(&self) -> (r: Format)
        ensures
            r == self@.format,
    {
        self.format
    }

    /// The identified variants, in the order of the architecture slices of
    /// the file.
    pub fn variants(&self) -> (r: &Vec<Variant>)
        ensures
            views_of(r@) == self@.variants,
    {
        &self.variants
    }

    /// The informational note, if any; it never affects usability.
    pub fn note(&self) -> (r: &Option<String>)
        ensures
            opt_str_view(*r) == self@.note,
    {
        &self.note
    }

    /// The usability-blocking problem, if any.
    pub fn problem(&self) -> (r: &Option<String>)
        ensures
            opt_str_view(*r) == self@.problem,
    {
        &self.problem
    }

    /// Whether the file is fit for symbolication: exactly the absence of a
    /// problem; never stored independently.
    pub fn is_usable(&self) -> (r: bool)
        ensures
            r == (self@.problem is None),
    {
        self.problem.is_none()
    }
}

} // verus!
