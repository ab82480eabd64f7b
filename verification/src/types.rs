use vstd::prelude::*;

verus! {

/// The three debug-info formats this library recognizes.
#[derive(Clone, Copy, PartialEq, Eq, Structural, Debug)]
pub enum Format {
    MachODsym,
    Proguard,
    Breakpad,
}

/// Hard failures from opening a file: no result can be constructed.
///
/// `UnreadableFile` and `FileTooLarge` are produced by the layer that reads
/// the file from disk; the in-memory inspection itself never returns them.
#[derive(Clone, Copy, PartialEq, Eq, Structural, Debug)]
pub enum DifError {
    UnreadableFile,
    UnknownFormat,
    FormatMismatch,
    TruncatedFile,
    MalformedHeader,
    FileTooLarge,
}

/// One (identifier, architecture) pair extracted from a debug info file.
#[derive(Clone, Debug)]
pub struct Variant {
    /// Format-specific stable build identifier: UUID-shaped for Mach-O, a
    /// content hash for Proguard, the debug-id field for Breakpad.
    pub identifier: String,
    /// Architecture tag; present for Mach-O slices, absent for
    /// architecture-agnostic formats.
    pub cpu_type: Option<String>,
}

/// Mathematical model of a `Variant`.
pub ghost struct VariantV {
    pub identifier: Seq<char>,
    pub cpu_type: Option<Seq<char>>,
}

impl View for Variant {
    type V = VariantV;

    open spec fn view(&self) -> VariantV {
        VariantV {
            identifier: self.identifier@,
            cpu_type: match self.cpu_type {
                Option::Some(s) => Option::Some(s@),
                Option::None => Option::None,
            },
        }
    }
}

/// The model of an optional string.
pub open spec fn opt_str_view(o: Option<String>) -> Option<Seq<char>> {
    match o {
        Option::Some(s) => Option::Some(s@),
        Option::None => Option::None,
    }
}

/// The models of a vector of variants, in order.
pub open spec fn views_of(vs: Seq<Variant>) -> Seq<VariantV> {
    Seq::new(vs.len(), |i: int| vs[i]@)
}

} // verus!
