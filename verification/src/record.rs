use vstd::prelude::*;

use crate::types::{opt_str_view, views_of, Format, Variant, VariantV};
use crate::{DifFile, DifV};

verus! {

/// The structured record a `DifFile` serializes to: stable field names,
/// the format as its stable tag string, the variants in order, then the
/// note and the problem. Consumers key off the presence of `problem`.
pub struct DifRecord {
    pub ty: String,
    pub variants: Vec<Variant>,
    pub note: Option<String>,
    pub problem: Option<String>,
}

/// Mathematical model of a `DifRecord`.
pub ghost struct RecordV {
    pub ty: Seq<char>,
    pub variants: Seq<VariantV>,
    pub note: Option<Seq<char>>,
    pub problem: Option<Seq<char>>,
}

impl View for DifRecord {
    type V = RecordV;

    open spec fn view(&self) -> RecordV {
        RecordV {
            ty: self.ty@,
            variants: views_of(self.variants@),
            note: opt_str_view(self.note),
            problem: opt_str_view(self.problem),
        }
    }
}

/// The stable tag of each format.
pub open spec fn format_name(f: Format) -> Seq<char> {
    match f {
        Format::MachODsym => "dsym"@,
        Format::Proguard => "proguard"@,
        Format::Breakpad => "breakpad"@,
    }
}

/// The format a stable tag names, if any.
pub open spec fn name_format(s: Seq<char>) -> Option<Format> {
    if s == "dsym"@ {
        Option::Some(Format::MachODsym)
    } else if s == "proguard"@ {
        Option::Some(Format::Proguard)
    } else if s == "breakpad"@ {
        Option::Some(Format::Breakpad)
    } else {
        Option::None
    }
}

/// The structured record of an inspected file.
pub open spec fn record_of(m: DifV) -> RecordV {
    RecordV { ty: format_name(m.format), variants: m.variants, note: m.note, problem: m.problem }
}

/// The inspected file a structured record denotes, if its tag is one of
/// the three formats.
pub open spec fn dif_of_record(r: RecordV) -> Option<DifV> {
    match name_format(r.ty) {
        Option::Some(f) => Option::Some(
            DifV { format: f, variants: r.variants, note: r.note, problem: r.problem },
        ),
        Option::None => Option::None,
    }
}

/// Serializing an inspected file to the structured record and reading it
/// back preserves the format, every identifier and architecture pair in
/// order, the note and the problem exactly.
pub proof fn lemma_record_round_trip(m: DifV)
    ensures
        dif_of_record(record_of(m)) == Option::Some(m),
{
    reveal_strlit("dsym");
    reveal_strlit("proguard");
    reveal_strlit("breakpad");
    assert("proguard"@.len() == 8);
    assert("dsym"@.len() == 4);
    assert("breakpad"@[0] == 'b');
    assert("proguard"@[0] == 'p');
}

/// Copies one variant field for field.
fn clone_variant(v: &Variant) -> (r: Variant)
    ensures
        r@ == v@,
{
    Variant {
        identifier: v.identifier.clone(),
        cpu_type: match &v.cpu_type {
            Option::Some(s) => Option::Some(s.clone()),
            Option::None => Option::None,
        },
    }
}

/// Copies a variant list, preserving order and every field.
fn clone_variants(vs: &Vec<Variant>) -> (r: Vec<Variant>)
    ensures
        views_of(r@) == views_of(vs@),
{
    let mut out: Vec<Variant> = Vec::new();
    let mut i: usize = 0;
    while i < vs.len()
        invariant
            i <= vs@.len(),
            out@.len() == i,
            forall|t: int| 0 <= t < i ==> views_of(out@)[t] == views_of(vs@)[t],
        decreases vs@.len() - i,
    {
        out.push(clone_variant(&vs[i]));
        i = i + 1;
    }
    proof {
        assert(views_of(out@) =~= views_of(vs@));
    }
    out
}

/// Copies an optional string.
fn clone_opt_string(o: &Option<String>) -> (r: Option<String>)
    ensures
        opt_str_view(r) == opt_str_view(*o),
{
    match o {
        Option::Some(s) => Option::Some(s.clone()),
        Option::None => Option::None,
    }
}

impl DifFile {
    /// Serializes the inspection result to its structured record.
    pub fn to_record(&self) -> (r: DifRecord)
        ensures
            r@ == record_of(self@),
    {
        let ty = match self.format {
            Format::MachODsym => String::from_str("dsym"),
            Format::Proguard => String::from_str("proguard"),
            Format::Breakpad => String::from_str("breakpad"),
        };
        DifRecord {
            ty,
            variants: clone_variants(&self.variants),
            note: clone_opt_string(&self.note),
            problem: clone_opt_string(&self.problem),
        }
    }

    /// Reads an inspection result back from its structured record; fails
    /// only on a tag that names no format.
    pub fn from_record(rec: DifRecord) -> (r: Option<DifFile>)
        ensures
            match r {
                Option::Some(f) => dif_of_record(rec@) == Option::Some(f@),
                Option::None => dif_of_record(rec@) is None,
            },
    {
        let format: Format;
        if rec.ty == String::from_str("dsym") {
            format = Format::MachODsym;
        } else if rec.ty == String::from_str("proguard") {
            format = Format::Proguard;
        } else if rec.ty == String::from_str("breakpad") {
            format = Format::Breakpad;
        } else {
            return Option::None;
        }
        Option::Some(
            DifFile {
                format,
                variants: rec.variants,
                note: rec.note,
                problem: rec.problem,
            },
        )
    }
}

} // verus!
