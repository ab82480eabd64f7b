use vstd::prelude::*;

use crate::raw::{append_hex, bytes_hex, push_char, read_u32, u32_at};
use crate::types::{views_of, DifError, Variant, VariantV};

verus! {

/// Load-command tag of the build-identifier record.
pub const LC_UUID: u32 = 0x1b;

/// Whether a 32-bit value read big-endian at the start of a region is one of
/// the four thin Mach-O magic numbers.
pub open spec fn is_thin_magic(m: u32) -> bool {
    m == 0xfeedfaceu32 || m == 0xfeedfacfu32 || m == 0xcefaedfeu32 || m == 0xcffaedfeu32
}

/// Whether a thin magic says the fields of its file are stored big-endian.
pub open spec fn magic_is_be(m: u32) -> bool {
    m == 0xfeedfaceu32 || m == 0xfeedfacfu32
}

/// Whether a thin magic says its file uses the 64-bit header layout.
pub open spec fn magic_is_64(m: u32) -> bool {
    m == 0xfeedfacfu32 || m == 0xcffaedfeu32
}

/// Result of scanning the load commands of one Mach-O region for the
/// build-identifier command.
pub ghost enum UuidScanV {
    /// A load command lies outside its declared bounds.
    Bad,
    /// The sixteen identifier bytes of the first build-identifier command.
    Found(Seq<u8>),
    /// All commands scanned and none carries an identifier.
    Missing,
}

/// Scans `n` load commands laid out from `pos` up to `cend` for the first
/// build-identifier command.
pub open spec fn scan_cmds(b: Seq<u8>, pos: int, cend: int, n: int, be: bool) -> UuidScanV
    decreases n,
{
    if n <= 0 {
        UuidScanV::Missing
    } else if pos + 8 > cend {
        UuidScanV::Bad
    } else {
        let cmd = u32_at(b, pos, be);
        let csize = u32_at(b, pos + 4, be) as int;
        if csize < 8 || pos + csize > cend {
            UuidScanV::Bad
        } else if cmd == LC_UUID {
            if csize >= 24 {
                UuidScanV::Found(b.subrange(pos + 8, pos + 24))
            } else {
                UuidScanV::Bad
            }
        } else {
            scan_cmds(b, pos + csize, cend, n - 1, be)
        }
    }
}

/// Result of parsing one Mach-O region (a whole thin file, or one slice of a
/// fat file).
pub ghost enum RegionV {
    /// The declared structure extends past the region or the magic is not a
    /// thin Mach-O magic.
    Malformed,
    /// A parsed header with its declared architecture and the identifier of
    /// its build-identifier command, if one is present.
    Parsed { cputype: u32, cpusubtype: u32, uuid: Option<Seq<u8>> },
}

/// Parses the Mach-O region `b[start..end)`: header fields, then the scan of
/// its load commands. Every declared offset is checked against the region
/// bounds before it is read.
pub open spec fn parse_region(b: Seq<u8>, start: int, end: int) -> RegionV {
    if start + 4 > end {
        RegionV::Malformed
    } else {
        let m = u32_at(b, start, true);
        if !is_thin_magic(m) {
            RegionV::Malformed
        } else {
            let be = magic_is_be(m);
            let hsize: int = if magic_is_64(m) {
                32
            } else {
                28
            };
            if start + hsize > end {
                RegionV::Malformed
            } else {
                let cputype = u32_at(b, start + 4, be);
                let cpusubtype = u32_at(b, start + 8, be);
                let ncmds = u32_at(b, start + 16, be) as int;
                let sizeofcmds = u32_at(b, start + 20, be) as int;
                if start + hsize + sizeofcmds > end {
                    RegionV::Malformed
                } else {
                    match scan_cmds(b, start + hsize, start + hsize + sizeofcmds, ncmds, be) {
                        UuidScanV::Bad => RegionV::Malformed,
                        UuidScanV::Found(u) => RegionV::Parsed {
                            cputype,
                            cpusubtype,
                            uuid: Option::Some(u),
                        },
                        UuidScanV::Missing => RegionV::Parsed {
                            cputype,
                            cpusubtype,
                            uuid: Option::None,
                        },
                    }
                }
            }
        }
    }
}

pub proof fn lemma_scan_found_len(b: Seq<u8>, pos: int, cend: int, n: int, be: bool)
    requires
        0 <= pos,
        cend <= b.len(),
    ensures
        scan_cmds(b, pos, cend, n, be) matches UuidScanV::Found(u) ==> u.len() == 16,
    decreases n,
{
    if n > 0 && pos + 8 <= cend {
        let csize = u32_at(b, pos + 4, be) as int;
        if csize >= 8 && pos + csize <= cend && u32_at(b, pos, be) != LC_UUID {
            lemma_scan_found_len(b, pos + csize, cend, n - 1, be);
        }
    }
}

pub proof fn lemma_region_uuid_len(b: Seq<u8>, start: int, end: int)
    requires
        0 <= start <= end <= b.len(),
    ensures
        parse_region(b, start, end) matches RegionV::Parsed {
            cputype: _,
            cpusubtype: _,
            uuid: Option::Some(u),
        } ==> u.len() == 16,
{
    if start + 4 <= end {
        let m = u32_at(b, start, true);
        if is_thin_magic(m) {
            let be = magic_is_be(m);
            let hsize: int = if magic_is_64(m) {
                32
            } else {
                28
            };
            if start + hsize <= end {
                let ncmds = u32_at(b, start + 16, be) as int;
                let sizeofcmds = u32_at(b, start + 20, be) as int;
                if start + hsize + sizeofcmds <= end {
                    lemma_scan_found_len(
                        b,
                        start + hsize,
                        start + hsize + sizeofcmds,
                        ncmds,
                        be,
                    );
                }
            }
        }
    }
}

/// Result of parsing one Mach-O region, as executable data.
pub enum RegionInfo {
    Malformed,
    Parsed { cputype: u32, cpusubtype: u32, uuid: Option<Vec<u8>> },
}

impl View for RegionInfo {
    type V = RegionV;

    open spec fn view(&self) -> RegionV {
        match self {
            RegionInfo::Malformed => RegionV::Malformed,
            RegionInfo::Parsed { cputype, cpusubtype, uuid } => RegionV::Parsed {
                cputype: *cputype,
                cpusubtype: *cpusubtype,
                uuid: match uuid {
                    Option::Some(u) => Option::Some(u@),
                    Option::None => Option::None,
                },
            },
        }
    }
}

/// Scans the load commands of one region for the build-identifier command.
fn scan_cmds_x(data: &Vec<u8>, pos0: usize, cend: usize, ncmds: u32, be: bool) -> (r: Result<
    Option<Vec<u8>>,
    (),
>)
    requires
        pos0 <= cend <= data@.len(),
    ensures
        match r {
            Result::Ok(Option::Some(u)) => scan_cmds(
                data@,
                pos0 as int,
                cend as int,
                ncmds as int,
                be,
            ) == UuidScanV::Found(u@),
            Result::Ok(Option::None) => scan_cmds(data@, pos0 as int, cend as int, ncmds as int, be)
                == UuidScanV::Missing,
            Result::Err(_) => scan_cmds(data@, pos0 as int, cend as int, ncmds as int, be)
                == UuidScanV::Bad,
        },
{
    let mut pos: usize = pos0;
    let mut n: u32 = ncmds;
    loop
        invariant
            pos0 <= pos <= cend <= data@.len(),
            scan_cmds(data@, pos0 as int, cend as int, ncmds as int, be) == scan_cmds(
                data@,
                pos as int,
                cend as int,
                n as int,
                be,
            ),
        decreases n,
    {
        if n == 0 {
            return Result::Ok(Option::None);
        }
        if cend - pos < 8 {
            return Result::Err(());
        }
        let cmd = read_u32(data, pos, be);
        let csize = read_u32(data, pos + 4, be);
        if csize < 8 || csize as usize > cend - pos {
            return Result::Err(());
        }
        if cmd == LC_UUID {
            if csize < 24 {
                return Result::Err(());
            }
            let mut u: Vec<u8> = Vec::new();
            let mut i: usize = 0;
            while i < 16
                invariant
                    i <= 16,
                    pos + 24 <= cend <= data@.len(),
                    u@ =~= data@.subrange(pos + 8, pos + 8 + i as int),
                decreases 16 - i,
            {
                u.push(data[pos + 8 + i]);
                i = i + 1;
            }
            proof {
                assert(u@ =~= data@.subrange(pos as int + 8, pos as int + 24));
            }
            return Result::Ok(Option::Some(u));
        }
        pos = pos + csize as usize;
        n = n - 1;
    }
}

/// Parses the Mach-O region `data[start..end)`.
pub fn parse_region_x(data: &Vec<u8>, start: usize, end: usize) -> (r: RegionInfo)
    requires
        start <= end <= data@.len(),
    ensures
        r@ == parse_region(data@, start as int, end as int),
{
    if end - start < 4 {
        return RegionInfo::Malformed;
    }
    let m = read_u32(data, start, true);
    let is_thin = m == 0xfeedface || m == 0xfeedfacf || m == 0xcefaedfe || m == 0xcffaedfe;
    if !is_thin {
        return RegionInfo::Malformed;
    }
    let be = m == 0xfeedface || m == 0xfeedfacf;
    let hsize: usize = if m == 0xfeedfacf || m == 0xcffaedfe {
        32
    } else {
        28
    };
    if end - start < hsize {
        return RegionInfo::Malformed;
    }
    let cputype = read_u32(data, start + 4, be);
    let cpusubtype = read_u32(data, start + 8, be);
    let ncmds = read_u32(data, start + 16, be);
    let sizeofcmds = read_u32(data, start + 20, be);
    let avail = end - (start + hsize);
    if sizeofcmds as usize > avail {
        return RegionInfo::Malformed;
    }
    let cend = start + hsize + sizeofcmds as usize;
    match scan_cmds_x(data, start + hsize, cend, ncmds, be) {
        Result::Ok(uuid) => RegionInfo::Parsed { cputype, cpusubtype, uuid },
        Result::Err(_) => RegionInfo::Malformed,
    }
}

/// The canonical textual form of a sixteen-byte build identifier:
/// lower-case hexadecimal in five dash-separated groups.
pub open spec fn uuid_hex(u: Seq<u8>) -> Seq<char> {
    bytes_hex(u.subrange(0, 4)) + seq!['-'] + bytes_hex(u.subrange(4, 6)) + seq!['-'] + bytes_hex(
        u.subrange(6, 8),
    ) + seq!['-'] + bytes_hex(u.subrange(8, 10)) + seq!['-'] + bytes_hex(u.subrange(10, 16))
}

/// Renders a sixteen-byte build identifier in its canonical textual form.
pub fn uuid_string(u: &Vec<u8>) -> (r: String)
    requires
        u@.len() == 16,
    ensures
        r@ == uuid_hex(u@),
{
    let mut s = String::new();
    append_hex(&mut s, u, 0, 4);
    push_char(&mut s, '-');
    append_hex(&mut s, u, 4, 6);
    push_char(&mut s, '-');
    append_hex(&mut s, u, 6, 8);
    push_char(&mut s, '-');
    append_hex(&mut s, u, 8, 10);
    push_char(&mut s, '-');
    append_hex(&mut s, u, 10, 16);
    proof {
        assert(s@ =~= uuid_hex(u@));
    }
    s
}

/// The architecture tag declared by a Mach-O cpu type and subtype pair.
pub open spec fn cpu_name(cputype: u32, cpusubtype: u32) -> Seq<char> {
    let sub = cpusubtype & 0x00ffffff;
    if cputype == 7u32 {
        "x86"@
    } else if cputype == 0x01000007u32 {
        "x86_64"@
    } else if cputype == 12u32 {
        if sub == 6u32 {
            "armv6"@
        } else if sub == 9u32 {
            "armv7"@
        } else if sub == 11u32 {
            "armv7s"@
        } else if sub == 12u32 {
            "armv7k"@
        } else {
            "arm"@
        }
    } else if cputype == 0x0100000cu32 {
        if sub == 2u32 {
            "arm64e"@
        } else {
            "arm64"@
        }
    } else if cputype == 18u32 {
        "ppc"@
    } else if cputype == 0x01000012u32 {
        "ppc64"@
    } else {
        "unknown"@
    }
}

/// Renders the architecture tag of a Mach-O cpu type and subtype pair.
pub fn cpu_name_string(cputype: u32, cpusubtype: u32) -> (r: String)
    ensures
        r@ == cpu_name(cputype, cpusubtype),
{
    let sub = cpusubtype & 0x00ffffff;
    if cputype == 7 {
        String::from_str("x86")
    } else if cputype == 0x01000007 {
        String::from_str("x86_64")
    } else if cputype == 12 {
        if sub == 6 {
            String::from_str("armv6")
        } else if sub == 9 {
            String::from_str("armv7")
        } else if sub == 11 {
            String::from_str("armv7s")
        } else if sub == 12 {
            String::from_str("armv7k")
        } else {
            String::from_str("arm")
        }
    } else if cputype == 0x0100000c {
        if sub == 2 {
            String::from_str("arm64e")
        } else {
            String::from_str("arm64")
        }
    } else if cputype == 18 {
        String::from_str("ppc")
    } else if cputype == 0x01000012 {
        String::from_str("ppc64")
    } else {
        String::from_str("unknown")
    }
}

/// Whether the input opens with one of the two fat-container magic numbers.
pub open spec fn is_fat_sig(b: Seq<u8>) -> bool {
    b.len() >= 4 && (u32_at(b, 0, true) == 0xcafebabeu32 || u32_at(b, 0, true) == 0xbebafebau32)
}

/// Whether the fields of a fat container are stored big-endian.
pub open spec fn fat_be(b: Seq<u8>) -> bool {
    u32_at(b, 0, true) == 0xcafebabeu32
}

/// The number of architecture slices a fat container declares.
pub open spec fn fat_count(b: Seq<u8>) -> int {
    u32_at(b, 4, fat_be(b)) as int
}

/// The declared cpu type of fat slice `k`.
pub open spec fn fat_cputype(b: Seq<u8>, k: int) -> u32 {
    u32_at(b, 8 + 20 * k, fat_be(b))
}

/// The declared cpu subtype of fat slice `k`.
pub open spec fn fat_cpusubtype(b: Seq<u8>, k: int) -> u32 {
    u32_at(b, 12 + 20 * k, fat_be(b))
}

/// The declared file offset of fat slice `k`.
pub open spec fn fat_offset(b: Seq<u8>, k: int) -> int {
    u32_at(b, 16 + 20 * k, fat_be(b)) as int
}

/// The declared byte size of fat slice `k`.
pub open spec fn fat_size(b: Seq<u8>, k: int) -> int {
    u32_at(b, 20 + 20 * k, fat_be(b)) as int
}

/// The variant carried by fat slice `k`, when its region lies inside the
/// file, parses, and carries an identifier; the architecture tag comes from
/// the fat entry that declared the slice.
pub open spec fn slice_variant(b: Seq<u8>, k: int) -> Option<VariantV> {
    if fat_offset(b, k) + fat_size(b, k) > b.len() {
        Option::None
    } else {
        match parse_region(b, fat_offset(b, k), fat_offset(b, k) + fat_size(b, k)) {
            RegionV::Parsed { cputype: _, cpusubtype: _, uuid: Option::Some(u) } => Option::Some(
                VariantV {
                    identifier: uuid_hex(u),
                    cpu_type: Option::Some(cpu_name(fat_cputype(b, k), fat_cpusubtype(b, k))),
                },
            ),
            _ => Option::None,
        }
    }
}

/// Whether some variant of `vs` already carries `id`.
pub open spec fn has_id(vs: Seq<VariantV>, id: Seq<char>) -> bool {
    exists|t: int| 0 <= t < vs.len() && (#[trigger] vs[t]).identifier == id
}

/// Appends a variant unless its identifier is already present: duplicate
/// identifiers across slices collapse to the first entry.
pub open spec fn push_variant(vs: Seq<VariantV>, v: VariantV) -> Seq<VariantV> {
    if has_id(vs, v.identifier) {
        vs
    } else {
        vs.push(v)
    }
}

/// The variants of the first `k` slices of a fat container, in slice order,
/// with duplicate identifiers collapsed.
pub open spec fn fat_variants(b: Seq<u8>, k: int) -> Seq<VariantV>
    decreases k,
{
    if k <= 0 {
        Seq::empty()
    } else {
        match slice_variant(b, k - 1) {
            Option::Some(v) => push_variant(fat_variants(b, k - 1), v),
            Option::None => fat_variants(b, k - 1),
        }
    }
}

/// What Mach-O extraction yields: how many slices the container declares
/// and the variants that could be extracted from them.
pub ghost struct MachOV {
    pub n_slices: int,
    pub variants: Seq<VariantV>,
}

/// Extracts the variants of a Mach-O input. A fat container whose declared
/// slice table extends past end-of-file is truncated; a thin file is one
/// region, and one whose declared structure extends past end-of-file is
/// truncated. A fat slice that does not parse or carries no identifier
/// yields no variant but still counts as a slice.
pub open spec fn macho_extract_spec(b: Seq<u8>) -> Result<MachOV, DifError> {
    if is_fat_sig(b) {
        if b.len() < 8 {
            Result::Err(DifError::TruncatedFile)
        } else if 8 + 20 * fat_count(b) > b.len() {
            Result::Err(DifError::TruncatedFile)
        } else {
            Result::Ok(
                MachOV { n_slices: fat_count(b), variants: fat_variants(b, fat_count(b)) },
            )
        }
    } else {
        match parse_region(b, 0, b.len() as int) {
            RegionV::Malformed => Result::Err(DifError::TruncatedFile),
            RegionV::Parsed { cputype, cpusubtype, uuid } => Result::Ok(
                MachOV {
                    n_slices: 1,
                    variants: match uuid {
                        Option::Some(u) => seq![
                            VariantV {
                                identifier: uuid_hex(u),
                                cpu_type: Option::Some(cpu_name(cputype, cpusubtype)),
                            },
                        ],
                        Option::None => Seq::empty(),
                    },
                },
            ),
        }
    }
}

/// Appends `v` to `acc` unless a variant with the same identifier is
/// already there.
fn push_dedup(acc: &mut Vec<Variant>, v: Variant)
    ensures
        views_of(final(acc)@) == push_variant(views_of(old(acc)@), v@),
{
    let mut t: usize = 0;
    while t < acc.len()
        invariant
            t <= acc@.len(),
            acc@ == old(acc)@,
            forall|q: int| 0 <= q < t ==> views_of(acc@)[q].identifier != v@.identifier,
        decreases acc@.len() - t,
    {
        if acc[t].identifier == v.identifier {
            proof {
                assert(views_of(acc@)[t as int].identifier == v@.identifier);
                assert(has_id(views_of(acc@), v@.identifier));
            }
            return;
        }
        t = t + 1;
    }
    proof {
        assert(!has_id(views_of(acc@), v@.identifier));
    }
    let ghost pre = views_of(acc@);
    acc.push(v);
    proof {
        assert(views_of(acc@) =~= pre.push(v@));
    }
}

/// Extracts the variant of one fat slice, if its region lies inside the
/// file, parses, and carries an identifier.
fn extract_slice(data: &Vec<u8>, k: u32, fe: bool) -> (r: Option<Variant>)
    requires
        is_fat_sig(data@),
        fe == fat_be(data@),
        8 + 20 * (k as int) + 20 <= data@.len(),
    ensures
        match r {
            Option::Some(v) => slice_variant(data@, k as int) == Option::Some(v@),
            Option::None => slice_variant(data@, k as int) is None,
        },
{
    let n = data.len();
    let base: usize = 8 + 20 * (k as usize);
    let off = read_u32(data, base + 8, fe);
    let size = read_u32(data, base + 12, fe);
    if (off as u64) + (size as u64) > n as u64 {
        return Option::None;
    }
    let start = off as usize;
    let end = start + size as usize;
    let region = parse_region_x(data, start, end);
    proof {
        lemma_region_uuid_len(data@, start as int, end as int);
    }
    match region {
        RegionInfo::Parsed { cputype: _, cpusubtype: _, uuid: Option::Some(u) } => {
            let cputype = read_u32(data, base, fe);
            let cpusubtype = read_u32(data, base + 4, fe);
            let identifier = uuid_string(&u);
            let arch = cpu_name_string(cputype, cpusubtype);
            let v = Variant { identifier, cpu_type: Option::Some(arch) };
            proof {
                assert(slice_variant(data@, k as int) == Option::Some(v@));
            }
            Option::Some(v)
        },
        _ => Option::None,
    }
}

/// Extracts the slice count and variant list of a Mach-O input.
pub fn macho_extract(data: &Vec<u8>) -> (r: Result<(usize, Vec<Variant>), DifError>)
    ensures
        match r {
            Result::Ok(p) => macho_extract_spec(data@) == Result::Ok::<MachOV, DifError>(
                MachOV { n_slices: p.0 as int, variants: views_of(p.1@) },
            ),
            Result::Err(e) => macho_extract_spec(data@) == Result::Err::<MachOV, DifError>(e),
        },
{
    let n = data.len();
    if n >= 4 {
        let m = read_u32(data, 0, true);
        if m == 0xcafebabe || m == 0xbebafeba {
            let fe = m == 0xcafebabe;
            if n < 8 {
                return Result::Err(DifError::TruncatedFile);
            }
            let nfat = read_u32(data, 4, fe);
            if 8u64 + 20u64 * (nfat as u64) > n as u64 {
                return Result::Err(DifError::TruncatedFile);
            }
            let mut acc: Vec<Variant> = Vec::new();
            let mut k: u32 = 0;
            proof {
                assert(views_of(acc@) =~= fat_variants(data@, 0));
            }
            while k < nfat
                invariant
                    k <= nfat,
                    n == data@.len(),
                    is_fat_sig(data@),
                    fe == fat_be(data@),
                    nfat as int == fat_count(data@),
                    8 + 20 * (nfat as int) <= n,
                    views_of(acc@) == fat_variants(data@, k as int),
                decreases nfat - k,
            {
                match extract_slice(data, k, fe) {
                    Option::Some(v) => {
                        push_dedup(&mut acc, v);
                    },
                    Option::None => {},
                }
                k = k + 1;
            }
            return Result::Ok((nfat as usize, acc));
        }
    }
    let region = parse_region_x(data, 0, n);
    proof {
        lemma_region_uuid_len(data@, 0, n as int);
    }
    match region {
        RegionInfo::Malformed => Result::Err(DifError::TruncatedFile),
        RegionInfo::Parsed { cputype, cpusubtype, uuid } => {
            match uuid {
                Option::Some(u) => {
                    let identifier = uuid_string(&u);
                    let arch = cpu_name_string(cputype, cpusubtype);
                    let v = Variant { identifier, cpu_type: Option::Some(arch) };
                    let mut vs: Vec<Variant> = Vec::new();
                    vs.push(v);
                    proof {
                        assert(views_of(vs@) =~= seq![v@]);
                    }
                    Result::Ok((1, vs))
                },
                Option::None => {
                    let vs: Vec<Variant> = Vec::new();
                    proof {
                        assert(views_of(vs@) =~= Seq::<VariantV>::empty());
                    }
                    Result::Ok((1, vs))
                },
            }
        },
    }
}

} // verus!
