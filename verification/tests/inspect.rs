use difcheck::record::DifRecord;
use difcheck::{DifError, DifFile, Format};

fn be32(v: &mut Vec<u8>, x: u32) {
    v.extend_from_slice(&x.to_be_bytes());
}

fn le32(v: &mut Vec<u8>, x: u32) {
    v.extend_from_slice(&x.to_le_bytes());
}

/// A minimal 32-bit big-endian thin Mach-O file with the given cpu pair and
/// an optional identifier load command.
fn thin_be32(cputype: u32, cpusubtype: u32, uuid: Option<[u8; 16]>) -> Vec<u8> {
    let mut v = Vec::new();
    be32(&mut v, 0xfeedface);
    be32(&mut v, cputype);
    be32(&mut v, cpusubtype);
    be32(&mut v, 10); // filetype
    match uuid {
        Some(_) => {
            be32(&mut v, 1); // ncmds
            be32(&mut v, 24); // sizeofcmds
        }
        None => {
            be32(&mut v, 0);
            be32(&mut v, 0);
        }
    }
    be32(&mut v, 0); // flags
    if let Some(u) = uuid {
        be32(&mut v, 0x1b); // the identifier load command
        be32(&mut v, 24);
        v.extend_from_slice(&u);
    }
    v
}

/// A minimal 64-bit little-endian thin Mach-O file.
fn thin_le64(cputype: u32, cpusubtype: u32, uuid: [u8; 16]) -> Vec<u8> {
    let mut v = Vec::new();
    le32(&mut v, 0xfeedfacf);
    le32(&mut v, cputype);
    le32(&mut v, cpusubtype);
    le32(&mut v, 10);
    le32(&mut v, 1);
    le32(&mut v, 24);
    le32(&mut v, 0); // flags
    le32(&mut v, 0); // reserved
    le32(&mut v, 0x1b);
    le32(&mut v, 24);
    v.extend_from_slice(&uuid);
    v
}

/// A fat container holding the given slices, each with its declared cpu
/// pair and body.
fn fat(slices: &[(u32, u32, Vec<u8>)]) -> Vec<u8> {
    let mut v = Vec::new();
    be32(&mut v, 0xcafebabe);
    be32(&mut v, slices.len() as u32);
    let mut off = 8 + 20 * slices.len();
    for (ct, st, body) in slices {
        be32(&mut v, *ct);
        be32(&mut v, *st);
        be32(&mut v, off as u32);
        be32(&mut v, body.len() as u32);
        be32(&mut v, 0); // alignment
        off += body.len();
    }
    for (_, _, body) in slices {
        v.extend_from_slice(body);
    }
    v
}

const UUID_A: [u8; 16] = [
    0x01, 0x02, 0x03, 0x04, 0x05, 0x06, 0x07, 0x08, 0x09, 0x0a, 0x0b, 0x0c, 0x0d, 0x0e, 0x0f,
    0x10,
];
const UUID_B: [u8; 16] = [
    0xaa, 0xbb, 0xcc, 0xdd, 0xee, 0xff, 0x11, 0x22, 0x33, 0x44, 0x55, 0x66, 0x77, 0x88, 0x99,
    0x00,
];

const UUID_A_STR: &str = "01020304-0506-0708-090a-0b0c0d0e0f10";
const UUID_B_STR: &str = "aabbccdd-eeff-1122-3344-556677889900";

#[test]
fn thin_macho_single_variant() {
    let data = thin_be32(7, 3, Some(UUID_A));
    let f = DifFile::from_bytes(&data, None).unwrap();
    assert_eq!(f.format(), Format::MachODsym);
    assert_eq!(f.variants().len(), 1);
    assert_eq!(f.variants()[0].identifier, UUID_A_STR);
    assert_eq!(f.variants()[0].cpu_type.as_deref(), Some("x86"));
    assert!(f.note().is_none());
    assert!(f.problem().is_none());
    assert!(f.is_usable());
}

#[test]
fn thin_macho_little_endian_arm64() {
    let data = thin_le64(0x0100000c, 0, UUID_B);
    let f = DifFile::from_bytes(&data, None).unwrap();
    assert_eq!(f.variants().len(), 1);
    assert_eq!(f.variants()[0].identifier, UUID_B_STR);
    assert_eq!(f.variants()[0].cpu_type.as_deref(), Some("arm64"));
    assert!(f.is_usable());
}

#[test]
fn fat_macho_two_slices_in_order() {
    let s1 = thin_be32(7, 3, Some(UUID_A));
    let s2 = thin_be32(0x0100000c, 0, Some(UUID_B));
    let data = fat(&[(7, 3, s1), (0x0100000c, 0, s2)]);
    let f = DifFile::from_bytes(&data, None).unwrap();
    assert_eq!(f.format(), Format::MachODsym);
    assert_eq!(f.variants().len(), 2);
    assert_eq!(f.variants()[0].identifier, UUID_A_STR);
    assert_eq!(f.variants()[0].cpu_type.as_deref(), Some("x86"));
    assert_eq!(f.variants()[1].identifier, UUID_B_STR);
    assert_eq!(f.variants()[1].cpu_type.as_deref(), Some("arm64"));
    assert!(f.note().is_none());
    assert!(f.is_usable());
}

#[test]
fn fat_macho_second_slice_without_identifier() {
    let s1 = thin_be32(7, 3, Some(UUID_A));
    let s2 = thin_be32(0x0100000c, 0, None);
    let data = fat(&[(7, 3, s1), (0x0100000c, 0, s2)]);
    let f = DifFile::from_bytes(&data, None).unwrap();
    assert_eq!(f.variants().len(), 1);
    assert_eq!(f.variants()[0].identifier, UUID_A_STR);
    assert_eq!(
        f.note().as_deref(),
        Some("incomplete architecture coverage")
    );
    assert!(f.problem().is_none());
    assert!(f.is_usable());
}

#[test]
fn thin_macho_without_identifier_is_unusable() {
    let data = thin_be32(7, 3, None);
    let f = DifFile::from_bytes(&data, None).unwrap();
    assert_eq!(f.variants().len(), 0);
    assert_eq!(f.problem().as_deref(), Some("missing debug identifiers"));
    assert!(!f.is_usable());
}

#[test]
fn fat_macho_no_identifiers_is_unusable() {
    let s1 = thin_be32(7, 3, None);
    let s2 = thin_be32(0x0100000c, 0, None);
    let data = fat(&[(7, 3, s1), (0x0100000c, 0, s2)]);
    let f = DifFile::from_bytes(&data, None).unwrap();
    assert_eq!(f.variants().len(), 0);
    assert_eq!(f.problem().as_deref(), Some("missing debug identifiers"));
    assert!(!f.is_usable());
}

#[test]
fn fat_macho_duplicate_identifiers_collapse() {
    let s1 = thin_be32(7, 3, Some(UUID_A));
    let s2 = thin_be32(0x0100000c, 0, Some(UUID_A));
    let data = fat(&[(7, 3, s1), (0x0100000c, 0, s2)]);
    let f = DifFile::from_bytes(&data, None).unwrap();
    assert_eq!(f.variants().len(), 1);
    assert_eq!(f.variants()[0].identifier, UUID_A_STR);
    assert_eq!(
        f.note().as_deref(),
        Some("incomplete architecture coverage")
    );
    assert!(f.is_usable());
}

#[test]
fn fat_macho_zero_slices_has_no_usable_information() {
    let data = fat(&[]);
    let f = DifFile::from_bytes(&data, None).unwrap();
    assert_eq!(f.variants().len(), 0);
    assert_eq!(
        f.problem().as_deref(),
        Some("no usable debug information found")
    );
    assert!(!f.is_usable());
}

#[test]
fn truncated_thin_macho() {
    let mut data = Vec::new();
    be32(&mut data, 0xfeedface);
    assert_eq!(
        DifFile::from_bytes(&data, None).unwrap_err(),
        DifError::TruncatedFile
    );
}

#[test]
fn truncated_fat_table() {
    let mut data = Vec::new();
    be32(&mut data, 0xcafebabe);
    be32(&mut data, 1000);
    assert_eq!(
        DifFile::from_bytes(&data, None).unwrap_err(),
        DifError::TruncatedFile
    );
}

#[test]
fn proguard_hash_is_deterministic_and_usable() {
    let data: Vec<u8> =
        b"# compiler: R8\ncom.example.MainActivity -> a.b:\n    void onCreate() -> a\n".to_vec();
    let f1 = DifFile::from_bytes(&data, None).unwrap();
    let f2 = DifFile::from_bytes(&data, None).unwrap();
    assert_eq!(f1.format(), Format::Proguard);
    assert_eq!(f1.variants().len(), 1);
    assert_eq!(f1.variants()[0].identifier, "10be0a1a51e3b1a4");
    assert_eq!(f1.variants()[0].identifier, f2.variants()[0].identifier);
    assert!(f1.variants()[0].cpu_type.is_none());
    assert!(f1.is_usable());
    assert!(f2.is_usable());
}

#[test]
fn proguard_hint_accepts_mapping_file() {
    let data: Vec<u8> = b"com.example.Foo -> a.a:\n".to_vec();
    let f = DifFile::from_bytes(&data, Some(Format::Proguard)).unwrap();
    assert_eq!(f.format(), Format::Proguard);
    assert!(f.is_usable());
}

#[test]
fn breakpad_module_line_parses() {
    let data: Vec<u8> =
        b"MODULE Linux x86_64 B1C2D3E4F5061728 app.so\nINFO CODE_ID 1122\n".to_vec();
    let f = DifFile::from_bytes(&data, None).unwrap();
    assert_eq!(f.format(), Format::Breakpad);
    assert_eq!(f.variants().len(), 1);
    assert_eq!(f.variants()[0].identifier, "B1C2D3E4F5061728");
    assert_eq!(f.variants()[0].cpu_type.as_deref(), Some("x86_64"));
    assert!(f.note().is_none());
    assert!(f.problem().is_none());
    assert!(f.is_usable());
}

#[test]
fn breakpad_four_tokens_is_malformed() {
    let data: Vec<u8> = b"MODULE Linux x86_64 B1C2D3E4F5061728\nFUNC 0\n".to_vec();
    assert_eq!(
        DifFile::from_bytes(&data, None).unwrap_err(),
        DifError::MalformedHeader
    );
}

#[test]
fn breakpad_empty_token_is_malformed() {
    let data: Vec<u8> = b"MODULE  x86_64 B1C2D3E4F5061728 app.so\n".to_vec();
    assert_eq!(
        DifFile::from_bytes(&data, None).unwrap_err(),
        DifError::MalformedHeader
    );
}

#[test]
fn breakpad_zero_identifier_is_degenerate() {
    let data: Vec<u8> = b"MODULE Linux x86_64 0000000000 app.so\n".to_vec();
    let f = DifFile::from_bytes(&data, None).unwrap();
    assert_eq!(f.problem().as_deref(), Some("degenerate identifier"));
    assert!(!f.is_usable());
}

#[test]
fn unknown_format_is_rejected() {
    let data: Vec<u8> = b"hello world".to_vec();
    assert_eq!(
        DifFile::from_bytes(&data, None).unwrap_err(),
        DifError::UnknownFormat
    );
}

#[test]
fn wrong_hint_for_macho_is_a_mismatch() {
    let data = thin_be32(7, 3, Some(UUID_A));
    assert_eq!(
        DifFile::from_bytes(&data, Some(Format::Proguard)).unwrap_err(),
        DifError::FormatMismatch
    );
    assert_eq!(
        DifFile::from_bytes(&data, Some(Format::Breakpad)).unwrap_err(),
        DifError::FormatMismatch
    );
    let f = DifFile::from_bytes(&data, Some(Format::MachODsym)).unwrap();
    assert!(f.is_usable());
}

#[test]
fn oversized_input_is_refused() {
    let data = vec![0u8; difcheck::MAX_DIF_SIZE + 1];
    assert_eq!(
        DifFile::from_bytes(&data, None).unwrap_err(),
        DifError::FileTooLarge
    );
}

#[test]
fn record_round_trip_preserves_everything() {
    let s1 = thin_be32(7, 3, Some(UUID_A));
    let s2 = thin_be32(0x0100000c, 0, None);
    let data = fat(&[(7, 3, s1), (0x0100000c, 0, s2)]);
    let f = DifFile::from_bytes(&data, None).unwrap();
    let rec = f.to_record();
    assert_eq!(rec.ty, "dsym");
    assert_eq!(rec.variants.len(), 1);
    assert_eq!(rec.variants[0].identifier, UUID_A_STR);
    assert_eq!(rec.note.as_deref(), Some("incomplete architecture coverage"));
    assert!(rec.problem.is_none());
    let back = DifFile::from_record(rec).unwrap();
    assert_eq!(back.format(), f.format());
    assert_eq!(back.variants().len(), f.variants().len());
    assert_eq!(back.variants()[0].identifier, f.variants()[0].identifier);
    assert_eq!(back.variants()[0].cpu_type, f.variants()[0].cpu_type);
    assert_eq!(back.note(), f.note());
    assert_eq!(back.problem(), f.problem());
}

#[test]
fn record_with_unknown_tag_is_rejected() {
    let rec = DifRecord {
        ty: String::from("elf"),
        variants: Vec::new(),
        note: None,
        problem: None,
    };
    assert!(DifFile::from_record(rec).is_none());
}
