use pehunter::arch::ARCH;
use pehunter::batch::{
    any_match, error_reported, evaluate_file, order_by_size_desc, run_batch, FileReport,
    MatchRecord, Query,
};
use pehunter::exports::{export_name_bytes, export_names, read_cstr};
use pehunter::partition::{chunk_size, partition_ranges};
use pehunter::pe::{parse_pe, read_u16, read_u32, Machine, PeError};
use pehunter::query::{
    byte_query, extract_text_section, classify_stomp, export_query, find_byte_pattern, matching_names, name_matches,
    stomp_query, CfgStatus,
};
use pehunter::resolve::{extract_section_bytes, find_text_section, is_text_name, resolve_rva};
use pehunter::scan::{
    has_target_extension, is_pe_extension, is_pe_file, is_target_extension, scan_path, PathKind,
};

const NT: usize = 0x40;
const OPT: usize = NT + 24;

struct Sec {
    name: &'static [u8],
    va: u32,
    vs: u32,
    raw_size: u32,
    raw_ptr: u32,
}

fn put16(b: &mut [u8], off: usize, v: u16) {
    b[off..off + 2].copy_from_slice(&v.to_le_bytes());
}

fn put32(b: &mut [u8], off: usize, v: u32) {
    b[off..off + 4].copy_from_slice(&v.to_le_bytes());
}

/// A 64-bit image with the given header fields and section table.
fn build_image(machine: u16, dll_chars: u16, dirs: &[(usize, u32, u32)], secs: &[Sec], len: usize) -> Vec<u8> {
    let mut b = vec![0u8; len];
    b[0] = b'M';
    b[1] = b'Z';
    put32(&mut b, 60, NT as u32);
    put32(&mut b, NT, 0x4550);
    put16(&mut b, NT + 4, machine);
    put16(&mut b, NT + 6, secs.len() as u16);
    put16(&mut b, NT + 20, 240);
    put16(&mut b, OPT, 0x20b);
    put16(&mut b, OPT + 70, dll_chars);
    for &(idx, va, size) in dirs {
        put32(&mut b, OPT + 112 + 8 * idx, va);
        put32(&mut b, OPT + 112 + 8 * idx + 4, size);
    }
    let table = OPT + 240;
    for (i, s) in secs.iter().enumerate() {
        let o = table + 40 * i;
        b[o..o + s.name.len()].copy_from_slice(s.name);
        put32(&mut b, o + 8, s.vs);
        put32(&mut b, o + 12, s.va);
        put32(&mut b, o + 16, s.raw_size);
        put32(&mut b, o + 20, s.raw_ptr);
    }
    b
}

fn text(vs: u32, raw_ptr: u32, raw_size: u32) -> Sec {
    Sec { name: b".text", va: 0x1000, vs, raw_size, raw_ptr }
}

/// An image exporting `names`, in that order, from one `.rdata` section.
fn export_image(names: &[&[u8]]) -> Vec<u8> {
    let rdata = Sec { name: b".rdata", va: 0x1000, vs: 0x1000, raw_size: 0x200, raw_ptr: 0x200 };
    let mut b = build_image(0x8664, 0, &[(0, 0x1000, 40)], &[rdata], 0x400);
    put32(&mut b, 0x200 + 24, names.len() as u32);
    put32(&mut b, 0x200 + 32, 0x1040);
    for (i, n) in names.iter().enumerate() {
        let name_off = 0x260 + 0x10 * i;
        put32(&mut b, 0x240 + 4 * i, (0x1000 + name_off - 0x200) as u32);
        b[name_off..name_off + n.len()].copy_from_slice(n);
    }
    b
}

#[test]
fn reads_little_endian_fields() {
    let b = [0x34u8, 0x12, 0x78, 0x56];
    assert_eq!(read_u16(&b, 0), 0x1234);
    assert_eq!(read_u32(&b, 0), 0x5678_1234);
}

#[test]
fn reader_round_trips_header_and_sections() {
    let secs = [
        Sec { name: b".text", va: 0x1000, vs: 0x345, raw_size: 0x400, raw_ptr: 0x400 },
        Sec { name: b".rdata\0x", va: 0x2000, vs: 0x120, raw_size: 0x200, raw_ptr: 0x800 },
    ];
    let b = build_image(0x14c, 0x4140, &[(0, 0x2010, 0x50), (14, 0x2100, 0x48)], &secs, 0xa00);
    let img = parse_pe(&b).unwrap();
    assert_eq!(img.header.machine, Machine::X86);
    assert_eq!(img.header.machine_code, 0x14c);
    assert_eq!(img.header.number_of_sections, 2);
    assert_eq!(img.header.size_of_optional_header, 240);
    assert_eq!(img.header.dll_characteristics, 0x4140);
    assert_eq!(img.header.data_directories.len(), 16);
    assert_eq!(img.header.data_directories[0].virtual_address, 0x2010);
    assert_eq!(img.header.data_directories[0].size, 0x50);
    assert_eq!(img.header.data_directories[14].virtual_address, 0x2100);
    assert_eq!(img.sections.len(), 2);
    assert_eq!(&img.sections[0].name, b".text\0\0\0");
    assert_eq!(img.sections[0].virtual_address, 0x1000);
    assert_eq!(img.sections[0].virtual_size, 0x345);
    assert_eq!(img.sections[0].size_of_raw_data, 0x400);
    assert_eq!(img.sections[0].pointer_to_raw_data, 0x400);
    assert_eq!(&img.sections[1].name, b".rdata\0x");
    assert_eq!(img.sections[1].virtual_address, 0x2000);
    assert_eq!(img.sections[1].virtual_size, 0x120);
    assert_eq!(img.sections[1].pointer_to_raw_data, 0x800);
}

#[test]
fn reader_reads_32_bit_directories() {
    let mut b = build_image(0x14c, 0, &[], &[], 0x200);
    put16(&mut b, OPT, 0x10b);
    put16(&mut b, NT + 20, 224);
    put32(&mut b, OPT + 96, 0x3000);
    let img = parse_pe(&b).unwrap();
    assert_eq!(img.header.optional_magic, 0x10b);
    assert_eq!(img.header.data_directories[0].virtual_address, 0x3000);
    assert_eq!(img.sections.len(), 0);
}

#[test]
fn reader_rejects_bad_dos_signature() {
    let mut b = build_image(0x8664, 0, &[], &[], 0x200);
    b[0] = b'N';
    assert_eq!(parse_pe(&b).unwrap_err(), PeError::InvalidFormat);
    assert_eq!(parse_pe(&[b'M', b'Z']).unwrap_err(), PeError::InvalidFormat);
    assert_eq!(parse_pe(&[]).unwrap_err(), PeError::InvalidFormat);
}

#[test]
fn reader_rejects_bad_nt_signature_and_magic() {
    let mut b = build_image(0x8664, 0, &[], &[], 0x200);
    put32(&mut b, NT, 0x4551);
    assert_eq!(parse_pe(&b).unwrap_err(), PeError::InvalidFormat);
    let mut c = build_image(0x8664, 0, &[], &[], 0x200);
    put16(&mut c, OPT, 0x107);
    assert_eq!(parse_pe(&c).unwrap_err(), PeError::InvalidFormat);
}

#[test]
fn reader_reports_truncation() {
    let mut b = build_image(0x8664, 0, &[], &[], 0x200);
    put32(&mut b, 60, 0x1fe);
    assert_eq!(parse_pe(&b).unwrap_err(), PeError::Truncated);
    let secs = [text(0x10, 0, 0)];
    let mut c = build_image(0x8664, 0, &[], &secs, 0x400);
    c.truncate(OPT + 240 + 20);
    assert_eq!(parse_pe(&c).unwrap_err(), PeError::Truncated);
    let d = build_image(0x8664, 0, &[], &[], OPT + 200);
    assert_eq!(parse_pe(&d).unwrap_err(), PeError::Truncated);
}

#[test]
fn resolver_takes_first_overlapping_section() {
    let secs = [
        Sec { name: b"a", va: 0x1000, vs: 0x1000, raw_size: 0, raw_ptr: 0x400 },
        Sec { name: b"b", va: 0x1800, vs: 0x1000, raw_size: 0, raw_ptr: 0x2000 },
    ];
    let b = build_image(0x8664, 0, &[], &secs, 0x400);
    let img = parse_pe(&b).unwrap();
    assert_eq!(resolve_rva(&img.sections, 0x1900), Some((0, 0xd00)));
    assert_eq!(resolve_rva(&img.sections, 0x2100), Some((1, 0x2900)));
    assert_eq!(resolve_rva(&img.sections, 0x1000), Some((0, 0x400)));
    assert_eq!(resolve_rva(&img.sections, 0x2800), None);
    assert_eq!(resolve_rva(&img.sections, 0xfff), None);
}

#[test]
fn text_name_ignores_case_and_needs_padding() {
    assert!(is_text_name(b".text\0\0\0"));
    assert!(is_text_name(b".TEXT\0\0\0"));
    assert!(!is_text_name(b".textbss"));
    assert!(!is_text_name(b".data\0\0\0"));
}

#[test]
fn section_bytes_are_copied_or_truncated() {
    let mut b = build_image(0x8664, 0, &[], &[text(8, 0x300, 4), text(8, 0x3fe, 4), text(8, 0x300, 0)], 0x400);
    b[0x300..0x304].copy_from_slice(&[1, 2, 3, 4]);
    let img = parse_pe(&b).unwrap();
    assert_eq!(find_text_section(&img.sections), Some(0));
    assert_eq!(extract_section_bytes(&b, &img.sections[0]).unwrap(), vec![1, 2, 3, 4]);
    assert_eq!(extract_section_bytes(&b, &img.sections[1]).unwrap_err(), PeError::Truncated);
    assert_eq!(extract_section_bytes(&b, &img.sections[2]).unwrap(), Vec::<u8>::new());
}

#[test]
fn byte_pattern_finds_all_offsets() {
    assert_eq!(find_byte_pattern(b"AABBAABB", b"AABB"), vec![0, 4]);
    assert_eq!(find_byte_pattern(b"AABB", b"AABBAABB"), Vec::<usize>::new());
    assert_eq!(find_byte_pattern(b"AABBAABB", b""), Vec::<usize>::new());
    assert_eq!(find_byte_pattern(b"AAAA", b"AA"), vec![0, 1, 2]);
}

#[test]
fn byte_query_searches_text_section() {
    let mut b = build_image(0x8664, 0, &[], &[text(0x100, 0x300, 8)], 0x400);
    b[0x300..0x308].copy_from_slice(b"AABBAABB");
    let m = byte_query(&b, b"AABB").unwrap().unwrap();
    assert_eq!(m.offsets, vec![0, 4]);
    assert_eq!(m.section_size, 8);
    assert_eq!(m.virtual_address, 0x1000);
    let none = build_image(0x8664, 0, &[], &[], 0x400);
    assert!(byte_query(&none, b"AABB").unwrap().is_none());
}

#[test]
fn export_walker_returns_names_in_order() {
    let b = export_image(&[b"Foo", b"bar"]);
    let img = parse_pe(&b).unwrap();
    assert_eq!(export_names(&b, &img).unwrap(), vec!["Foo".to_string(), "bar".to_string()]);
    let any_case = export_query(&b, "foo", false, ARCH::All).unwrap().unwrap();
    assert_eq!(any_case.names, vec!["Foo".to_string()]);
    let exact = export_query(&b, "Foo", true, ARCH::All).unwrap().unwrap();
    assert_eq!(exact.names, vec!["Foo".to_string()]);
    let wrong_case = export_query(&b, "foo", true, ARCH::All).unwrap().unwrap();
    assert!(wrong_case.names.is_empty());
    assert!(export_query(&b, "Foo", true, ARCH::X86).unwrap().is_none());
}

#[test]
fn export_walker_drops_invalid_utf8() {
    let b = export_image(&[b"ok", &[0xff, 0xfe], b"fine"]);
    let img = parse_pe(&b).unwrap();
    assert_eq!(export_name_bytes(&b, &img).unwrap().len(), 3);
    assert_eq!(export_names(&b, &img).unwrap(), vec!["ok".to_string(), "fine".to_string()]);
}

#[test]
fn export_walker_without_table_is_not_found() {
    let b = build_image(0x8664, 0, &[], &[], 0x400);
    let img = parse_pe(&b).unwrap();
    assert_eq!(export_names(&b, &img).unwrap_err(), PeError::NotFound);
    let mut c = export_image(&[b"Foo"]);
    put32(&mut c, 0x200 + 32, 0x9000);
    let img = parse_pe(&c).unwrap();
    assert_eq!(export_names(&c, &img).unwrap_err(), PeError::NotFound);
    let mut d = export_image(&[b"Foo"]);
    put32(&mut d, 0x200 + 24, 0x1000);
    let img = parse_pe(&d).unwrap();
    assert_eq!(export_names(&d, &img).unwrap_err(), PeError::Truncated);
}

#[test]
fn cstr_needs_terminator() {
    assert_eq!(read_cstr(b"ab\0cd", 0), Some(b"ab".to_vec()));
    assert_eq!(read_cstr(b"ab\0cd", 3), None);
    assert_eq!(read_cstr(b"ab", 7), None);
}

#[test]
fn name_matching_respects_case_flag() {
    assert!(name_matches("GetProcAddress", "procaddr", false));
    assert!(!name_matches("GetProcAddress", "procaddr", true));
    assert!(name_matches("GetProcAddress", "", true));
    let names = vec!["Alpha".to_string(), "beta".to_string(), "ALPHABET".to_string()];
    assert_eq!(matching_names(&names, "alpha", false), vec!["Alpha".to_string(), "ALPHABET".to_string()]);
}

#[test]
fn stomp_classification_by_size_and_cfg() {
    let b = build_image(0x8664, 0, &[], &[text(5000, 0x300, 0)], 0x400);
    let c = stomp_query(&b, 4096, false, ARCH::All).unwrap().unwrap();
    assert_eq!(c.cfg_status, CfgStatus::Disabled);
    assert_eq!(c.section_virtual_size, 5000);
    assert!(!c.is_managed);
    let g = build_image(0x8664, 0x4000, &[], &[text(5000, 0x300, 0)], 0x400);
    assert!(stomp_query(&g, 4096, true, ARCH::All).unwrap().is_none());
    assert_eq!(stomp_query(&g, 4096, false, ARCH::All).unwrap().unwrap().cfg_status, CfgStatus::Enabled);
    assert!(stomp_query(&b, 5001, false, ARCH::All).unwrap().is_none());
    assert!(stomp_query(&b, 5000, false, ARCH::All).unwrap().is_some());
}

#[test]
fn stomp_classification_by_arch_and_managed() {
    let m = build_image(0x14c, 0x4000, &[(14, 0x2000, 0x48)], &[text(100, 0x300, 0)], 0x400);
    let img = parse_pe(&m).unwrap();
    let c = classify_stomp(&img.header, &img.sections[0], 0, false, ARCH::X86).unwrap();
    assert!(c.is_managed);
    assert_eq!(c.machine, Machine::X86);
    assert!(classify_stomp(&img.header, &img.sections[0], 0, false, ARCH::X64).is_none());
    let arm = build_image(0xaa64, 0x4000, &[], &[text(100, 0x300, 0)], 0x400);
    let c = stomp_query(&arm, 0, true, ARCH::All).unwrap().unwrap();
    assert_eq!(c.cfg_status, CfgStatus::Unknown);
    assert_eq!(c.machine, Machine::Unknown);
    assert!(stomp_query(&arm, 0, true, ARCH::X64).unwrap().is_none());
}

#[test]
fn batch_continues_past_malformed_file() {
    let good = build_image(0x8664, 0, &[], &[text(5000, 0x300, 0)], 0x400);
    let mut bad = good.clone();
    bad[0] = 0;
    let files = vec!["bad.dll".to_string(), "missing.dll".to_string(), "good.dll".to_string()];
    let contents = vec![Some(bad), None, Some(good)];
    let q = Query::Stomp { threshold: 4096, cfg_disabled_only: false, arch: ARCH::All };
    let reports = run_batch(&files, &contents, &q);
    assert_eq!(reports.len(), 3);
    assert_eq!(reports[0].file, "bad.dll");
    assert!(matches!(reports[0].outcome, Err(PeError::InvalidFormat)));
    assert!(matches!(reports[1].outcome, Err(PeError::Unreadable)));
    let found: Vec<&FileReport> = reports.iter().filter(|r| matches!(r.outcome, Ok(Some(_)))).collect();
    assert_eq!(found.len(), 1);
    assert_eq!(found[0].file, "good.dll");
    assert!(any_match(&reports));
}

#[test]
fn batch_reports_and_error_policy() {
    let b = build_image(0x8664, 0, &[], &[], 0x400);
    let q = Query::Names { pattern: "x".to_string(), match_case: false, arch: ARCH::All };
    let r = evaluate_file(&"a.dll".to_string(), &Some(b), &q);
    assert!(matches!(r.outcome, Err(PeError::NotFound)));
    assert!(!error_reported(&q, PeError::NotFound));
    assert!(error_reported(&q, PeError::Truncated));
    let bq = Query::Bytes(b"zz".to_vec());
    assert!(error_reported(&bq, PeError::NotFound));
    let mut t = build_image(0x8664, 0, &[], &[text(0x100, 0x300, 4)], 0x400);
    t[0x300..0x304].copy_from_slice(b"abcd");
    let r = evaluate_file(&"t.dll".to_string(), &Some(t), &bq);
    match r.outcome {
        Ok(Some(MatchRecord::Bytes(ref m))) => assert!(m.offsets.is_empty()),
        _ => panic!("expected a byte record"),
    }
    assert!(!any_match(&vec![r]));
}

#[test]
fn partition_covers_each_file_once() {
    let t: usize = 4;
    for n in [0usize, 1, t - 1, t, t + 1, 10 * t] {
        let ranges = partition_ranges(n, t);
        assert_eq!(ranges.len(), t);
        let mut seen = Vec::new();
        for (s, e) in &ranges {
            assert!(s <= e);
            seen.extend(*s..*e);
        }
        assert_eq!(seen, (0..n).collect::<Vec<usize>>());
    }
    assert_eq!(chunk_size(41, 4), 11);
    assert_eq!(partition_ranges(5, 4), vec![(0, 2), (2, 4), (4, 5), (5, 5)]);
}

#[test]
fn sizes_are_ordered_largest_first() {
    assert_eq!(order_by_size_desc(&vec![10, 30, 20, 30]), vec![1, 3, 2, 0]);
    assert_eq!(order_by_size_desc(&vec![]), Vec::<usize>::new());
}

#[test]
fn arch_names_parse_in_any_case() {
    assert_eq!(ARCH::parse("X64"), Ok(ARCH::X64));
    assert_eq!("x86".parse::<ARCH>(), Ok(ARCH::X86));
    assert_eq!(ARCH::parse("All"), Ok(ARCH::All));
    assert_eq!(ARCH::parse("arm"), Err("Invalid arch: arm".to_string()));
}

#[test]
fn target_extensions() {
    assert!(has_target_extension("C:/Windows/System32/KERNEL32.DLL", false));
    assert!(!has_target_extension("notepad.exe", false));
    assert!(has_target_extension("notepad.EXE", true));
    assert!(has_target_extension("desk.cpl", true));
    assert!(!has_target_extension("readme.txt", true));
    assert!(!has_target_extension("dll", true));
    assert!(is_pe_file("a/b.Exe"));
    assert!(is_pe_file("a/b.dll"));
    assert!(!is_pe_file("a/b.cpl"));
}

#[test]
fn scan_path_by_kind() {
    let listing = vec!["d/a.dll".to_string(), "d/b.exe".to_string(), "d/c.txt".to_string()];
    assert_eq!(scan_path("x.txt", PathKind::File, &listing, false), vec!["x.txt".to_string()]);
    assert_eq!(scan_path("d", PathKind::Directory, &listing, false), vec!["d/a.dll".to_string()]);
    assert_eq!(
        scan_path("d", PathKind::Directory, &listing, true),
        vec!["d/a.dll".to_string(), "d/b.exe".to_string()]
    );
    assert!(scan_path("nowhere", PathKind::Other, &listing, true).is_empty());
}

#[test]
fn zero_length_section_past_end_is_empty() {
    let b = build_image(0x8664, 0, &[], &[text(0x100, 0x5000, 0)], 0x400);
    let img = parse_pe(&b).unwrap();
    assert_eq!(extract_section_bytes(&b, &img.sections[0]).unwrap(), Vec::<u8>::new());
    let t = extract_text_section(&b).unwrap().unwrap();
    assert!(t.data.is_empty());
    assert_eq!(t.size, 0);
    assert_eq!(t.virtual_address, 0x1000);
    let m = byte_query(&b, b"AA").unwrap().unwrap();
    assert!(m.offsets.is_empty());
}

#[test]
fn text_section_bytes_round_trip() {
    let secs = [
        Sec { name: b".data", va: 0x1000, vs: 0x10, raw_size: 4, raw_ptr: 0x300 },
        Sec { name: b".text", va: 0x2000, vs: 0x10, raw_size: 6, raw_ptr: 0x380 },
        Sec { name: b".text", va: 0x3000, vs: 0x10, raw_size: 2, raw_ptr: 0x3a0 },
    ];
    let mut b = build_image(0x14c, 0, &[], &secs, 0x400);
    b[0x380..0x386].copy_from_slice(b"\x90\x90\xc3abc");
    let t = extract_text_section(&b).unwrap().unwrap();
    assert_eq!(t.data, b"\x90\x90\xc3abc".to_vec());
    assert_eq!(t.virtual_address, 0x2000);
    assert_eq!(t.size, 6);
    let none = build_image(0x14c, 0, &[], &secs[..1], 0x400);
    assert!(extract_text_section(&none).unwrap().is_none());
    let mut hidden = build_image(0x14c, 0, &[], &secs, 0x400);
    put16(&mut hidden, NT + 6, 1);
    assert!(extract_text_section(&hidden).unwrap().is_none());
    let mut past = build_image(0x14c, 0, &[], &[text(0x10, 0x3fe, 4)], 0x400);
    past.truncate(0x400);
    assert_eq!(extract_text_section(&past).unwrap_err(), PeError::Truncated);
}

#[test]
fn lower_cased_extensions() {
    assert!(is_target_extension("dll", false));
    assert!(!is_target_extension("DLL", false));
    assert!(!is_target_extension("exe", false));
    assert!(is_target_extension("exe", true));
    assert!(is_target_extension("cpl", true));
    assert!(!is_target_extension("sys", true));
    assert!(is_pe_extension("exe"));
    assert!(is_pe_extension("dll"));
    assert!(!is_pe_extension("cpl"));
}

#[test]
fn arch_from_lower_names() {
    assert_eq!(ARCH::arch_from_lower("x64"), Some(ARCH::X64));
    assert_eq!(ARCH::arch_from_lower("x86"), Some(ARCH::X86));
    assert_eq!(ARCH::arch_from_lower("all"), Some(ARCH::All));
    assert_eq!(ARCH::arch_from_lower("X64"), None);
    assert_eq!(ARCH::arch_from_lower(""), None);
}

#[test]
fn name_batch_continues_past_malformed_file() {
    let good = export_image(&[b"Foo", b"bar"]);
    let mut bad = good.clone();
    bad[1] = b'Y';
    let files = vec!["m.dll".to_string(), "v.dll".to_string()];
    let contents = vec![Some(bad), Some(good)];
    let q = Query::Names { pattern: "foo".to_string(), match_case: false, arch: ARCH::All };
    let reports = run_batch(&files, &contents, &q);
    assert_eq!(reports.len(), 2);
    assert!(matches!(reports[0].outcome, Err(PeError::InvalidFormat)));
    match &reports[1].outcome {
        Ok(Some(MatchRecord::Exports(e))) => assert_eq!(e.names, vec!["Foo".to_string()]),
        _ => panic!("expected an export record"),
    }
    assert!(any_match(&reports));
}
