//! The three queries run on one image: byte pattern in `.text`, stomp
//! candidates by `.text` size and CFG, and export names by substring.

use vstd::prelude::*;
use crate::arch::ARCH;
use crate::exports::{export_names, export_names_spec, present, string_views};
use crate::pe::{
    Machine, PeError, PeHeaderInfo, PeHeaderView, SectionHeader, SectionView, le32,
    lemma_section_count, lemma_section_record, parse_pe, parse_spec, section_table_start,
};
use crate::resolve::{
    extract_section_bytes, find_text_section, first_text, is_text_name_spec, lemma_first_text, section_bytes_spec,
};
use crate::text::{chars_of, contains_chars, contains_seq, lower_of, lowercase, occurs_at};

verus! {

/// Whether a non-empty `needle` starts at offset `i` of `hay`.
pub open spec fn pattern_at(hay: Seq<u8>, needle: Seq<u8>, i: int) -> bool {
    needle.len() > 0 && occurs_at(hay, needle, i)
}

/// `offsets` lists, in increasing order, every offset at which `needle` occurs
/// in `hay`, overlapping occurrences included.
pub open spec fn all_offsets(hay: Seq<u8>, needle: Seq<u8>, offsets: Seq<usize>) -> bool {
    &&& forall|k: int| 0 <= k < offsets.len() ==> pattern_at(hay, needle, #[trigger] offsets[k] as int)
    &&& forall|k: int, l: int| 0 <= k < l < offsets.len() ==> offsets[k] < offsets[l]
    &&& forall|i: int| pattern_at(hay, needle, i) ==> exists|k: int|
        0 <= k < offsets.len() && #[trigger] offsets[k] == i
}

fn bytes_match_at(hay: &[u8], needle: &[u8], i: usize) -> (r: bool)
    requires
        i + needle@.len() <= hay@.len() <= usize::MAX,
    ensures
        r == occurs_at(hay@, needle@, i as int),
{
    let mut k: usize = 0;
    while k < needle.len()
        invariant
            k <= needle@.len(),
            i + needle@.len() <= hay@.len() <= usize::MAX,
            forall|j: int| 0 <= j < k ==> hay@[i + j] == needle@[j],
        decreases needle@.len() - k,
    {
        if hay[i + k] != needle[k] {
            assert(hay@.subrange(i as int, i + needle@.len())[k as int] != needle@[k as int]);
            return false;
        }
        k = k + 1;
    }
    assert(hay@.subrange(i as int, i + needle@.len()) =~= needle@);
    true
}

/// Every offset at which `needle` occurs in `haystack`, in increasing order and
/// overlapping occurrences included. An empty needle, or one longer than the
/// haystack, gives no offsets.
pub fn find_byte_pattern(haystack: &[u8], needle: &[u8]) -> (r: Vec<usize>)
    ensures
        all_offsets(haystack@, needle@, r@),
{
    let mut matches: Vec<usize> = Vec::new();
    if needle.len() == 0 || haystack.len() < needle.len() {
        return matches;
    }
    let last = haystack.len() - needle.len();
    let mut i: usize = 0;
    loop
        invariant
            i <= last,
            needle@.len() > 0,
            last + needle@.len() == haystack@.len() <= usize::MAX,
            forall|k: int| 0 <= k < matches@.len() ==> pattern_at(haystack@, needle@, #[trigger] matches@[k] as int),
            forall|k: int| 0 <= k < matches@.len() ==> #[trigger] matches@[k] < i,
            forall|k: int, l: int| 0 <= k < l < matches@.len() ==> matches@[k] < matches@[l],
            forall|j: int| 0 <= j < i && pattern_at(haystack@, needle@, j) ==> exists|k: int|
                0 <= k < matches@.len() && #[trigger] matches@[k] == j,
        decreases last - i,
    {
        if bytes_match_at(haystack, needle, i) {
            let ghost prev = matches@;
            matches.push(i);
            proof {
                assert forall|j: int| 0 <= j <= i && pattern_at(haystack@, needle@, j) implies exists|k: int|
                    0 <= k < matches@.len() && #[trigger] matches@[k] == j by {
                    if j < i {
                        let k = choose|k: int| 0 <= k < prev.len() && #[trigger] prev[k] == j;
                        assert(matches@[k] == j);
                    } else {
                        assert(matches@[prev.len() as int] == j);
                    }
                }
            }
        }
        if i == last {
            return matches;
        }
        i = i + 1;
    }
}

/// Matches of a byte pattern in an image's `.text` section.
#[derive(Debug)]
pub struct ByteMatches {
    /// `size_of_raw_data` of the section that was searched.
    pub section_size: u32,
    /// The section's virtual address: an offset plus this is the match's RVA.
    pub virtual_address: u32,
    /// Offsets of the matches within the section's raw bytes.
    pub offsets: Vec<usize>,
}

/// What searching image `b` for `pattern` is owed: an error where the image
/// does not parse or its `.text` bytes run past the end, `None` where it has
/// no `.text` section, and otherwise a record of that section's matches.
pub open spec fn byte_query_ok(b: Seq<u8>, pattern: Seq<u8>, r: Result<Option<ByteMatches>, PeError>) -> bool {
    match parse_spec(b) {
        Err(e) => r == Err::<Option<ByteMatches>, PeError>(e),
        Ok(img) => match first_text(img.sections) {
            None => r == Ok::<Option<ByteMatches>, PeError>(None),
            Some(i) => match section_bytes_spec(b, img.sections[i]) {
                Err(e) => r == Err::<Option<ByteMatches>, PeError>(e),
                Ok(data) => match r {
                    Ok(Some(m)) => {
                        &&& m.section_size == img.sections[i].size_of_raw_data
                        &&& m.virtual_address == img.sections[i].virtual_address
                        &&& all_offsets(data, pattern, m.offsets@)
                    },
                    _ => false,
                },
            },
        },
    }
}

/// The raw bytes of an image's `.text` section, with its virtual address and raw size.
#[derive(Debug)]
pub struct TextSection {
    pub data: Vec<u8>,
    pub virtual_address: u32,
    pub size: u32,
}

/// What reading the `.text` section of image `b` is owed: the parse error,
/// `None` without a `.text` section, the error of reading its bytes, or the
/// first `.text` section's bytes, virtual address and raw size.
pub open spec fn text_section_ok(b: Seq<u8>, r: Result<Option<TextSection>, PeError>) -> bool {
    match parse_spec(b) {
        Err(e) => r == Err::<Option<TextSection>, PeError>(e),
        Ok(img) => match first_text(img.sections) {
            None => r == Ok::<Option<TextSection>, PeError>(None),
            Some(i) => match section_bytes_spec(b, img.sections[i]) {
                Err(e) => r == Err::<Option<TextSection>, PeError>(e),
                Ok(data) => match r {
                    Ok(Some(t)) => {
                        &&& t.data@ == data
                        &&& t.virtual_address == img.sections[i].virtual_address
                        &&& t.size == img.sections[i].size_of_raw_data
                    },
                    _ => false,
                },
            },
        },
    }
}

/// Reads the first `.text` section of the image `b`.
pub fn extract_text_section(b: &[u8]) -> (r: Result<Option<TextSection>, PeError>)
    ensures
        text_section_ok(b@, r),
{
    let img = match parse_pe(b) {
        Ok(img) => img,
        Err(e) => return Err(e),
    };
    let i = match find_text_section(&img.sections) {
        Some(i) => i,
        None => return Ok(None),
    };
    let s = &img.sections[i];
    assert(img@.sections[i as int] == s@);
    let data = match extract_section_bytes(b, s) {
        Ok(d) => d,
        Err(e) => return Err(e),
    };
    Ok(Some(TextSection { data, virtual_address: s.virtual_address, size: s.size_of_raw_data }))
}

/// Reading the `.text` section reproduces the buffer: the section is the
/// first record, among the declared number of 40-byte records of the section
/// table, whose name field reads `.text`; its bytes are the
/// `size_of_raw_data` bytes at `pointer_to_raw_data`, empty when that size is
/// zero, and `Truncated` when they run past the end.
pub proof fn lemma_text_section_round_trip(b: Seq<u8>)
    requires
        parse_spec(b) is Ok,
    ensures
        ({
            let img = parse_spec(b)->Ok_0;
            let table = section_table_start(b);
            let n = img.header.number_of_sections as int;
            match first_text(img.sections) {
                None => forall|j: int|
                    0 <= j < n ==> !is_text_name_spec(
                        #[trigger] b.subrange(table + 40 * j, table + 40 * j + 8),
                    ),
                Some(i) => {
                    let o = table + 40 * i;
                    let raw = le32(b, o + 16) as int;
                    let ptr = le32(b, o + 20) as int;
                    &&& 0 <= i < n
                    &&& is_text_name_spec(b.subrange(o, o + 8))
                    &&& forall|j: int|
                        0 <= j < i ==> !is_text_name_spec(
                            #[trigger] b.subrange(table + 40 * j, table + 40 * j + 8),
                        )
                    &&& img.sections[i].virtual_address == le32(b, o + 12)
                    &&& img.sections[i].size_of_raw_data == le32(b, o + 16)
                    &&& section_bytes_spec(b, img.sections[i]) == if raw == 0 {
                        Ok::<Seq<u8>, PeError>(Seq::empty())
                    } else if ptr + raw <= b.len() {
                        Ok::<Seq<u8>, PeError>(b.subrange(ptr, ptr + raw))
                    } else {
                        Err::<Seq<u8>, PeError>(PeError::Truncated)
                    }
                },
            }
        }),
{
    let img = parse_spec(b)->Ok_0;
    let table = section_table_start(b);
    let n = img.header.number_of_sections as int;
    lemma_section_count(b);
    assert forall|j: int| 0 <= j < n implies #[trigger] b.subrange(table + 40 * j, table + 40 * j + 8)
        == img.sections[j].name by {
        lemma_section_record(b, j);
    }
    match first_text(img.sections) {
        None => {},
        Some(i) => {
            let w = choose|w: int| 0 <= w < img.sections.len() && is_text_name_spec(img.sections[w].name);
            lemma_first_text(img.sections, w);
            lemma_section_record(b, i);
        },
    }
}

/// Searches the `.text` section of the image `b` for `pattern`.
pub fn byte_query(b: &[u8], pattern: &[u8]) -> (r: Result<Option<ByteMatches>, PeError>)
    ensures
        byte_query_ok(b@, pattern@, r),
{
    let t = match extract_text_section(b) {
        Ok(Some(t)) => t,
        Ok(None) => return Ok(None),
        Err(e) => return Err(e),
    };
    let offsets = find_byte_pattern(t.data.as_slice(), pattern);
    Ok(Some(ByteMatches { section_size: t.size, virtual_address: t.virtual_address, offsets }))
}


/// The `IMAGE_DLLCHARACTERISTICS_GUARD_CF` bit of `dll_characteristics`.
pub const GUARD_CF: u16 = 0x4000;
/// Index of the COM-descriptor (CLR header) entry among the data directories.
pub const COM_DESCRIPTOR_INDEX: usize = 14;

/// Control Flow Guard status of an image.
#[derive(Clone, Copy, Debug, PartialEq, Eq, Structural)]
pub enum CfgStatus {
    Enabled,
    Disabled,
    Unknown,
}

/// A `.text` section large enough to stomp, with what a caller reports of its image.
#[derive(Clone, Copy, Debug, PartialEq, Eq, Structural)]
pub struct StompCandidate {
    pub machine: Machine,
    pub is_managed: bool,
    pub cfg_status: CfgStatus,
    pub section_virtual_size: u32,
}

/// An image is managed when its COM-descriptor directory has a non-zero RVA.
pub open spec fn is_managed_spec(h: PeHeaderView) -> bool {
    h.data_directories.len() > 14 && h.data_directories[14].virtual_address != 0
}

/// CFG status: unknown for machines other than x86 and x64, else the guard bit.
pub open spec fn cfg_status_spec(h: PeHeaderView) -> CfgStatus {
    if h.machine == Machine::Unknown {
        CfgStatus::Unknown
    } else if h.dll_characteristics & GUARD_CF != 0 {
        CfgStatus::Enabled
    } else {
        CfgStatus::Disabled
    }
}

/// Whether the filter `arch` lets an image of machine `m` through.
pub open spec fn arch_admits(arch: ARCH, m: Machine) -> bool {
    match arch {
        ARCH::All => true,
        ARCH::X86 => m == Machine::X86,
        ARCH::X64 => m == Machine::X64,
    }
}

/// The stomp verdict on section `s` of an image with header `h`.
pub open spec fn stomp_spec(
    h: PeHeaderView,
    s: SectionView,
    threshold: u64,
    cfg_disabled_only: bool,
    arch: ARCH,
) -> Option<StompCandidate> {
    if s.virtual_size >= threshold && arch_admits(arch, h.machine) && !(cfg_disabled_only
        && cfg_status_spec(h) == CfgStatus::Enabled) {
        Some(
            StompCandidate {
                machine: h.machine,
                is_managed: is_managed_spec(h),
                cfg_status: cfg_status_spec(h),
                section_virtual_size: s.virtual_size,
            },
        )
    } else {
        None
    }
}

/// Whether the image's COM-descriptor directory is present.
pub fn is_managed(h: &PeHeaderInfo) -> (r: bool)
    ensures
        r == is_managed_spec(h@),
{
    h.data_directories.len() > COM_DESCRIPTOR_INDEX
        && h.data_directories[COM_DESCRIPTOR_INDEX].virtual_address != 0
}

/// The image's Control Flow Guard status.
pub fn cfg_status(h: &PeHeaderInfo) -> (r: CfgStatus)
    ensures
        r == cfg_status_spec(h@),
{
    if h.machine == Machine::Unknown {
        CfgStatus::Unknown
    } else if h.dll_characteristics & GUARD_CF != 0 {
        CfgStatus::Enabled
    } else {
        CfgStatus::Disabled
    }
}

/// Whether the filter `arch` lets an image of machine `m` through.
pub fn arch_matches(arch: ARCH, m: Machine) -> (r: bool)
    ensures
        r == arch_admits(arch, m),
{
    match arch {
        ARCH::All => true,
        ARCH::X86 => m == Machine::X86,
        ARCH::X64 => m == Machine::X64,
    }
}

/// Classifies section `s`: reported when its virtual size is at least
/// `threshold`, the machine passes `arch`, and CFG is not enabled where only
/// CFG-disabled images are wanted.
pub fn classify_stomp(
    h: &PeHeaderInfo,
    s: &SectionHeader,
    threshold: u64,
    cfg_disabled_only: bool,
    arch: ARCH,
) -> (r: Option<StompCandidate>)
    ensures
        r == stomp_spec(h@, s@, threshold, cfg_disabled_only, arch),
{
    let cfg = cfg_status(h);
    if s.virtual_size as u64 >= threshold && arch_matches(arch, h.machine) && !(cfg_disabled_only
        && cfg == CfgStatus::Enabled) {
        Some(
            StompCandidate {
                machine: h.machine,
                is_managed: is_managed(h),
                cfg_status: cfg,
                section_virtual_size: s.virtual_size,
            },
        )
    } else {
        None
    }
}

/// What the stomp query on image `b` gives: the parse error, `None` without a
/// `.text` section, else the verdict on the first `.text` section.
pub open spec fn stomp_query_spec(b: Seq<u8>, threshold: u64, cfg_disabled_only: bool, arch: ARCH) -> Result<
    Option<StompCandidate>,
    PeError,
> {
    match parse_spec(b) {
        Err(e) => Err(e),
        Ok(img) => match first_text(img.sections) {
            None => Ok(None),
            Some(i) => Ok(stomp_spec(img.header, img.sections[i], threshold, cfg_disabled_only, arch)),
        },
    }
}

/// Runs the stomp-candidate query on the image `b`.
pub fn stomp_query(b: &[u8], threshold: u64, cfg_disabled_only: bool, arch: ARCH) -> (r: Result<
    Option<StompCandidate>,
    PeError,
>)
    ensures
        r == stomp_query_spec(b@, threshold, cfg_disabled_only, arch),
{
    let img = match parse_pe(b) {
        Ok(img) => img,
        Err(e) => return Err(e),
    };
    match find_text_section(&img.sections) {
        None => Ok(None),
        Some(i) => {
            assert(img@.sections[i as int] == img.sections@[i as int]@);
            Ok(classify_stomp(&img.header, &img.sections[i], threshold, cfg_disabled_only, arch))
        },
    }
}

/// Whether `name` contains `pattern`, as typed or after lower-casing both.
pub open spec fn name_matches_spec(name: Seq<char>, pattern: Seq<char>, match_case: bool) -> bool {
    if match_case {
        contains_seq(name, pattern)
    } else {
        contains_seq(lower_of(name), lower_of(pattern))
    }
}

/// Substring test of an export name against the query.
pub fn name_matches(name: &str, pattern: &str, match_case: bool) -> (r: bool)
    ensures
        r == name_matches_spec(name@, pattern@, match_case),
{
    if match_case {
        contains_chars(&chars_of(name), &chars_of(pattern))
    } else {
        let n = lowercase(name);
        let p = lowercase(pattern);
        contains_chars(&chars_of(n.as_str()), &chars_of(p.as_str()))
    }
}

/// The names that match the query, in their order.
pub open spec fn matching_spec(names: Seq<Seq<char>>, pattern: Seq<char>, match_case: bool) -> Seq<Seq<char>> {
    present(
        names.map_values(
            |n: Seq<char>|
                if name_matches_spec(n, pattern, match_case) {
                    Some(n)
                } else {
                    None
                },
        ),
    )
}

proof fn lemma_matching_push(names: Seq<Seq<char>>, n: Seq<char>, pattern: Seq<char>, match_case: bool)
    ensures
        matching_spec(names.push(n), pattern, match_case) == if name_matches_spec(n, pattern, match_case) {
            matching_spec(names, pattern, match_case).push(n)
        } else {
            matching_spec(names, pattern, match_case)
        },
{
    let f = |n: Seq<char>|
        if name_matches_spec(n, pattern, match_case) {
            Some(n)
        } else {
            None
        };
    let m = names.push(n).map_values(f);
    assert(m.drop_last() =~= names.map_values(f));
    assert(m.last() == f(n));
}

/// Keeps the names that contain `pattern`, in order.
pub fn matching_names(names: &Vec<String>, pattern: &str, match_case: bool) -> (r: Vec<String>)
    ensures
        string_views(r@) == matching_spec(string_views(names@), pattern@, match_case),
{
    let mut out: Vec<String> = Vec::new();
    let mut i: usize = 0;
    while i < names.len()
        invariant
            i <= names@.len(),
            string_views(out@) == matching_spec(string_views(names@.take(i as int)), pattern@, match_case),
        decreases names@.len() - i,
    {
        let n = &names[i];
        let ghost prev = out@;
        proof {
            assert(string_views(names@.take(i + 1)) =~= string_views(names@.take(i as int)).push(n@));
            lemma_matching_push(string_views(names@.take(i as int)), n@, pattern@, match_case);
        }
        if name_matches(n.as_str(), pattern, match_case) {
            out.push(n.clone());
            assert(string_views(out@) =~= string_views(prev).push(n@));
        }
        i = i + 1;
    }
    assert(names@.take(names@.len() as int) =~= names@);
    out
}

/// Export names of one image that match a name query.
#[derive(Debug)]
pub struct ExportMatches {
    pub machine: Machine,
    pub is_managed: bool,
    pub names: Vec<String>,
}

/// What the export-name query on image `b` is owed: the parse error; `None`
/// where `arch` filters the machine out; the walker's error; else the
/// matching names in export order.
pub open spec fn export_query_ok(
    b: Seq<u8>,
    pattern: Seq<char>,
    match_case: bool,
    arch: ARCH,
    r: Result<Option<ExportMatches>, PeError>,
) -> bool {
    match parse_spec(b) {
        Err(e) => r == Err::<Option<ExportMatches>, PeError>(e),
        Ok(img) => if !arch_admits(arch, img.header.machine) {
            r == Ok::<Option<ExportMatches>, PeError>(None)
        } else {
            match export_names_spec(b, img) {
                Err(e) => r == Err::<Option<ExportMatches>, PeError>(e),
                Ok(names) => match r {
                    Ok(Some(m)) => {
                        &&& m.machine == img.header.machine
                        &&& m.is_managed == is_managed_spec(img.header)
                        &&& string_views(m.names@) == matching_spec(names, pattern, match_case)
                    },
                    _ => false,
                },
            }
        },
    }
}

/// Runs the export-name query on the image `b`.
pub fn export_query(b: &[u8], pattern: &str, match_case: bool, arch: ARCH) -> (r: Result<
    Option<ExportMatches>,
    PeError,
>)
    ensures
        export_query_ok(b@, pattern@, match_case, arch, r),
{
    let img = match parse_pe(b) {
        Ok(img) => img,
        Err(e) => return Err(e),
    };
    if !arch_matches(arch, img.header.machine) {
        return Ok(None);
    }
    let names = match export_names(b, &img) {
        Ok(n) => n,
        Err(e) => return Err(e),
    };
    Ok(
        Some(
            ExportMatches {
                machine: img.header.machine,
                is_managed: is_managed(&img.header),
                names: matching_names(&names, pattern, match_case),
            },
        ),
    )
}

} // verus!
