//! Mapping relative virtual addresses to sections and file offsets, and
//! reading a section's raw bytes.

use vstd::prelude::*;
use crate::pe::{PeError, SectionHeader, SectionView, section_views};

verus! {

/// Whether `rva` lies in the half-open range `[virtual_address, virtual_address + virtual_size)`.
pub open spec fn contains_rva(s: SectionView, rva: u32) -> bool {
    s.virtual_address <= rva && (rva as int) < s.virtual_address as int + s.virtual_size as int
}

/// File offset of `rva` within a section that contains it.
pub open spec fn offset_in(s: SectionView, rva: u32) -> int {
    s.pointer_to_raw_data as int + (rva as int - s.virtual_address as int)
}

/// Index of the first section, in header order, that contains `rva`.
pub open spec fn first_containing(s: Seq<SectionView>, rva: u32) -> Option<int> {
    if exists|i: int| 0 <= i < s.len() && contains_rva(s[i], rva) {
        let i = choose|i: int|
            0 <= i < s.len() && contains_rva(s[i], rva) && forall|j: int|
                0 <= j < i ==> !contains_rva(s[j], rva);
        Some(i)
    } else {
        None
    }
}

/// What resolving `rva` gives: the first containing section and the file offset.
pub open spec fn resolve_spec(s: Seq<SectionView>, rva: u32) -> Option<(usize, u64)> {
    match first_containing(s, rva) {
        Some(i) => Some((i as usize, offset_in(s[i], rva) as u64)),
        None => None,
    }
}

/// The first containing index is the least index whose section contains `rva`.
pub proof fn lemma_first_containing(s: Seq<SectionView>, rva: u32, i: int)
    requires
        0 <= i < s.len(),
        contains_rva(s[i], rva),
        forall|j: int| 0 <= j < i ==> !contains_rva(s[j], rva),
    ensures
        first_containing(s, rva) == Some(i),
{
    let k = choose|k: int|
        0 <= k < s.len() && contains_rva(s[k], rva) && forall|j: int|
            0 <= j < k ==> !contains_rva(s[j], rva);
    assert(0 <= k < s.len() && contains_rva(s[k], rva) && forall|j: int|
        0 <= j < k ==> !contains_rva(s[j], rva));
    if k < i {
    } else if i < k {
    }
}

/// Finds the section that contains `rva` and the file offset it maps to.
/// Sections are searched by containment in header order: the first match wins.
pub fn resolve_rva(sections: &Vec<SectionHeader>, rva: u32) -> (r: Option<(usize, u64)>)
    ensures
        r == resolve_spec(section_views(sections@), rva),
        r is Some ==> r->Some_0.0 < sections@.len() && r->Some_0.1 < 0x2_0000_0000,
        match r {
            Some((i, off)) => {
                &&& contains_rva(sections@[i as int]@, rva)
                &&& off == offset_in(sections@[i as int]@, rva)
                &&& forall|j: int| 0 <= j < i ==> !contains_rva(#[trigger] sections@[j]@, rva)
            },
            None => true,
        },
        r is None <==> forall|i: int|
            0 <= i < sections@.len() ==> !contains_rva(#[trigger] sections@[i]@, rva),
{
    let ghost views = section_views(sections@);
    let mut i: usize = 0;
    while i < sections.len()
        invariant
            i <= sections@.len(),
            views == section_views(sections@),
            forall|j: int| 0 <= j < i ==> !contains_rva(#[trigger] sections@[j]@, rva),
        decreases sections@.len() - i,
    {
        let s = &sections[i];
        if s.virtual_address <= rva && (rva as u64) < s.virtual_address as u64
            + s.virtual_size as u64 {
            let off = s.pointer_to_raw_data as u64 + (rva - s.virtual_address) as u64;
            proof {
                assert(views[i as int] == sections@[i as int]@);
                assert forall|j: int| 0 <= j < i implies !contains_rva(views[j], rva) by {
                    assert(views[j] == sections@[j]@);
                }
                lemma_first_containing(views, rva, i as int);
            }
            return Some((i, off));
        }
        i = i + 1;
    }
    proof {
        assert forall|j: int| 0 <= j < views.len() implies !contains_rva(views[j], rva) by {
            assert(views[j] == sections@[j]@);
        }
    }
    None
}

/// Whether a byte equals the ASCII character `c` once both are lower-cased.
pub open spec fn ascii_lower(c: u8) -> u8 {
    if 65 <= c <= 90 {
        (c + 32) as u8
    } else {
        c
    }
}

/// The section name `.text` followed by NUL padding.
pub open spec fn text_name() -> Seq<u8> {
    seq![0x2eu8, 0x74u8, 0x65u8, 0x78u8, 0x74u8, 0u8, 0u8, 0u8]
}

/// Whether an 8-byte name field reads `.text`, NUL-padded, ignoring ASCII case.
pub open spec fn is_text_name_spec(name: Seq<u8>) -> bool {
    name.len() == 8 && forall|i: int| 0 <= i < 8 ==> ascii_lower(#[trigger] name[i]) == text_name()[i]
}

fn to_ascii_lower(c: u8) -> (r: u8)
    ensures
        r == ascii_lower(c),
{
    if 65 <= c && c <= 90 {
        c + 32
    } else {
        c
    }
}

/// Compares the raw name field with `.text`, byte by byte: the field is not a C string.
pub fn is_text_name(name: &[u8; 8]) -> (r: bool)
    ensures
        r == is_text_name_spec(name@),
{
    let expected: [u8; 8] = [0x2e, 0x74, 0x65, 0x78, 0x74, 0, 0, 0];
    assert(expected@ =~= text_name());
    let mut i: usize = 0;
    while i < 8
        invariant
            i <= 8,
            name@.len() == 8,
            expected@ == text_name(),
            forall|k: int| 0 <= k < i ==> ascii_lower(#[trigger] name@[k]) == text_name()[k],
        decreases 8 - i,
    {
        if to_ascii_lower(name[i]) != expected[i] {
            return false;
        }
        i = i + 1;
    }
    true
}

/// Index of the first `.text` section in header order.
pub open spec fn first_text(s: Seq<SectionView>) -> Option<int> {
    if exists|i: int| 0 <= i < s.len() && is_text_name_spec(s[i].name) {
        Some(
            choose|i: int|
                0 <= i < s.len() && is_text_name_spec(s[i].name) && forall|j: int|
                    0 <= j < i ==> !is_text_name_spec(s[j].name),
        )
    } else {
        None
    }
}

/// Where some section is named `.text`, the first one is, and none before it.
pub proof fn lemma_first_text(s: Seq<SectionView>, i: int)
    requires
        0 <= i < s.len(),
        is_text_name_spec(s[i].name),
    ensures
        first_text(s) is Some,
        0 <= first_text(s)->Some_0 <= i,
        is_text_name_spec(s[first_text(s)->Some_0].name),
        forall|j: int| 0 <= j < first_text(s)->Some_0 ==> !is_text_name_spec(#[trigger] s[j].name),
    decreases i,
{
    if exists|j: int| 0 <= j < i && is_text_name_spec(#[trigger] s[j].name) {
        let j = choose|j: int| 0 <= j < i && is_text_name_spec(#[trigger] s[j].name);
        lemma_first_text(s, j);
    } else {
        assert(0 <= i < s.len() && is_text_name_spec(s[i].name) && forall|j: int|
            0 <= j < i ==> !is_text_name_spec(s[j].name));
    }
}

/// Finds the first section named `.text`.
pub fn find_text_section(sections: &Vec<SectionHeader>) -> (r: Option<usize>)
    ensures
        match r {
            Some(i) => first_text(section_views(sections@)) == Some(i as int),
            None => first_text(section_views(sections@)) is None,
        },
        r is Some ==> r->Some_0 < sections@.len(),
{
    let ghost views = section_views(sections@);
    let mut i: usize = 0;
    while i < sections.len()
        invariant
            i <= sections@.len(),
            views == section_views(sections@),
            forall|j: int| 0 <= j < i ==> !is_text_name_spec(#[trigger] views[j].name),
        decreases sections@.len() - i,
    {
        if is_text_name(&sections[i].name) {
            proof {
                let k = choose|k: int|
                    0 <= k < views.len() && is_text_name_spec(views[k].name) && forall|j: int|
                        0 <= j < k ==> !is_text_name_spec(views[j].name);
                assert(views[i as int].name == sections@[i as int].name@);
                assert(0 <= k < views.len() && is_text_name_spec(views[k].name));
                if (k as usize) < i {
                } else if i < k as usize {
                }
            }
            return Some(i);
        }
        i = i + 1;
    }
    None
}

/// The raw bytes of section `s`: `size_of_raw_data` bytes from `pointer_to_raw_data`.
/// A zero-length read is empty wherever the pointer lies.
pub open spec fn section_bytes_spec(b: Seq<u8>, s: SectionView) -> Result<Seq<u8>, PeError> {
    let start = s.pointer_to_raw_data as int;
    let end = start + s.size_of_raw_data as int;
    if s.size_of_raw_data == 0 {
        Ok(Seq::empty())
    } else if end > b.len() {
        Err(PeError::Truncated)
    } else {
        Ok(b.subrange(start, end))
    }
}

/// Copies the raw bytes of section `s` out of the image. An empty section
/// gives an empty vector, wherever its pointer lies; bytes past the end of the
/// image give `Truncated`.
pub fn extract_section_bytes(b: &[u8], s: &SectionHeader) -> (r: Result<Vec<u8>, PeError>)
    ensures
        match r {
            Ok(v) => section_bytes_spec(b@, s@) == Ok::<Seq<u8>, PeError>(v@),
            Err(e) => section_bytes_spec(b@, s@) == Err::<Seq<u8>, PeError>(e),
        },
{
    if s.size_of_raw_data == 0 {
        let v: Vec<u8> = Vec::new();
        assert(v@ =~= Seq::<u8>::empty());
        return Ok(v);
    }
    let start = s.pointer_to_raw_data as u64;
    let end = start + s.size_of_raw_data as u64;
    if end > b.len() as u64 {
        return Err(PeError::Truncated);
    }
    let start = start as usize;
    let end = end as usize;
    let mut v: Vec<u8> = Vec::new();
    let mut i: usize = start;
    while i < end
        invariant
            start <= i <= end <= b@.len(),
            v@ == b@.subrange(start as int, i as int),
        decreases end - i,
    {
        v.push(b[i]);
        i = i + 1;
        assert(v@ =~= b@.subrange(start as int, i as int));
    }
    Ok(v)
}

} // verus!
