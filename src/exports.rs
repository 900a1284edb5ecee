//! Walking the export directory to the names of the exported symbols.

use vstd::prelude::*;
use crate::pe::{PeError, PeImage, PeImageView, le32, read_u32, section_views};
use crate::resolve::{resolve_rva, resolve_spec};
use crate::text::{decode_utf8, utf8_decoded};

verus! {

/// Size in bytes of the export directory record.
pub const EXPORT_DIRECTORY_SIZE: u64 = 40;

/// The values that are present, in order.
pub open spec fn present<A>(s: Seq<Option<A>>) -> Seq<A>
    decreases s.len(),
{
    if s.len() == 0 {
        Seq::empty()
    } else {
        let p = present(s.drop_last());
        match s.last() {
            Some(x) => p.push(x),
            None => p,
        }
    }
}

/// Index of the first NUL byte at or after `off`, if the buffer holds one.
pub open spec fn nul_index(b: Seq<u8>, off: int) -> Option<int>
    decreases b.len() - off,
{
    if off < 0 || off >= b.len() {
        None
    } else if b[off] == 0 {
        Some(off)
    } else {
        nul_index(b, off + 1)
    }
}

/// The NUL-terminated byte run at `off`, without its terminator.
pub open spec fn cstr_at(b: Seq<u8>, off: int) -> Option<Seq<u8>> {
    match nul_index(b, off) {
        Some(k) => Some(b.subrange(off, k)),
        None => None,
    }
}

/// The name that a name-pointer entry `rva` leads to, if it resolves and ends in the buffer.
pub open spec fn name_entry(b: Seq<u8>, img: PeImageView, rva: u32) -> Option<Seq<u8>> {
    match resolve_spec(img.sections, rva) {
        Some((_, off)) => cstr_at(b, off as int),
        None => None,
    }
}

pub open spec fn byte_views(v: Seq<Vec<u8>>) -> Seq<Seq<u8>> {
    v.map_values(|x: Vec<u8>| x@)
}

pub open spec fn string_views(v: Seq<String>) -> Seq<Seq<char>> {
    v.map_values(|x: String| x@)
}

/// RVA of the export directory: entry 0 of the data directories, 0 when absent.
pub open spec fn export_rva(img: PeImageView) -> u32 {
    if img.header.data_directories.len() == 0 {
        0
    } else {
        img.header.data_directories[0].virtual_address
    }
}

/// What walking the export directory of image `img`, read from `b`, gives:
/// the raw name of each name pointer, in order, except those that do not
/// resolve or run off the end of the buffer.
pub open spec fn export_walk_spec(b: Seq<u8>, img: PeImageView) -> Result<Seq<Seq<u8>>, PeError> {
    let rva = export_rva(img);
    if rva == 0 {
        Err(PeError::NotFound)
    } else {
        match resolve_spec(img.sections, rva) {
            None => Err(PeError::NotFound),
            Some((_, d)) => if d + 40 > b.len() {
                Err(PeError::Truncated)
            } else {
                let n = le32(b, d + 24);
                match resolve_spec(img.sections, le32(b, d + 32)) {
                    None => Err(PeError::NotFound),
                    Some((_, a)) => if a + 4 * n > b.len() {
                        Err(PeError::Truncated)
                    } else {
                        Ok(present(name_entries(b, img, a as int, n)))
                    },
                }
            },
        }
    }
}

/// The decoded export names: those raw names that are valid UTF-8.
pub open spec fn export_names_spec(b: Seq<u8>, img: PeImageView) -> Result<Seq<Seq<char>>, PeError> {
    match export_walk_spec(b, img) {
        Ok(raw) => Ok(present(raw.map_values(|r: Seq<u8>| utf8_decoded(r)))),
        Err(e) => Err(e),
    }
}

proof fn lemma_present_push<A>(s: Seq<Option<A>>, x: Option<A>)
    ensures
        present(s.push(x)) == match x {
            Some(v) => present(s).push(v),
            None => present(s),
        },
{
    assert(s.push(x).drop_last() =~= s);
}

proof fn lemma_nul_index_skip(b: Seq<u8>, off: int, i: int)
    requires
        0 <= off <= i < b.len(),
        forall|j: int| off <= j < i ==> b[j] != 0,
    ensures
        nul_index(b, off) == nul_index(b, i),
    decreases i - off,
{
    if off < i {
        lemma_nul_index_skip(b, off + 1, i);
    }
}

/// Reads the NUL-terminated byte run at `off`; `None` when no NUL follows
/// before the end of the buffer.
pub fn read_cstr(b: &[u8], off: u64) -> (r: Option<Vec<u8>>)
    ensures
        match r {
            Some(v) => cstr_at(b@, off as int) == Some(v@),
            None => cstr_at(b@, off as int) is None,
        },
{
    if off >= b.len() as u64 {
        return None;
    }
    let start = off as usize;
    let mut v: Vec<u8> = Vec::new();
    let mut i: usize = start;
    while i < b.len()
        invariant
            start <= i <= b@.len(),
            start < b@.len(),
            start as int == off as int,
            v@ == b@.subrange(start as int, i as int),
            forall|j: int| start <= j < i ==> b@[j] != 0,
        decreases b@.len() - i,
    {
        if b[i] == 0 {
            proof {
                lemma_nul_index_skip(b@, start as int, i as int);
                assert(nul_index(b@, i as int) == Some(i as int));
            }
            return Some(v);
        }
        v.push(b[i]);
        i = i + 1;
        assert(v@ =~= b@.subrange(start as int, i as int));
    }
    proof {
        lemma_nul_index_skip(b@, start as int, (i - 1) as int);
        assert(nul_index(b@, i as int) is None);
        assert(nul_index(b@, (i - 1) as int) is None);
    }
    None
}

/// The name entries of the `n` name pointers stored at byte `a`.
pub open spec fn name_entries(b: Seq<u8>, img: PeImageView, a: int, n: u32) -> Seq<Option<Seq<u8>>> {
    Seq::new(n as nat, |i: int| name_entry(b, img, le32(b, a + 4 * i)))
}

/// Reads the `n` name pointers at byte `a` and the names they lead to.
fn collect_names(b: &[u8], img: &PeImage, a: usize, n: u32) -> (r: Result<Vec<Vec<u8>>, PeError>)
    requires
        a + 4 * n <= b@.len(),
    ensures
        r == Ok::<Vec<Vec<u8>>, PeError>(r->Ok_0),
        byte_views(r->Ok_0@) == present(name_entries(b@, img@, a as int, n)),
{
    let ghost entries = name_entries(b@, img@, a as int, n);
    let mut out: Vec<Vec<u8>> = Vec::new();
    let mut i: u32 = 0;
    let len = b.len();
    while i < n
        invariant
            i <= n,
            a + 4 * n <= b@.len() == len,
            entries == name_entries(b@, img@, a as int, n),
            byte_views(out@) == present(entries.take(i as int)),
        decreases n - i,
    {
        let p = a + 4 * (i as usize);
        let name_rva = read_u32(b, p);
        let entry = match resolve_rva(&img.sections, name_rva) {
            None => None,
            Some((_, off)) => read_cstr(b, off),
        };
        proof {
            assert(entries.take(i + 1) =~= entries.take(i as int).push(entries[i as int]));
            lemma_present_push(entries.take(i as int), entries[i as int]);
        }
        let ghost prev = out@;
        match entry {
            Some(name) => {
                let ghost nv = name@;
                out.push(name);
                assert(byte_views(out@) =~= byte_views(prev).push(nv));
            },
            None => {},
        }
        i = i + 1;
    }
    assert(entries.take(n as int) =~= entries);
    Ok(out)
}

/// Walks the export directory of `img`, the image parsed from `b`, and returns
/// the raw bytes of each exported name in name-pointer order. A name whose
/// pointer does not resolve, or that is not NUL-terminated within the buffer,
/// is skipped; a missing export table, directory record or name array fails.
pub fn export_name_bytes(b: &[u8], img: &PeImage) -> (r: Result<Vec<Vec<u8>>, PeError>)
    ensures
        match r {
            Ok(v) => export_walk_spec(b@, img@) == Ok::<Seq<Seq<u8>>, PeError>(byte_views(v@)),
            Err(e) => export_walk_spec(b@, img@) == Err::<Seq<Seq<u8>>, PeError>(e),
        },
{
    let rva = if img.header.data_directories.len() == 0 {
        0
    } else {
        img.header.data_directories[0].virtual_address
    };
    if rva == 0 {
        return Err(PeError::NotFound);
    }
    let d = match resolve_rva(&img.sections, rva) {
        None => return Err(PeError::NotFound),
        Some((_, d)) => d,
    };
    if d + EXPORT_DIRECTORY_SIZE > b.len() as u64 {
        return Err(PeError::Truncated);
    }
    let d = d as usize;
    let n = read_u32(b, d + 24);
    let names_rva = read_u32(b, d + 32);
    let a = match resolve_rva(&img.sections, names_rva) {
        None => return Err(PeError::NotFound),
        Some((_, a)) => a,
    };
    if a + 4 * (n as u64) > b.len() as u64 {
        return Err(PeError::Truncated);
    }
    let a = a as usize;
    collect_names(b, img, a, n)
}


/// Decodes each raw name as UTF-8, in order, dropping those that are not valid.
pub fn decode_names(raw: &Vec<Vec<u8>>) -> (r: Vec<String>)
    ensures
        string_views(r@) == present(byte_views(raw@).map_values(|x: Seq<u8>| utf8_decoded(x))),
{
    let ghost d = byte_views(raw@).map_values(|x: Seq<u8>| utf8_decoded(x));
    let mut out: Vec<String> = Vec::new();
    let mut i: usize = 0;
    while i < raw.len()
        invariant
            i <= raw@.len(),
            d == byte_views(raw@).map_values(|x: Seq<u8>| utf8_decoded(x)),
            string_views(out@) == present(d.take(i as int)),
        decreases raw@.len() - i,
    {
        let name = decode_utf8(raw[i].as_slice());
        proof {
            assert(d[i as int] == utf8_decoded(raw@[i as int]@));
            assert(d.take(i + 1) =~= d.take(i as int).push(d[i as int]));
            lemma_present_push(d.take(i as int), d[i as int]);
        }
        let ghost prev = out@;
        match name {
            Some(s) => {
                let ghost sv = s@;
                out.push(s);
                assert(string_views(out@) =~= string_views(prev).push(sv));
            },
            None => {},
        }
        i = i + 1;
    }
    assert(d.take(raw@.len() as int) =~= d);
    out
}

/// The exported names of `img`, the image parsed from `b`, decoded as UTF-8:
/// names that are not valid UTF-8 are dropped, the others keep their order.
pub fn export_names(b: &[u8], img: &PeImage) -> (r: Result<Vec<String>, PeError>)
    ensures
        match r {
            Ok(v) => export_names_spec(b@, img@) == Ok::<Seq<Seq<char>>, PeError>(string_views(v@)),
            Err(e) => export_names_spec(b@, img@) == Err::<Seq<Seq<char>>, PeError>(e),
        },
{
    match export_name_bytes(b, img) {
        Ok(raw) => Ok(decode_names(&raw)),
        Err(e) => Err(e),
    }
}

} // verus!
