//! One query applied across many files: each file's outcome stands alone,
//! so a file that fails to parse never stops the others.

use vstd::prelude::*;
use crate::arch::ARCH;
use crate::pe::PeError;
use crate::query::{
    ByteMatches, ExportMatches, StompCandidate, byte_query, byte_query_ok, export_query,
    export_query_ok, stomp_query, stomp_query_spec,
};

verus! {

/// The query of a run: exactly one is active.
#[derive(Debug)]
pub enum Query {
    /// Byte pattern to find in `.text`.
    Bytes(Vec<u8>),
    /// `.text` sections of at least `threshold` bytes of virtual size.
    Stomp { threshold: u64, cfg_disabled_only: bool, arch: ARCH },
    /// Export names that contain `pattern`.
    Names { pattern: String, match_case: bool, arch: ARCH },
}

/// What a query found in one image.
#[derive(Debug)]
pub enum MatchRecord {
    Bytes(ByteMatches),
    Stomp(StompCandidate),
    Exports(ExportMatches),
}

/// The outcome for one file, under its path.
#[derive(Debug)]
pub struct FileReport {
    pub file: String,
    pub outcome: Result<Option<MatchRecord>, PeError>,
}

/// `r` is what query `q` owes on image `b`.
pub open spec fn evaluate_ok(b: Seq<u8>, q: Query, r: Result<Option<MatchRecord>, PeError>) -> bool {
    match q {
        Query::Bytes(p) => match r {
            Ok(Some(MatchRecord::Bytes(m))) => byte_query_ok(
                b,
                p@,
                Ok::<Option<ByteMatches>, PeError>(Some(m)),
            ),
            Ok(None) => byte_query_ok(b, p@, Ok::<Option<ByteMatches>, PeError>(None)),
            Err(e) => byte_query_ok(b, p@, Err::<Option<ByteMatches>, PeError>(e)),
            _ => false,
        },
        Query::Stomp { threshold, cfg_disabled_only, arch } => match r {
            Ok(Some(MatchRecord::Stomp(m))) => stomp_query_spec(
                b,
                threshold,
                cfg_disabled_only,
                arch,
            ) == Ok::<Option<StompCandidate>, PeError>(Some(m)),
            Ok(None) => stomp_query_spec(b, threshold, cfg_disabled_only, arch) == Ok::<
                Option<StompCandidate>,
                PeError,
            >(None),
            Err(e) => stomp_query_spec(b, threshold, cfg_disabled_only, arch) == Err::<
                Option<StompCandidate>,
                PeError,
            >(e),
            _ => false,
        },
        Query::Names { pattern, match_case, arch } => match r {
            Ok(Some(MatchRecord::Exports(m))) => export_query_ok(
                b,
                pattern@,
                match_case,
                arch,
                Ok::<Option<ExportMatches>, PeError>(Some(m)),
            ),
            Ok(None) => export_query_ok(
                b,
                pattern@,
                match_case,
                arch,
                Ok::<Option<ExportMatches>, PeError>(None),
            ),
            Err(e) => export_query_ok(
                b,
                pattern@,
                match_case,
                arch,
                Err::<Option<ExportMatches>, PeError>(e),
            ),
            _ => false,
        },
    }
}

/// Runs query `q` on image `b`.
pub fn evaluate(b: &[u8], q: &Query) -> (r: Result<Option<MatchRecord>, PeError>)
    ensures
        evaluate_ok(b@, *q, r),
{
    match q {
        Query::Bytes(p) => match byte_query(b, p.as_slice()) {
            Ok(Some(m)) => Ok(Some(MatchRecord::Bytes(m))),
            Ok(None) => Ok(None),
            Err(e) => Err(e),
        },
        Query::Stomp { threshold, cfg_disabled_only, arch } => match stomp_query(
            b,
            *threshold,
            *cfg_disabled_only,
            *arch,
        ) {
            Ok(Some(m)) => Ok(Some(MatchRecord::Stomp(m))),
            Ok(None) => Ok(None),
            Err(e) => Err(e),
        },
        Query::Names { pattern, match_case, arch } => match export_query(
            b,
            pattern.as_str(),
            *match_case,
            *arch,
        ) {
            Ok(Some(m)) => Ok(Some(MatchRecord::Exports(m))),
            Ok(None) => Ok(None),
            Err(e) => Err(e),
        },
    }
}

/// `r` is what query `q` owes on a file whose contents could be read, or
/// `Unreadable` where they could not.
pub open spec fn file_outcome_ok(
    contents: Option<Seq<u8>>,
    q: Query,
    r: Result<Option<MatchRecord>, PeError>,
) -> bool {
    match contents {
        None => r == Err::<Option<MatchRecord>, PeError>(PeError::Unreadable),
        Some(b) => evaluate_ok(b, q, r),
    }
}

pub open spec fn contents_view(c: Option<Vec<u8>>) -> Option<Seq<u8>> {
    match c {
        Some(v) => Some(v@),
        None => None,
    }
}

/// The report for the file at `file`, whose contents are `contents`, or
/// `None` where the file could not be read.
pub fn evaluate_file(file: &String, contents: &Option<Vec<u8>>, q: &Query) -> (r: FileReport)
    ensures
        r.file@ == file@,
        file_outcome_ok(contents_view(*contents), *q, r.outcome),
{
    let outcome = match contents {
        None => Err(PeError::Unreadable),
        Some(b) => evaluate(b.as_slice(), q),
    };
    FileReport { file: file.clone(), outcome }
}

/// Runs query `q` over a list of files, one report per file in input order.
/// Each report depends on its own file alone: a malformed or unreadable file
/// yields its error and the files after it are still evaluated.
pub fn run_batch(files: &Vec<String>, contents: &Vec<Option<Vec<u8>>>, q: &Query) -> (r: Vec<FileReport>)
    requires
        files@.len() == contents@.len(),
    ensures
        r@.len() == files@.len(),
        forall|i: int|
            0 <= i < r@.len() ==> (#[trigger] r@[i]).file@ == files@[i]@ && file_outcome_ok(
                contents_view(contents@[i]),
                *q,
                r@[i].outcome,
            ),
{
    let mut out: Vec<FileReport> = Vec::new();
    let mut i: usize = 0;
    while i < files.len()
        invariant
            i <= files@.len() == contents@.len(),
            out@.len() == i,
            forall|k: int|
                0 <= k < i ==> (#[trigger] out@[k]).file@ == files@[k]@ && file_outcome_ok(
                    contents_view(contents@[k]),
                    *q,
                    out@[k].outcome,
                ),
        decreases files@.len() - i,
    {
        let rep = evaluate_file(&files[i], &contents[i], q);
        out.push(rep);
        i = i + 1;
    }
    out
}

/// Whether a record holds at least one match.
pub open spec fn has_match_spec(m: MatchRecord) -> bool {
    match m {
        MatchRecord::Bytes(b) => b.offsets@.len() > 0,
        MatchRecord::Stomp(_) => true,
        MatchRecord::Exports(e) => e.names@.len() > 0,
    }
}

/// Whether a record holds at least one match.
pub fn has_match(m: &MatchRecord) -> (r: bool)
    ensures
        r == has_match_spec(*m),
{
    match m {
        MatchRecord::Bytes(b) => b.offsets.len() > 0,
        MatchRecord::Stomp(_) => true,
        MatchRecord::Exports(e) => e.names.len() > 0,
    }
}

pub open spec fn report_matched(r: FileReport) -> bool {
    match r.outcome {
        Ok(Some(m)) => has_match_spec(m),
        _ => false,
    }
}

/// Whether any file of the run matched the query.
pub fn any_match(reports: &Vec<FileReport>) -> (r: bool)
    ensures
        r == exists|i: int| 0 <= i < reports@.len() && report_matched(#[trigger] reports@[i]),
{
    let mut i: usize = 0;
    while i < reports.len()
        invariant
            i <= reports@.len(),
            forall|k: int| 0 <= k < i ==> !report_matched(#[trigger] reports@[k]),
        decreases reports@.len() - i,
    {
        let found = match &reports[i].outcome {
            Ok(Some(m)) => has_match(m),
            _ => false,
        };
        if found {
            assert(report_matched(reports@[i as int]));
            return true;
        }
        i = i + 1;
    }
    false
}

/// Whether an error is reported to the user: a missing export table is an
/// expected case for the export-name query and stays silent.
pub open spec fn error_reported_spec(q: Query, e: PeError) -> bool {
    !(q is Names && e == PeError::NotFound)
}

/// Whether an error is reported to the user.
pub fn error_reported(q: &Query, e: PeError) -> (r: bool)
    ensures
        r == error_reported_spec(*q, e),
{
    match q {
        Query::Names { .. } => e != PeError::NotFound,
        _ => true,
    }
}


/// `order` lists each index of `sizes` exactly once, largest size first.
pub open spec fn orders_by_size_desc(sizes: Seq<u32>, order: Seq<usize>) -> bool {
    &&& order.len() == sizes.len()
    &&& forall|k: int| 0 <= k < order.len() ==> #[trigger] order[k] < sizes.len()
    &&& forall|k: int, l: int| 0 <= k < l < order.len() ==> order[k] != order[l]
    &&& forall|k: int, l: int|
        0 <= k < l < order.len() ==> sizes[order[k] as int] >= sizes[order[l] as int]
}

/// The order in which to report results gathered from all workers: indices
/// of `sizes`, largest size first, equal sizes in input order.
pub fn order_by_size_desc(sizes: &Vec<u32>) -> (r: Vec<usize>)
    ensures
        orders_by_size_desc(sizes@, r@),
        forall|k: int, l: int|
            0 <= k < l < r@.len() && sizes@[r@[k] as int] == sizes@[r@[l] as int] ==> r@[k] < r@[l],
{
    let mut r: Vec<usize> = Vec::new();
    let mut i: usize = 0;
    while i < sizes.len()
        invariant
            i <= sizes@.len(),
            r@.len() == i,
            forall|k: int| 0 <= k < r@.len() ==> #[trigger] r@[k] < i,
            forall|k: int, l: int| 0 <= k < l < r@.len() ==> r@[k] != r@[l],
            forall|k: int, l: int|
                0 <= k < l < r@.len() ==> sizes@[r@[k] as int] >= sizes@[r@[l] as int],
            forall|k: int, l: int|
                0 <= k < l < r@.len() && sizes@[r@[k] as int] == sizes@[r@[l] as int] ==> r@[k]
                    < r@[l],
        decreases sizes@.len() - i,
    {
        let key = sizes[i];
        let mut p: usize = 0;
        while p < r.len() && sizes[r[p]] >= key
            invariant
                p <= r@.len(),
                r@.len() == i,
                i < sizes@.len(),
                key == sizes@[i as int],
                forall|k: int| 0 <= k < r@.len() ==> #[trigger] r@[k] < i,
                forall|k: int| 0 <= k < p ==> sizes@[#[trigger] r@[k] as int] >= key,
            decreases r@.len() - p,
        {
            p = p + 1;
        }
        let ghost prev = r@;
        proof {
            assert forall|k: int| p <= k < prev.len() implies sizes@[#[trigger] prev[k] as int] < key by {
                if p < prev.len() {
                    assert(sizes@[prev[p as int] as int] < key);
                    if k > p {
                        assert(sizes@[prev[p as int] as int] >= sizes@[prev[k] as int]);
                    }
                }
            }
        }
        r.insert(p, i);
        proof {
            assert(r@ == prev.insert(p as int, i));
            assert forall|k: int| 0 <= k < r@.len() implies #[trigger] r@[k] < i + 1 by {
                if k < p {
                    assert(r@[k] == prev[k]);
                } else if k > p {
                    assert(r@[k] == prev[k - 1]);
                }
            }
            assert forall|k: int, l: int| 0 <= k < l < r@.len() implies r@[k] != r@[l] by {
                if k < p && l < p {
                } else if k < p && l == p {
                    assert(prev[k] < i);
                } else if k < p {
                    assert(r@[l] == prev[l - 1]);
                } else if k == p {
                    assert(r@[l] == prev[l - 1]);
                    assert(prev[l - 1] < i);
                } else {
                    assert(r@[k] == prev[k - 1]);
                    assert(r@[l] == prev[l - 1]);
                }
            }
            assert forall|k: int, l: int| 0 <= k < l < r@.len() implies sizes@[r@[k] as int]
                >= sizes@[r@[l] as int] && (sizes@[r@[k] as int] == sizes@[r@[l] as int] ==> r@[k]
                < r@[l]) by {
                if k < p && l < p {
                } else if k < p && l == p {
                    assert(prev[k] < i);
                } else if k < p {
                    assert(r@[l] == prev[l - 1]);
                    assert(k < l - 1);
                } else if k == p {
                    assert(r@[l] == prev[l - 1]);
                    assert(sizes@[prev[l - 1] as int] < key);
                } else {
                    assert(r@[k] == prev[k - 1]);
                    assert(r@[l] == prev[l - 1]);
                }
            }
        }
        i = i + 1;
    }
    r
}

} // verus!
