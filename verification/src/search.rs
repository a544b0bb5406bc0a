//! The verifying side of the pipeline: a worker checks every candidate of a
//! batch against its own archive probe, and the search drives whole batches
//! through a worker until a verified password is found, the probe faults, or
//! the candidates run out.

use vstd::prelude::*;

use crate::batch::{batch_views, make_batches};
use crate::probe::{ArchiveProbe, SearchError, Verdict, probe_verdict};
use crate::scan::{candidate_views, is_fault, is_verified, lemma_scan_batches_flatten,
    lemma_scan_batches_skip, lemma_scan_skip, scan, scan_batches};

verus! {

/// Checks every candidate of one batch in order against the probe: the first
/// verified candidate is returned, a probe fault before one is found is an
/// error, and otherwise the batch holds no password.
#[verifier::loop_isolation(false)]
pub fn check_batch(probe: &mut ArchiveProbe, batch: &Vec<String>) -> (r: Result<
    Option<String>,
    SearchError,
>)
    ensures
        final(probe).data() == old(probe).data(),
        match r {
            Ok(Some(p)) => scan(old(probe).data(), candidate_views(batch@)) == Ok::<
                Option<Seq<char>>,
                (),
            >(Some(p@)),
            Ok(None) => scan(old(probe).data(), candidate_views(batch@)) == Ok::<
                Option<Seq<char>>,
                (),
            >(None),
            Err(e) => scan(old(probe).data(), candidate_views(batch@)) is Err && e
                == SearchError::ProbeFault,
        },
{
    let ghost bytes = probe.data();
    let ghost cv = candidate_views(batch@);
    let mut i: usize = 0;
    while i < batch.len()
        invariant
            i <= batch.len(),
            probe.data() == bytes,
            cv == candidate_views(batch@),
            cv.len() == batch@.len(),
            forall|j: int| 0 <= j < i ==> !is_fault(bytes, cv[j]) && !is_verified(bytes, cv[j]),
        decreases batch.len() - i,
    {
        let verdict = probe.probe(batch[i].as_str());
        proof {
            assert(verdict == probe_verdict(bytes, cv[i as int]));
        }
        match verdict {
            Verdict::Fault => {
                proof {
                    lemma_scan_skip(bytes, cv, i as int);
                    assert(cv.skip(i as int)[0] == cv[i as int]);
                    assert(scan(bytes, cv.skip(i as int)) is Err);
                }
                return Err(SearchError::ProbeFault);
            },
            Verdict::Verified => {
                let p = batch[i].clone();
                proof {
                    lemma_scan_skip(bytes, cv, i as int);
                    assert(cv.skip(i as int)[0] == cv[i as int]);
                    assert(scan(bytes, cv.skip(i as int)) == Ok::<Option<Seq<char>>, ()>(
                        Some(cv[i as int]),
                    ));
                }
                return Ok(Some(p));
            },
            Verdict::WrongPassword => {},
            Verdict::Corrupt => {},
        }
        i += 1;
    }
    proof {
        lemma_scan_skip(bytes, cv, cv.len() as int);
        assert(cv.skip(cv.len() as int) =~= Seq::<Seq<char>>::empty());
    }
    Ok(None)
}

/// Runs the whole search over the dictionary `lines` with batches of
/// `batch_size` candidates: the result is what scanning the dictionary in
/// order produces, whatever the batch size.
#[verifier::loop_isolation(false)]
pub fn run_search(probe: &mut ArchiveProbe, lines: &Vec<String>, batch_size: usize) -> (r: Result<
    Option<String>,
    SearchError,
>)
    requires
        batch_size >= 1,
    ensures
        final(probe).data() == old(probe).data(),
        match r {
            Ok(Some(p)) => scan(old(probe).data(), candidate_views(lines@)) == Ok::<
                Option<Seq<char>>,
                (),
            >(Some(p@)),
            Ok(None) => scan(old(probe).data(), candidate_views(lines@)) == Ok::<
                Option<Seq<char>>,
                (),
            >(None),
            Err(e) => scan(old(probe).data(), candidate_views(lines@)) is Err && e
                == SearchError::ProbeFault,
        },
{
    let ghost bytes = probe.data();
    let batches = make_batches(lines, batch_size);
    let ghost bv = batch_views(batches@);
    proof {
        lemma_scan_batches_flatten(bytes, bv);
        assert(scan_batches(bytes, bv) == scan(bytes, candidate_views(lines@)));
    }
    let mut w: usize = 0;
    while w < batches.len()
        invariant
            w <= batches@.len(),
            probe.data() == bytes,
            bv == batch_views(batches@),
            bv.len() == batches@.len(),
            forall|j: int|
                0 <= j < w ==> scan(bytes, bv[j]) == Ok::<Option<Seq<char>>, ()>(None),
        decreases batches.len() - w,
    {
        let r = check_batch(probe, &batches[w]);
        proof {
            assert(bv[w as int] == candidate_views(batches@[w as int]@));
        }
        match r {
            Ok(None) => {},
            Ok(Some(p)) => {
                proof {
                    lemma_scan_batches_skip(bytes, bv, w as int);
                    assert(bv.skip(w as int)[0] == bv[w as int]);
                    assert(scan_batches(bytes, bv.skip(w as int)) == Ok::<Option<Seq<char>>, ()>(
                        Some(p@),
                    ));
                }
                return Ok(Some(p));
            },
            Err(e) => {
                proof {
                    lemma_scan_batches_skip(bytes, bv, w as int);
                    assert(bv.skip(w as int)[0] == bv[w as int]);
                    assert(scan_batches(bytes, bv.skip(w as int)) is Err);
                }
                return Err(e);
            },
        }
        w += 1;
    }
    proof {
        lemma_scan_batches_skip(bytes, bv, bv.len() as int);
        assert(bv.skip(bv.len() as int) =~= Seq::<Seq<Seq<char>>>::empty());
    }
    Ok(None)
}

} // verus!
