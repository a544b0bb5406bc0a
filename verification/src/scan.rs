//! The mathematical model of the search: what scanning a sequence of
//! candidate passwords against an archive produces, and the laws the search
//! obeys -- independence from batching and from how batches are distributed
//! among workers.

use vstd::prelude::*;

use crate::probe::{Verdict, probe_verdict};

verus! {

/// The views of a sequence of candidate strings.
pub open spec fn candidate_views(lines: Seq<String>) -> Seq<Seq<char>> {
    lines.map_values(|s: String| s@)
}

/// Whether `pw` is a verified password for the archive `bytes`: it decrypts
/// the first entry and the content drains without error.
pub open spec fn is_verified(bytes: Seq<u8>, pw: Seq<char>) -> bool {
    probe_verdict(bytes, pw) == Verdict::Verified
}

/// Whether probing `pw` against the archive `bytes` faults.
pub open spec fn is_fault(bytes: Seq<u8>, pw: Seq<char>) -> bool {
    probe_verdict(bytes, pw) == Verdict::Fault
}

/// Whether no candidate in `pws` makes the probe fault.
pub open spec fn fault_free(bytes: Seq<u8>, pws: Seq<Seq<char>>) -> bool {
    forall|i: int| 0 <= i < pws.len() ==> !is_fault(bytes, pws[i])
}

/// Whether some candidate in `pws` is a verified password.
pub open spec fn has_verified(bytes: Seq<u8>, pws: Seq<Seq<char>>) -> bool {
    exists|i: int| 0 <= i < pws.len() && is_verified(bytes, pws[i])
}

/// What scanning the candidates `pws` in order against the archive `bytes`
/// produces: the first verified candidate, an error if the probe faults
/// before one is found, or nothing.
pub open spec fn scan(bytes: Seq<u8>, pws: Seq<Seq<char>>) -> Result<Option<Seq<char>>, ()>
    decreases pws.len(),
{
    if pws.len() == 0 {
        Ok(None)
    } else if is_fault(bytes, pws[0]) {
        Err(())
    } else if is_verified(bytes, pws[0]) {
        Ok(Some(pws[0]))
    } else {
        scan(bytes, pws.drop_first())
    }
}

/// Scanning ignores a prefix of candidates that neither fault nor verify.
pub proof fn lemma_scan_skip(bytes: Seq<u8>, pws: Seq<Seq<char>>, n: int)
    requires
        0 <= n <= pws.len(),
        forall|j: int| 0 <= j < n ==> !is_fault(bytes, pws[j]) && !is_verified(bytes, pws[j]),
    ensures
        scan(bytes, pws) == scan(bytes, pws.skip(n)),
    decreases n,
{
    if n > 0 {
        assert(pws.drop_first() =~= pws.skip(1));
        lemma_scan_skip(bytes, pws.skip(1), n - 1);
        assert(pws.skip(1).skip(n - 1) =~= pws.skip(n));
    } else {
        assert(pws.skip(0) =~= pws);
    }
}

/// Scanning a concatenation scans the first part, and the second only when
/// the first finds nothing.
pub proof fn lemma_scan_append(bytes: Seq<u8>, a: Seq<Seq<char>>, b: Seq<Seq<char>>)
    ensures
        scan(bytes, a + b) == if scan(bytes, a) == Ok::<Option<Seq<char>>, ()>(None) {
            scan(bytes, b)
        } else {
            scan(bytes, a)
        },
    decreases a.len(),
{
    if a.len() == 0 {
        assert(a + b =~= b);
    } else {
        assert((a + b)[0] == a[0]);
        assert((a + b).drop_first() =~= a.drop_first() + b);
        lemma_scan_append(bytes, a.drop_first(), b);
    }
}

/// A found candidate is drawn from the scanned sequence and is verified.
pub proof fn lemma_scan_found(bytes: Seq<u8>, pws: Seq<Seq<char>>)
    ensures
        scan(bytes, pws) matches Ok(Some(p)) ==> pws.contains(p) && is_verified(bytes, p),
    decreases pws.len(),
{
    if pws.len() > 0 && !is_fault(bytes, pws[0]) && !is_verified(bytes, pws[0]) {
        lemma_scan_found(bytes, pws.drop_first());
        if scan(bytes, pws) is Ok && scan(bytes, pws)->Ok_0 is Some {
            let p = scan(bytes, pws)->Ok_0->Some_0;
            assert(pws.drop_first().contains(p));
            let i = choose|i: int|
                0 <= i < pws.drop_first().len() && pws.drop_first()[i] == p;
            assert(pws[i + 1] == p);
        }
    }
}

/// Over a fault-free candidate sequence the scan never errs, and it finds a
/// candidate exactly when a verified one exists.
pub proof fn lemma_scan_fault_free(bytes: Seq<u8>, pws: Seq<Seq<char>>)
    requires
        fault_free(bytes, pws),
    ensures
        !(scan(bytes, pws) is Err),
        scan(bytes, pws) == Ok::<Option<Seq<char>>, ()>(None) <==> !has_verified(bytes, pws),
    decreases pws.len(),
{
    if pws.len() > 0 {
        assert(!is_fault(bytes, pws[0]));
        if !is_verified(bytes, pws[0]) {
            assert(forall|i: int|
                0 <= i < pws.drop_first().len() ==> pws.drop_first()[i] == pws[i + 1]);
            lemma_scan_fault_free(bytes, pws.drop_first());
            assert(has_verified(bytes, pws) ==> has_verified(bytes, pws.drop_first())) by {
                if has_verified(bytes, pws) {
                    let i = choose|i: int|
                        0 <= i < pws.len() && is_verified(bytes, pws[i]);
                    assert(i != 0);
                    assert(pws.drop_first()[i - 1] == pws[i]);
                }
            }
        }
    }
}

/// When the dictionary holds exactly one verified password and no candidate
/// faults, the scan returns exactly that password, wherever it stands.
pub proof fn lemma_scan_unique(bytes: Seq<u8>, pws: Seq<Seq<char>>, k: int)
    requires
        fault_free(bytes, pws),
        0 <= k < pws.len(),
        is_verified(bytes, pws[k]),
        forall|j: int| 0 <= j < pws.len() && j != k ==> !is_verified(bytes, pws[j]),
    ensures
        scan(bytes, pws) == Ok::<Option<Seq<char>>, ()>(Some(pws[k])),
    decreases k,
{
    if k == 0 {
    } else {
        assert(forall|i: int|
            0 <= i < pws.drop_first().len() ==> pws.drop_first()[i] == pws[i + 1]);
        lemma_scan_unique(bytes, pws.drop_first(), k - 1);
    }
}

/// Whether a scan result delivers a found candidate.
pub open spec fn found(r: Result<Option<Seq<char>>, ()>) -> bool {
    r matches Ok(Some(_))
}

/// The search's verdict on a fault-free dictionary: a password is delivered
/// exactly when the dictionary holds a verified one, and whatever is
/// delivered is a verified password drawn from the dictionary.
pub proof fn lemma_search_verdict(bytes: Seq<u8>, lines: Seq<Seq<char>>)
    requires
        fault_free(bytes, lines),
    ensures
        found(scan(bytes, lines)) <==> has_verified(bytes, lines),
        scan(bytes, lines) matches Ok(Some(p)) ==> lines.contains(p) && is_verified(bytes, p),
{
    lemma_scan_fault_free(bytes, lines);
    lemma_scan_found(bytes, lines);
    let r = scan(bytes, lines);
    if has_verified(bytes, lines) {
        assert(r is Ok && !(r->Ok_0 is None));
        assert(r->Ok_0 is Some);
    }
}

/// What scanning a sequence of batches in order produces: scan each batch,
/// stop at the first that errs or finds a candidate.
pub open spec fn scan_batches(bytes: Seq<u8>, batches: Seq<Seq<Seq<char>>>) -> Result<
    Option<Seq<char>>,
    (),
>
    decreases batches.len(),
{
    if batches.len() == 0 {
        Ok(None)
    } else if scan(bytes, batches[0]) == Ok::<Option<Seq<char>>, ()>(None) {
        scan_batches(bytes, batches.drop_first())
    } else {
        scan(bytes, batches[0])
    }
}

/// Batching is invisible to the outcome: scanning batch by batch equals
/// scanning the flattened candidate sequence.
pub proof fn lemma_scan_batches_flatten(bytes: Seq<u8>, batches: Seq<Seq<Seq<char>>>)
    ensures
        scan_batches(bytes, batches) == scan(bytes, batches.flatten()),
    decreases batches.len(),
{
    if batches.len() > 0 {
        lemma_scan_batches_flatten(bytes, batches.drop_first());
        lemma_scan_append(bytes, batches[0], batches.drop_first().flatten());
        assert(batches.flatten() == batches[0] + batches.drop_first().flatten());
    }
}

/// Scanning batches ignores a prefix of batches that find nothing.
pub proof fn lemma_scan_batches_skip(bytes: Seq<u8>, batches: Seq<Seq<Seq<char>>>, n: int)
    requires
        0 <= n <= batches.len(),
        forall|j: int|
            0 <= j < n ==> scan(bytes, batches[j]) == Ok::<Option<Seq<char>>, ()>(None),
    ensures
        scan_batches(bytes, batches) == scan_batches(bytes, batches.skip(n)),
    decreases n,
{
    if n > 0 {
        assert(batches.drop_first() =~= batches.skip(1));
        lemma_scan_batches_skip(bytes, batches.skip(1), n - 1);
        assert(batches.skip(1).skip(n - 1) =~= batches.skip(n));
    } else {
        assert(batches.skip(0) =~= batches);
    }
}

/// A candidate stands in the flattened batches exactly when some batch holds
/// it.
pub proof fn lemma_flatten_membership(batches: Seq<Seq<Seq<char>>>)
    ensures
        forall|p: Seq<char>|
            #[trigger] batches.flatten().contains(p) <==> exists|w: int|
                0 <= w < batches.len() && #[trigger] batches[w].contains(p),
    decreases batches.len(),
{
    if batches.len() == 0 {
    } else {
        let head = batches[0];
        let rest = batches.drop_first();
        lemma_flatten_membership(rest);
        assert(batches.flatten() == head + rest.flatten());
        assert forall|p: Seq<char>| #[trigger] batches.flatten().contains(p) implies exists|w: int|
            0 <= w < batches.len() && #[trigger] batches[w].contains(p) by {
            let i = choose|i: int|
                0 <= i < batches.flatten().len() && batches.flatten()[i] == p;
            if i < head.len() {
                assert(head[i] == p);
                assert(batches[0].contains(p));
            } else {
                assert(rest.flatten()[i - head.len()] == p);
                assert(rest.flatten().contains(p));
                let w = choose|w: int| 0 <= w < rest.len() && #[trigger] rest[w].contains(p);
                assert(batches[w + 1].contains(p));
            }
        }
        assert forall|p: Seq<char>|
            exists|w: int|
                0 <= w < batches.len() && #[trigger] batches[w].contains(p) implies #[trigger]
            batches.flatten().contains(p) by {
            let w = choose|w: int| 0 <= w < batches.len() && #[trigger] batches[w].contains(p);
            let j = choose|j: int| 0 <= j < batches[w].len() && batches[w][j] == p;
            if w == 0 {
                assert(batches.flatten()[j] == p);
            } else {
                assert(rest[w - 1].contains(p));
                assert(rest.flatten().contains(p));
                let k = choose|k: int|
                    0 <= k < rest.flatten().len() && rest.flatten()[k] == p;
                assert(batches.flatten()[head.len() + k] == p);
            }
        }
    }
}

/// Distributing the candidates over batches in any order and number is
/// invisible to the found/not-found outcome: over batches that cover exactly
/// the dictionary's candidates, some batch finds a candidate exactly when the
/// dictionary holds a verified password, provided no candidate faults.
pub proof fn lemma_distribution_independent(
    bytes: Seq<u8>,
    batches: Seq<Seq<Seq<char>>>,
    lines: Seq<Seq<char>>,
)
    requires
        fault_free(bytes, lines),
        forall|p: Seq<char>|
            #[trigger] batches.flatten().contains(p) <==> #[trigger] lines.contains(p),
    ensures
        (exists|w: int| 0 <= w < batches.len() && found(scan(bytes, #[trigger] batches[w])))
            <==> has_verified(bytes, lines),
{
    lemma_flatten_membership(batches);
    if exists|w: int| 0 <= w < batches.len() && found(scan(bytes, #[trigger] batches[w])) {
        let w = choose|w: int| 0 <= w < batches.len() && found(scan(bytes, #[trigger] batches[w]));
        lemma_scan_found(bytes, batches[w]);
        let p = scan(bytes, batches[w])->Ok_0->Some_0;
        assert(batches[w].contains(p) && is_verified(bytes, p));
        assert(batches.flatten().contains(p));
        assert(lines.contains(p));
        let i = choose|i: int| 0 <= i < lines.len() && lines[i] == p;
        assert(is_verified(bytes, lines[i]));
        assert(has_verified(bytes, lines));
    }
    if has_verified(bytes, lines) {
        let i = choose|i: int| 0 <= i < lines.len() && is_verified(bytes, lines[i]);
        let p = lines[i];
        assert(lines.contains(p));
        assert(batches.flatten().contains(p));
        let w = choose|w: int| 0 <= w < batches.len() && #[trigger] batches[w].contains(p);
        assert(fault_free(bytes, batches[w])) by {
            assert forall|j: int| 0 <= j < batches[w].len() implies !is_fault(
                bytes,
                batches[w][j],
            ) by {
                assert(batches[w].contains(batches[w][j]));
                assert(batches.flatten().contains(batches[w][j]));
                assert(lines.contains(batches[w][j]));
                let k = choose|k: int|
                    0 <= k < lines.len() && lines[k] == batches[w][j];
                assert(!is_fault(bytes, lines[k]));
            }
        }
        assert(has_verified(bytes, batches[w])) by {
            let j = choose|j: int| 0 <= j < batches[w].len() && batches[w][j] == p;
            assert(is_verified(bytes, batches[w][j]));
        }
        lemma_scan_fault_free(bytes, batches[w]);
        assert(found(scan(bytes, batches[w])));
    }
}

} // verus!
