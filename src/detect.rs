//! Detection of the algorithm that produced a set of target digests.
use crate::digest::{alg_at, rank, salted, HashAlg};
use crate::search::{is_listed, listed};
use rayon::prelude::{IntoParallelRefIterator, ParallelIterator};
use vstd::prelude::*;

verus! {

/// Detection found no (pair, algorithm) combination that reaches a target.
#[derive(Clone, Copy, Debug, PartialEq, Eq, Structural)]
pub enum DetectError {
    NoAlgorithmMatches,
}

/// `alg` maps `password || salt` to a target digest.
pub open spec fn hits(alg: HashAlg, targets: Seq<String>, password: Seq<char>, salt: Seq<char>) -> bool {
    listed(targets, salted(alg, password, salt))
}

/// `alg` is the first algorithm, in detection order, that maps the pair to a target.
pub open spec fn first_hit(
    alg: HashAlg,
    targets: Seq<String>,
    password: Seq<char>,
    salt: Seq<char>,
) -> bool {
    hits(alg, targets, password, salt) && forall|b: HashAlg|
        rank(b) < rank(alg) ==> !#[trigger] hits(b, targets, password, salt)
}

/// Some salt among the candidates makes `alg` the first algorithm to hit
/// with `password`.
pub open spec fn row_detects(
    alg: HashAlg,
    targets: Seq<String>,
    password: Seq<char>,
    words: Seq<String>,
) -> bool {
    exists|j: int| 0 <= j < words.len() && #[trigger] first_hit(alg, targets, password, words[j]@)
}

/// No algorithm hits with `password` and any candidate salt.
pub open spec fn row_silent(targets: Seq<String>, password: Seq<char>, words: Seq<String>) -> bool {
    forall|j: int, b: HashAlg| 0 <= j < words.len() ==> !#[trigger] hits(b, targets, password, words[j]@)
}

/// What detection over the whole cross product may return: an algorithm that
/// is the first to hit on some ordered pair of candidates, or an error exactly
/// when no algorithm hits on any pair.
pub open spec fn detected(targets: Seq<String>, words: Seq<String>, r: Result<HashAlg, DetectError>) -> bool {
    match r {
        Ok(a) => exists|i: int, j: int|
            0 <= i < words.len() && 0 <= j < words.len() && #[trigger] first_hit(
                a,
                targets,
                words[i]@,
                words[j]@,
            ),
        Err(_) => forall|i: int, j: int, b: HashAlg|
            0 <= i < words.len() && 0 <= j < words.len() ==> !#[trigger] hits(
                b,
                targets,
                words[i]@,
                words[j]@,
            ),
    }
}

/// Tries every candidate salt with `password`, and for each salt every
/// algorithm in detection order; returns the first algorithm that hits.
pub fn detect_row(targets: &Vec<String>, password: &String, words: &Vec<String>) -> (r: Option<
    HashAlg,
>)
    ensures
        match r {
            Some(a) => row_detects(a, targets@, password@, words@),
            None => row_silent(targets@, password@, words@),
        },
{
    let algs = HashAlg::all();
    let n = words.len();
    let mut j: usize = 0;
    while j < n
        invariant
            n == words@.len(),
            j <= n,
            algs@.len() == 7,
            forall|k: int| 0 <= k < 7 ==> #[trigger] algs@[k] == alg_at(k) && rank(algs@[k]) == k,
            forall|k: int, b: HashAlg| 0 <= k < j ==> !#[trigger] hits(b, targets@, password@, words@[k]@),
        decreases n - j,
    {
        let salt = &words[j];
        let mut k: usize = 0;
        while k < 7
            invariant
                k <= 7,
                j < n,
                n == words@.len(),
                salt@ == words@[j as int]@,
                algs@.len() == 7,
                forall|q: int| 0 <= q < 7 ==> #[trigger] algs@[q] == alg_at(q) && rank(algs@[q]) == q,
                forall|b: HashAlg| rank(b) < k ==> !#[trigger] hits(b, targets@, password@, salt@),
            decreases 7 - k,
        {
            let alg = algs[k];
            let hash = alg.create_hash(password.as_str(), salt.as_str());
            if is_listed(targets, &hash) {
                assert(first_hit(alg, targets@, password@, words@[j as int]@));
                return Some(alg);
            }
            proof {
                assert forall|b: HashAlg| rank(b) < k + 1 implies !#[trigger] hits(b, targets@, password@, salt@) by {
                    if rank(b) == k {
                        assert(b == alg);
                    }
                }
            }
            k = k + 1;
        }
        proof {
            assert forall|q: int, b: HashAlg| 0 <= q < j + 1 implies !#[trigger] hits(b, targets@, password@, words@[q]@) by {
                if q == j {
                    assert(rank(b) < 7);
                }
            }
        }
        j = j + 1;
    }
    None
}

/// Relies on rayon's `par_iter().find_map_any(..)`: it returns some non-`None`
/// result of the closure, and `None` only when every call returned `None`;
/// each call returns what `detect_row` returns.
#[verifier::external_body]
fn detect_rows(targets: &Vec<String>, words: &Vec<String>) -> (r: Option<HashAlg>)
    ensures
        match r {
            Some(a) => exists|i: int| 0 <= i < words@.len() && #[trigger] row_detects(a, targets@, words@[i]@, words@),
            None => forall|i: int| 0 <= i < words@.len() ==> #[trigger] row_silent(targets@, words@[i]@, words@),
        },
{
    words.par_iter().find_map_any(|p| detect_row(targets, p, words))
}

/// Finds an algorithm under which some ordered pair of candidates reaches a
/// target digest. Rows are searched in parallel and the first hit found
/// wins, so when several algorithms hit, any of them may come back.
pub fn find_alg(targets: &Vec<String>, words: &Vec<String>) -> (r: Result<HashAlg, DetectError>)
    ensures
        detected(targets@, words@, r),
{
    match detect_rows(targets, words) {
        Some(a) => {
            proof {
                let i = choose|i: int| 0 <= i < words@.len() && #[trigger] row_detects(a, targets@, words@[i]@, words@);
                let j = choose|j: int| 0 <= j < words@.len() && #[trigger] first_hit(a, targets@, words@[i]@, words@[j]@);
                assert(first_hit(a, targets@, words@[i]@, words@[j]@));
            }
            Ok(a)
        },
        None => {
            proof {
                assert forall|i: int, j: int, b: HashAlg|
                    0 <= i < words@.len() && 0 <= j < words@.len() implies !#[trigger] hits(
                    b,
                    targets@,
                    words@[i]@,
                    words@[j]@,
                ) by {
                    assert(row_silent(targets@, words@[i]@, words@));
                }
            }
            Err(DetectError::NoAlgorithmMatches)
        },
    }
}

/// When the targets are reached under `alg` by some ordered pair of
/// candidates and under no other algorithm by any pair, detection returns
/// `alg`.
pub proof fn lemma_detects_sole_algorithm(
    alg: HashAlg,
    targets: Seq<String>,
    words: Seq<String>,
    r: Result<HashAlg, DetectError>,
)
    requires
        detected(targets, words, r),
        exists|i: int, j: int|
            0 <= i < words.len() && 0 <= j < words.len() && #[trigger] hits(alg, targets, words[i]@, words[j]@),
        forall|i: int, j: int, b: HashAlg|
            0 <= i < words.len() && 0 <= j < words.len() && b != alg ==> !#[trigger] hits(
                b,
                targets,
                words[i]@,
                words[j]@,
            ),
    ensures
        r == Ok::<HashAlg, DetectError>(alg),
{
    let (i, j) = choose|i: int, j: int|
        0 <= i < words.len() && 0 <= j < words.len() && #[trigger] hits(alg, targets, words[i]@, words[j]@);
    match r {
        Ok(a) => {
            let (p, q) = choose|p: int, q: int|
                0 <= p < words.len() && 0 <= q < words.len() && #[trigger] first_hit(a, targets, words[p]@, words[q]@);
            assert(hits(a, targets, words[p]@, words[q]@));
        },
        Err(_) => {
            assert(!hits(alg, targets, words[i]@, words[j]@));
        },
    }
}

} // verus!
