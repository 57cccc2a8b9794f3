//! Exhaustive search of the candidate cross product under a fixed algorithm.
use crate::digest::{salted, HashAlg};
use crate::results::{Pair, ResultMap};
use rayon::prelude::{IntoParallelRefIterator, ParallelIterator};
use vstd::prelude::*;

verus! {

/// `t` is the view of some element of `v`.
pub open spec fn listed(v: Seq<String>, t: Seq<char>) -> bool {
    exists|i: int| 0 <= i < v.len() && #[trigger] v[i]@ == t
}

/// `m` holds only true matches: each key is a target, produced by a pair of
/// candidates under `alg`.
pub open spec fn sound(
    alg: HashAlg,
    targets: Seq<String>,
    words: Seq<String>,
    m: Map<Seq<char>, Pair>,
) -> bool {
    forall|d: Seq<char>| #[trigger]
        m.contains_key(d) ==> listed(targets, d) && listed(words, m[d].0) && listed(words, m[d].1)
            && salted(alg, m[d].0, m[d].1) == d
}

/// The result of the row of `password`: true matches with that password,
/// and every target that the row reaches.
pub open spec fn row_result(
    alg: HashAlg,
    targets: Seq<String>,
    password: Seq<char>,
    words: Seq<String>,
    m: Map<Seq<char>, Pair>,
) -> bool {
    &&& forall|d: Seq<char>| #[trigger]
        m.contains_key(d) ==> listed(targets, d) && m[d].0 == password && listed(words, m[d].1)
            && salted(alg, m[d].0, m[d].1) == d
    &&& forall|j: int|
        0 <= j < words.len() && listed(targets, #[trigger] salted(alg, password, words[j]@))
            ==> m.contains_key(salted(alg, password, words[j]@))
}

/// The result of the whole search: true matches, and every target that some
/// ordered pair of candidates reaches.
pub open spec fn search_result(
    alg: HashAlg,
    targets: Seq<String>,
    words: Seq<String>,
    m: Map<Seq<char>, Pair>,
) -> bool {
    &&& sound(alg, targets, words, m)
    &&& forall|i: int, j: int|
        0 <= i < words.len() && 0 <= j < words.len() && listed(
            targets,
            #[trigger] salted(alg, words[i]@, words[j]@),
        ) ==> m.contains_key(salted(alg, words[i]@, words[j]@))
}

/// Whether `t` is an element of `v`.
pub fn is_listed(v: &Vec<String>, t: &String) -> (r: bool)
    ensures
        r == listed(v@, t@),
{
    let n = v.len();
    let mut i: usize = 0;
    while i < n
        invariant
            n == v@.len(),
            i <= n,
            forall|j: int| 0 <= j < i ==> #[trigger] v@[j]@ != t@,
        decreases n - i,
    {
        if v[i].eq(t) {
            return true;
        }
        i = i + 1;
    }
    false
}

/// Hashes `password` with every candidate salt and records the targets hit.
pub fn search_row(alg: HashAlg, targets: &Vec<String>, password: &String, words: &Vec<String>) -> (r:
    ResultMap)
    ensures
        r.wf(),
        row_result(alg, targets@, password@, words@, r@),
{
    let mut found = ResultMap::new();
    let n = words.len();
    let mut j: usize = 0;
    while j < n
        invariant
            n == words@.len(),
            j <= n,
            found.wf(),
            forall|d: Seq<char>| #[trigger]
                found@.contains_key(d) ==> listed(targets@, d) && found@[d].0 == password@
                    && listed(words@, found@[d].1) && salted(alg, found@[d].0, found@[d].1) == d,
            forall|k: int|
                0 <= k < j && listed(targets@, #[trigger] salted(alg, password@, words@[k]@))
                    ==> found@.contains_key(salted(alg, password@, words@[k]@)),
        decreases n - j,
    {
        let salt = &words[j];
        let hash = alg.create_hash(password.as_str(), salt.as_str());
        if is_listed(targets, &hash) {
            assert(listed(words@, salt@)) by {
                assert(words@[j as int]@ == salt@);
            }
            found.insert(hash, password.clone(), salt.clone());
        }
        j = j + 1;
    }
    found
}

/// Relies on rayon's `par_iter().map(..).collect()` into a `Vec`: one result
/// per candidate, in the candidates' order; each is what `search_row` returns.
#[verifier::external_body]
fn search_rows(alg: HashAlg, targets: &Vec<String>, words: &Vec<String>) -> (r: Vec<ResultMap>)
    ensures
        r@.len() == words@.len(),
        forall|i: int|
            0 <= i < r@.len() ==> #[trigger] r@[i].wf() && row_result(
                alg,
                targets@,
                words@[i]@,
                words@,
                r@[i]@,
            ),
{
    words.par_iter().map(|p| search_row(alg, targets, p, words)).collect()
}

/// Hashes every ordered (password, salt) pair of candidates under `alg` and
/// records each target digest reached, with a pair that reaches it. The rows
/// run in parallel; their results are merged afterwards.
pub fn cracking_time(alg: &HashAlg, targets: &Vec<String>, words: &Vec<String>) -> (r: ResultMap)
    ensures
        r.wf(),
        search_result(*alg, targets@, words@, r@),
{
    let rows = search_rows(*alg, targets, words);
    let mut found = ResultMap::new();
    let n = rows.len();
    let mut i: usize = 0;
    while i < n
        invariant
            n == rows@.len(),
            n == words@.len(),
            i <= n,
            found.wf(),
            sound(*alg, targets@, words@, found@),
            forall|i: int|
                0 <= i < rows@.len() ==> #[trigger] rows@[i].wf() && row_result(
                    *alg,
                    targets@,
                    words@[i]@,
                    words@,
                    rows@[i]@,
                ),
            forall|a: int, b: int|
                0 <= a < i && 0 <= b < words@.len() && listed(
                    targets@,
                    #[trigger] salted(*alg, words@[a]@, words@[b]@),
                ) ==> found@.contains_key(salted(*alg, words@[a]@, words@[b]@)),
        decreases n - i,
    {
        let ghost before = found@;
        let row = &rows[i];
        assert(row.wf() && row_result(*alg, targets@, words@[i as int]@, words@, row@));
        found.merge(row);
        proof {
            assert forall|d: Seq<char>| #[trigger] found@.contains_key(d) implies listed(targets@, d)
                && listed(words@, found@[d].0) && listed(words@, found@[d].1) && salted(
                *alg,
                found@[d].0,
                found@[d].1,
            ) == d by {
                if row@.contains_key(d) {
                    assert(words@[i as int]@ == row@[d].0);
                }
            }
        }
        i = i + 1;
    }
    found
}

/// Round trip: when a target digest is the digest of a pair of candidates,
/// the search result holds that digest, mapped to a pair of candidates that
/// produces it.
pub proof fn lemma_round_trip(
    alg: HashAlg,
    targets: Seq<String>,
    words: Seq<String>,
    m: Map<Seq<char>, Pair>,
    password: Seq<char>,
    salt: Seq<char>,
)
    requires
        search_result(alg, targets, words, m),
        listed(words, password),
        listed(words, salt),
        listed(targets, salted(alg, password, salt)),
    ensures
        m.contains_key(salted(alg, password, salt)),
        salted(alg, m[salted(alg, password, salt)].0, m[salted(alg, password, salt)].1) == salted(
            alg,
            password,
            salt,
        ),
        listed(words, m[salted(alg, password, salt)].0),
        listed(words, m[salted(alg, password, salt)].1),
{
    let i = choose|i: int| 0 <= i < words.len() && #[trigger] words[i]@ == password;
    let j = choose|j: int| 0 <= j < words.len() && #[trigger] words[j]@ == salt;
    assert(salted(alg, words[i]@, words[j]@) == salted(alg, password, salt));
}

/// With no candidates the search finds nothing, whatever the targets.
pub proof fn lemma_no_candidates(
    alg: HashAlg,
    targets: Seq<String>,
    words: Seq<String>,
    m: Map<Seq<char>, Pair>,
)
    requires
        search_result(alg, targets, words, m),
        words.len() == 0,
    ensures
        m == Map::<Seq<char>, Pair>::empty(),
{
    assert forall|d: Seq<char>| !m.contains_key(d) by {
        if m.contains_key(d) {
            assert(listed(words, m[d].0));
        }
    }
    assert(m =~= Map::<Seq<char>, Pair>::empty());
}

/// A target that no ordered pair of candidates produces is absent from the
/// search result.
pub proof fn lemma_unreachable_absent(
    alg: HashAlg,
    targets: Seq<String>,
    words: Seq<String>,
    m: Map<Seq<char>, Pair>,
    d: Seq<char>,
)
    requires
        search_result(alg, targets, words, m),
        forall|i: int, j: int|
            0 <= i < words.len() && 0 <= j < words.len() ==> #[trigger] salted(alg, words[i]@, words[j]@) != d,
    ensures
        !m.contains_key(d),
{
    if m.contains_key(d) {
        let i = choose|i: int| 0 <= i < words.len() && #[trigger] words[i]@ == m[d].0;
        let j = choose|j: int| 0 <= j < words.len() && #[trigger] words[j]@ == m[d].1;
        assert(salted(alg, words[i]@, words[j]@) == d);
    }
}

} // verus!
