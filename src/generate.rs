//! Synthetic target digests: sampled candidates hashed with sampled salts.
use crate::digest::{salted, HashAlg};
use crate::results::Pair;
use crate::search::{lemma_round_trip, listed, search_result};
use rand::seq::SliceRandom;
use vstd::prelude::*;

verus! {

/// `d` is the digest under `alg` of some ordered pair of candidates.
pub open spec fn produced(alg: HashAlg, words: Seq<String>, d: Seq<char>) -> bool {
    exists|p: Seq<char>, s: Seq<char>|
        listed(words, p) && listed(words, s) && d == #[trigger] salted(alg, p, s)
}

/// Relies on rand's `SliceRandom::choose_multiple` with `thread_rng`: it
/// yields `min(amount, len)` elements of the slice, each drawn from it.
#[verifier::external_body]
fn choose_passwords(words: &Vec<String>, amount: usize) -> (r: Vec<String>)
    ensures
        r@.len() == if amount < words@.len() {
            amount as int
        } else {
            words@.len() as int
        },
        forall|i: int| 0 <= i < r@.len() ==> listed(words@, #[trigger] r@[i]@),
{
    words.choose_multiple(&mut rand::thread_rng(), amount).cloned().collect()
}

/// Relies on rand's `SliceRandom::choose` with `thread_rng`: `None` exactly
/// for an empty slice, else one of its elements.
#[verifier::external_body]
fn choose_salt(words: &Vec<String>) -> (r: Option<String>)
    ensures
        r is None <==> words@.len() == 0,
        r matches Some(s) ==> listed(words@, s@),
{
    words.choose(&mut rand::thread_rng()).cloned()
}

/// Samples up to `num` distinct candidate positions as passwords, pairs each
/// with a sampled candidate salt and returns their digests under `alg`.
pub fn hash_passwords(alg: &HashAlg, words: &Vec<String>, num: usize) -> (r: Vec<String>)
    ensures
        r@.len() == if num < words@.len() {
            num as int
        } else {
            words@.len() as int
        },
        forall|i: int| 0 <= i < r@.len() ==> produced(*alg, words@, #[trigger] r@[i]@),
{
    let passwords = choose_passwords(words, num);
    let mut hashes: Vec<String> = Vec::new();
    let n = passwords.len();
    let mut i: usize = 0;
    while i < n
        invariant
            n == passwords@.len(),
            n == if num < words@.len() {
                num as int
            } else {
                words@.len() as int
            },
            i <= n,
            hashes@.len() == i,
            forall|k: int| 0 <= k < passwords@.len() ==> listed(words@, #[trigger] passwords@[k]@),
            forall|k: int| 0 <= k < i ==> produced(*alg, words@, #[trigger] hashes@[k]@),
        decreases n - i,
    {
        let password = &passwords[i];
        assert(listed(words@, passwords@[i as int]@));
        match choose_salt(words) {
            Some(salt) => {
                let hash = alg.create_hash(password.as_str(), salt.as_str());
                let ghost old_hashes = hashes@;
                hashes.push(hash);
                proof {
                    assert(listed(words@, password@) && listed(words@, salt@) && hashes@[i as int]@
                        == salted(*alg, password@, salt@));
                    assert(produced(*alg, words@, hashes@[i as int]@));
                    assert forall|k: int| 0 <= k < i + 1 implies produced(*alg, words@, #[trigger] hashes@[k]@) by {
                        if k < i {
                            assert(hashes@[k] == old_hashes[k]);
                        }
                    }
                }
            },
            None => {
                proof {
                    assert(words@.len() > 0);
                    assert(false);
                }
                return hashes;
            },
        }
        i = i + 1;
    }
    hashes
}

/// A digest that the generator produced from the candidates, given to the
/// search as a target over the same candidates, is recovered: the result maps
/// it to a pair of candidates whose digest it is.
pub proof fn lemma_generated_recovered(
    alg: HashAlg,
    targets: Seq<String>,
    words: Seq<String>,
    m: Map<Seq<char>, Pair>,
    d: Seq<char>,
)
    requires
        produced(alg, words, d),
        listed(targets, d),
        search_result(alg, targets, words, m),
    ensures
        m.contains_key(d),
        salted(alg, m[d].0, m[d].1) == d,
        listed(words, m[d].0),
        listed(words, m[d].1),
{
    let (p, s) = choose|p: Seq<char>, s: Seq<char>|
        listed(words, p) && listed(words, s) && d == #[trigger] salted(alg, p, s);
    lemma_round_trip(alg, targets, words, m, p, s);
}

} // verus!
