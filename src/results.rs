//! Matches found by a search, keyed by digest.
use vstd::prelude::*;

verus! {

/// A recovered pair: `digest` is the digest of `password || salt`.
#[derive(Debug)]
pub struct Match {
    pub digest: String,
    pub password: String,
    pub salt: String,
}

/// The (password, salt) pair that a digest maps to.
pub type Pair = (Seq<char>, Seq<char>);

/// Map from digest to the pair that produced it; inserting a digest that is
/// already present overwrites its pair.
pub struct ResultMap {
    entries: Vec<Match>,
    contents: Ghost<Map<Seq<char>, Pair>>,
}

impl View for ResultMap {
    type V = Map<Seq<char>, Pair>;

    closed spec fn view(&self) -> Map<Seq<char>, Pair> {
        self.contents@
    }
}

impl ResultMap {
    /// The entries hold each key once and agree with the map.
    pub closed spec fn wf(&self) -> bool {
        &&& forall|i: int, j: int|
            0 <= i < j < self.entries@.len() ==> #[trigger] self.entries@[i].digest@
                != #[trigger] self.entries@[j].digest@
        &&& forall|i: int|
            0 <= i < self.entries@.len() ==> self.contents@.contains_key(
                #[trigger] self.entries@[i].digest@,
            ) && self.contents@[self.entries@[i].digest@] == (
                self.entries@[i].password@,
                self.entries@[i].salt@,
            )
        &&& forall|d: Seq<char>| #[trigger]
            self.contents@.contains_key(d) ==> exists|i: int|
                0 <= i < self.entries@.len() && #[trigger] self.entries@[i].digest@ == d
    }

    /// An empty map.
    pub fn new() -> (r: ResultMap)
        ensures
            r.wf(),
            r@ == Map::<Seq<char>, Pair>::empty(),
    {
        ResultMap { entries: Vec::new(), contents: Ghost(Map::empty()) }
    }

    /// Inserts `digest -> (password, salt)`, overwriting an earlier pair.
    pub fn insert(&mut self, digest: String, password: String, salt: String)
        requires
            old(self).wf(),
        ensures
            final(self).wf(),
            final(self)@ == old(self)@.insert(digest@, (password@, salt@)),
    {
        let ghost key = digest@;
        let ghost pair = (password@, salt@);
        let n = self.entries.len();
        let mut i: usize = 0;
        while i < n
            invariant
                n == self.entries@.len(),
                i <= n,
                self.wf(),
                self == old(self),
                key == digest@,
                pair == (password@, salt@),
                forall|j: int| 0 <= j < i ==> #[trigger] self.entries@[j].digest@ != key,
            decreases n - i,
        {
            if self.entries[i].digest.eq(&digest) {
                let ghost before = self.entries@;
                let ghost before_map = self.contents@;
                self.entries.set(i, Match { digest, password, salt });
                self.contents = Ghost(self.contents@.insert(key, pair));
                proof {
                    assert forall|j: int| 0 <= j < self.entries@.len() implies self.contents@.contains_key(
                        #[trigger] self.entries@[j].digest@,
                    ) && self.contents@[self.entries@[j].digest@] == (
                        self.entries@[j].password@,
                        self.entries@[j].salt@,
                    ) by {
                        if j != i {
                            assert(before[j] == self.entries@[j]);
                            assert(before[j].digest@ != before[i as int].digest@);
                            assert(before_map.contains_key(before[j].digest@));
                            assert(before_map[before[j].digest@] == (before[j].password@, before[j].salt@));
                        } else {
                            assert(self.entries@[j].digest@ == key);
                            assert(self.entries@[j].password@ == pair.0);
                            assert(self.entries@[j].salt@ == pair.1);
                        }
                    }
                    assert forall|d: Seq<char>| #[trigger]
                        self.contents@.contains_key(d) implies exists|j: int|
                        0 <= j < self.entries@.len() && #[trigger] self.entries@[j].digest@ == d by {
                        if d != key {
                            let j = choose|j: int| 0 <= j < before.len() && #[trigger] before[j].digest@ == d;
                            assert(self.entries@[j].digest@ == d);
                        } else {
                            assert(self.entries@[i as int].digest@ == d);
                        }
                    }
                }
                return;
            }
            i = i + 1;
        }
        let ghost before = self.entries@;
        self.entries.push(Match { digest, password, salt });
        self.contents = Ghost(self.contents@.insert(key, pair));
        proof {
            assert forall|j: int| 0 <= j < self.entries@.len() implies self.contents@.contains_key(
                #[trigger] self.entries@[j].digest@,
            ) && self.contents@[self.entries@[j].digest@] == (
                self.entries@[j].password@,
                self.entries@[j].salt@,
            ) by {
                if j < n {
                    assert(before[j] == self.entries@[j]);
                }
            }
            assert forall|d: Seq<char>| #[trigger]
                self.contents@.contains_key(d) implies exists|j: int|
                0 <= j < self.entries@.len() && #[trigger] self.entries@[j].digest@ == d by {
                if d != key {
                    let j = choose|j: int| 0 <= j < before.len() && #[trigger] before[j].digest@ == d;
                    assert(self.entries@[j].digest@ == d);
                } else {
                    assert(self.entries@[n as int].digest@ == d);
                }
            }
        }
    }

    /// The match recorded for `digest`, if any.
    pub fn get(&self, digest: &String) -> (r: Option<&Match>)
        requires
            self.wf(),
        ensures
            r is Some <==> self@.contains_key(digest@),
            r matches Some(m) ==> m.digest@ == digest@ && self@[digest@] == (
                m.password@,
                m.salt@,
            ),
    {
        let n = self.entries.len();
        let mut i: usize = 0;
        while i < n
            invariant
                n == self.entries@.len(),
                i <= n,
                self.wf(),
                forall|j: int| 0 <= j < i ==> #[trigger] self.entries@[j].digest@ != digest@,
            decreases n - i,
        {
            if self.entries[i].digest.eq(digest) {
                return Some(&self.entries[i]);
            }
            i = i + 1;
        }
        None
    }

    /// Every match, each digest once.
    pub fn matches(&self) -> (r: &Vec<Match>)
        requires
            self.wf(),
        ensures
            forall|i: int, j: int|
                0 <= i < j < r@.len() ==> #[trigger] r@[i].digest@ != #[trigger] r@[j].digest@,
            forall|i: int|
                0 <= i < r@.len() ==> self@.contains_key(#[trigger] r@[i].digest@)
                    && self@[r@[i].digest@] == (r@[i].password@, r@[i].salt@),
            forall|d: Seq<char>| #[trigger]
                self@.contains_key(d) ==> exists|i: int|
                    0 <= i < r@.len() && #[trigger] r@[i].digest@ == d,
    {
        &self.entries
    }

    /// Adds every match of `other`; its pairs win over those already here.
    pub fn merge(&mut self, other: &ResultMap)
        requires
            old(self).wf(),
            other.wf(),
        ensures
            final(self).wf(),
            final(self)@ == old(self)@.union_prefer_right(other@),
    {
        let n = other.entries.len();
        let mut i: usize = 0;
        while i < n
            invariant
                n == other.entries@.len(),
                i <= n,
                other.wf(),
                self.wf(),
                forall|d: Seq<char>|
                    #[trigger] self@.contains_key(d) <==> (old(self)@.contains_key(d) || exists|j: int|
                        0 <= j < i && #[trigger] other.entries@[j].digest@ == d),
                forall|d: Seq<char>|
                    #[trigger] self@.contains_key(d) ==> self@[d] == if exists|j: int|
                        0 <= j < i && #[trigger] other.entries@[j].digest@ == d {
                        other@[d]
                    } else {
                        old(self)@[d]
                    },
            decreases n - i,
        {
            let e = &other.entries[i];
            let ghost k = e.digest@;
            assert(other@.contains_key(k) && other@[k] == (e.password@, e.salt@));
            self.insert(e.digest.clone(), e.password.clone(), e.salt.clone());
            proof {
                assert forall|d: Seq<char>|
                    #[trigger] self@.contains_key(d) <==> (old(self)@.contains_key(d) || exists|j: int|
                        0 <= j < i + 1 && #[trigger] other.entries@[j].digest@ == d) by {
                    if exists|j: int| 0 <= j < i + 1 && #[trigger] other.entries@[j].digest@ == d {
                        if d != k {
                            let j = choose|j: int| 0 <= j < i + 1 && #[trigger] other.entries@[j].digest@ == d;
                            assert(j < i);
                        }
                    }
                }
                assert forall|d: Seq<char>|
                    #[trigger] self@.contains_key(d) implies self@[d] == if exists|j: int|
                        0 <= j < i + 1 && #[trigger] other.entries@[j].digest@ == d {
                        other@[d]
                    } else {
                        old(self)@[d]
                    } by {
                    if d == k {
                        assert(other.entries@[i as int].digest@ == d);
                    } else {
                        if exists|j: int| 0 <= j < i + 1 && #[trigger] other.entries@[j].digest@ == d {
                            let j = choose|j: int| 0 <= j < i + 1 && #[trigger] other.entries@[j].digest@ == d;
                            assert(j < i);
                        }
                    }
                }
            }
            i = i + 1;
        }
        proof {
            assert forall|d: Seq<char>| #[trigger] other@.contains_key(d) implies exists|j: int|
                0 <= j < n && #[trigger] other.entries@[j].digest@ == d by {
            }
            assert(self@ =~= old(self)@.union_prefer_right(other@));
        }
    }
}

} // verus!
