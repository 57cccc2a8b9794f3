//! The supported digest algorithms: `hash(password || salt)`, hex-encoded.
use md5::{Digest, Md5};
use sha1::Sha1;
use sha2::{Sha224, Sha256, Sha384, Sha512};
use vstd::prelude::*;
use whirlpool::Whirlpool;

verus! {

/// Lowercase hex MD5 digest of the UTF-8 bytes of a text.
pub uninterp spec fn md5_hex(t: Seq<char>) -> Seq<char>;

/// Lowercase hex SHA-1 digest of the UTF-8 bytes of a text.
pub uninterp spec fn sha1_hex(t: Seq<char>) -> Seq<char>;

/// Lowercase hex SHA-224 digest of the UTF-8 bytes of a text.
pub uninterp spec fn sha224_hex(t: Seq<char>) -> Seq<char>;

/// Lowercase hex SHA-256 digest of the UTF-8 bytes of a text.
pub uninterp spec fn sha256_hex(t: Seq<char>) -> Seq<char>;

/// Lowercase hex SHA-384 digest of the UTF-8 bytes of a text.
pub uninterp spec fn sha384_hex(t: Seq<char>) -> Seq<char>;

/// Lowercase hex SHA-512 digest of the UTF-8 bytes of a text.
pub uninterp spec fn sha512_hex(t: Seq<char>) -> Seq<char>;

/// Lowercase hex Whirlpool digest of the UTF-8 bytes of a text.
pub uninterp spec fn whirlpool_hex(t: Seq<char>) -> Seq<char>;

/// Unicode lowercase mapping of a text.
pub uninterp spec fn lower_of(t: Seq<char>) -> Seq<char>;

/// A supported digest algorithm.
#[derive(Clone, Copy, Debug, PartialEq, Eq, Structural)]
pub enum HashAlg {
    Md5,
    Sha1,
    Sha224,
    Sha256,
    Sha384,
    Sha512,
    Whirlpool,
}

/// The digest that `alg` gives for a text.
pub open spec fn digest_of(alg: HashAlg, t: Seq<char>) -> Seq<char> {
    match alg {
        HashAlg::Md5 => md5_hex(t),
        HashAlg::Sha1 => sha1_hex(t),
        HashAlg::Sha224 => sha224_hex(t),
        HashAlg::Sha256 => sha256_hex(t),
        HashAlg::Sha384 => sha384_hex(t),
        HashAlg::Sha512 => sha512_hex(t),
        HashAlg::Whirlpool => whirlpool_hex(t),
    }
}

/// The salted digest: the password's bytes come first, the salt's after them.
pub open spec fn salted(alg: HashAlg, password: Seq<char>, salt: Seq<char>) -> Seq<char> {
    digest_of(alg, password + salt)
}

/// Number of hex digits in a digest of `alg`.
pub open spec fn hex_len(alg: HashAlg) -> nat {
    match alg {
        HashAlg::Md5 => 32,
        HashAlg::Sha1 => 40,
        HashAlg::Sha224 => 56,
        HashAlg::Sha256 => 64,
        HashAlg::Sha384 => 96,
        HashAlg::Sha512 => 128,
        HashAlg::Whirlpool => 128,
    }
}

/// Position of `alg` in the order in which detection tries the algorithms.
pub open spec fn rank(alg: HashAlg) -> int {
    match alg {
        HashAlg::Md5 => 0,
        HashAlg::Sha1 => 1,
        HashAlg::Sha224 => 2,
        HashAlg::Sha256 => 3,
        HashAlg::Sha384 => 4,
        HashAlg::Sha512 => 5,
        HashAlg::Whirlpool => 6,
    }
}

/// The algorithm of a given rank.
pub open spec fn alg_at(i: int) -> HashAlg {
    if i <= 0 {
        HashAlg::Md5
    } else if i == 1 {
        HashAlg::Sha1
    } else if i == 2 {
        HashAlg::Sha224
    } else if i == 3 {
        HashAlg::Sha256
    } else if i == 4 {
        HashAlg::Sha384
    } else if i == 5 {
        HashAlg::Sha512
    } else {
        HashAlg::Whirlpool
    }
}

/// Lowercase selector name of an algorithm.
pub open spec fn selector(alg: HashAlg) -> Seq<char> {
    match alg {
        HashAlg::Md5 => seq!['m', 'd', '5'],
        HashAlg::Sha1 => seq!['s', 'h', 'a', '1'],
        HashAlg::Sha224 => seq!['s', 'h', 'a', '2', '2', '4'],
        HashAlg::Sha256 => seq!['s', 'h', 'a', '2', '5', '6'],
        HashAlg::Sha384 => seq!['s', 'h', 'a', '3', '8', '4'],
        HashAlg::Sha512 => seq!['s', 'h', 'a', '5', '1', '2'],
        HashAlg::Whirlpool => seq!['w', 'h', 'i', 'r', 'l', 'p', 'o', 'o', 'l'],
    }
}

/// Display name of an algorithm.
pub open spec fn display_name(alg: HashAlg) -> Seq<char> {
    match alg {
        HashAlg::Md5 => seq!['M', 'd', '5'],
        HashAlg::Sha1 => seq!['S', 'h', 'a', '1'],
        HashAlg::Sha224 => seq!['S', 'h', 'a', '2', '2', '4'],
        HashAlg::Sha256 => seq!['S', 'h', 'a', '2', '5', '6'],
        HashAlg::Sha384 => seq!['S', 'h', 'a', '3', '8', '4'],
        HashAlg::Sha512 => seq!['S', 'h', 'a', '5', '1', '2'],
        HashAlg::Whirlpool => seq!['W', 'h', 'i', 'r', 'l', 'p', 'o', 'o', 'l'],
    }
}

/// Relies on md-5's `Md5` through digest's `chain_update` / `finalize` (two
/// updates hash the concatenation) and generic-array's `LowerHex` (two
/// lowercase digits per byte of a 16-byte output).
#[verifier::external_body]
fn md5_digest(password: &str, salt: &str) -> (r: String)
    ensures
        r@ == md5_hex(password@ + salt@),
        r@.len() == 32,
{
    format!("{:x}", Md5::new().chain_update(password).chain_update(salt).finalize())
}

/// Relies on sha1's `Sha1` (20-byte output) the same way as `md5_digest`.
#[verifier::external_body]
fn sha1_digest(password: &str, salt: &str) -> (r: String)
    ensures
        r@ == sha1_hex(password@ + salt@),
        r@.len() == 40,
{
    format!("{:x}", Sha1::new().chain_update(password).chain_update(salt).finalize())
}

/// Relies on sha2's `Sha224` (28-byte output) the same way as `md5_digest`.
#[verifier::external_body]
fn sha224_digest(password: &str, salt: &str) -> (r: String)
    ensures
        r@ == sha224_hex(password@ + salt@),
        r@.len() == 56,
{
    format!("{:x}", Sha224::new().chain_update(password).chain_update(salt).finalize())
}

/// Relies on sha2's `Sha256` (32-byte output) the same way as `md5_digest`.
#[verifier::external_body]
fn sha256_digest(password: &str, salt: &str) -> (r: String)
    ensures
        r@ == sha256_hex(password@ + salt@),
        r@.len() == 64,
{
    format!("{:x}", Sha256::new().chain_update(password).chain_update(salt).finalize())
}

/// Relies on sha2's `Sha384` (48-byte output) the same way as `md5_digest`.
#[verifier::external_body]
fn sha384_digest(password: &str, salt: &str) -> (r: String)
    ensures
        r@ == sha384_hex(password@ + salt@),
        r@.len() == 96,
{
    format!("{:x}", Sha384::new().chain_update(password).chain_update(salt).finalize())
}

/// Relies on sha2's `Sha512` (64-byte output) the same way as `md5_digest`.
#[verifier::external_body]
fn sha512_digest(password: &str, salt: &str) -> (r: String)
    ensures
        r@ == sha512_hex(password@ + salt@),
        r@.len() == 128,
{
    format!("{:x}", Sha512::new().chain_update(password).chain_update(salt).finalize())
}

/// Relies on whirlpool's `Whirlpool` (64-byte output) the same way as `md5_digest`.
#[verifier::external_body]
fn whirlpool_digest(password: &str, salt: &str) -> (r: String)
    ensures
        r@ == whirlpool_hex(password@ + salt@),
        r@.len() == 128,
{
    format!("{:x}", Whirlpool::new().chain_update(password).chain_update(salt).finalize())
}

/// Relies on `str::to_lowercase`: the result depends on the characters alone.
#[verifier::external_body]
fn lowercase(s: &str) -> (r: String)
    ensures
        r@ == lower_of(s@),
{
    s.to_lowercase()
}

impl HashAlg {
    /// Digest of `password || salt`, lowercase hex.
    pub fn create_hash(&self, password: &str, salt: &str) -> (r: String)
        ensures
            r@ == salted(*self, password@, salt@),
            r@.len() == hex_len(*self),
    {
        match self {
            HashAlg::Md5 => md5_digest(password, salt),
            HashAlg::Sha1 => sha1_digest(password, salt),
            HashAlg::Sha224 => sha224_digest(password, salt),
            HashAlg::Sha256 => sha256_digest(password, salt),
            HashAlg::Sha384 => sha384_digest(password, salt),
            HashAlg::Sha512 => sha512_digest(password, salt),
            HashAlg::Whirlpool => whirlpool_digest(password, salt),
        }
    }

    /// The algorithm of a given rank in the detection order.
    pub fn at_rank(i: usize) -> (r: HashAlg)
        requires
            i < 7,
        ensures
            r == alg_at(i as int),
            rank(r) == i,
    {
        if i == 0 {
            HashAlg::Md5
        } else if i == 1 {
            HashAlg::Sha1
        } else if i == 2 {
            HashAlg::Sha224
        } else if i == 3 {
            HashAlg::Sha256
        } else if i == 4 {
            HashAlg::Sha384
        } else if i == 5 {
            HashAlg::Sha512
        } else {
            HashAlg::Whirlpool
        }
    }

    /// All algorithms, in the order in which detection tries them.
    pub fn all() -> (r: Vec<HashAlg>)
        ensures
            r@.len() == 7,
            forall|i: int| 0 <= i < 7 ==> #[trigger] r@[i] == alg_at(i) && rank(r@[i]) == i,
    {
        let mut v: Vec<HashAlg> = Vec::new();
        let mut i: usize = 0;
        while i < 7
            invariant
                i <= 7,
                v@.len() == i,
                forall|j: int| 0 <= j < i ==> #[trigger] v@[j] == alg_at(j) && rank(v@[j]) == j,
            decreases 7 - i,
        {
            v.push(HashAlg::at_rank(i));
            i = i + 1;
        }
        v
    }

    /// Display name ("Md5", "Sha1", ...).
    pub fn name(&self) -> (r: String)
        ensures
            r@ == display_name(*self),
    {
        proof {
            reveal_strlit("Md5");
            reveal_strlit("Sha1");
            reveal_strlit("Sha224");
            reveal_strlit("Sha256");
            reveal_strlit("Sha384");
            reveal_strlit("Sha512");
            reveal_strlit("Whirlpool");
        }
        match self {
            HashAlg::Md5 => "Md5".to_owned(),
            HashAlg::Sha1 => "Sha1".to_owned(),
            HashAlg::Sha224 => "Sha224".to_owned(),
            HashAlg::Sha256 => "Sha256".to_owned(),
            HashAlg::Sha384 => "Sha384".to_owned(),
            HashAlg::Sha512 => "Sha512".to_owned(),
            HashAlg::Whirlpool => "Whirlpool".to_owned(),
        }
    }

    /// Selects an algorithm by name, ignoring case.
    pub fn from_name(s: &str) -> (r: Option<HashAlg>)
        ensures
            match r {
                Some(a) => selector(a) == lower_of(s@),
                None => forall|a: HashAlg| selector(a) != lower_of(s@),
            },
    {
        let lower = lowercase(s);
        let algs = HashAlg::all();
        let mut i: usize = 0;
        while i < 7
            invariant
                i <= 7,
                algs@.len() == 7,
                lower@ == lower_of(s@),
                forall|j: int| 0 <= j < 7 ==> #[trigger] algs@[j] == alg_at(j) && rank(algs@[j]) == j,
                forall|a: HashAlg| rank(a) < i ==> selector(a) != lower@,
            decreases 7 - i,
        {
            let a = algs[i];
            let sel = a.selector_string();
            if sel.eq(&lower) {
                return Some(a);
            }
            proof {
                assert forall|b: HashAlg| rank(b) < i + 1 implies selector(b) != lower@ by {
                    if rank(b) == i {
                        assert(b == a);
                    }
                }
            }
            i = i + 1;
        }
        proof {
            assert forall|a: HashAlg| selector(a) != lower_of(s@) by {
                assert(rank(a) < 7);
            }
        }
        None
    }

    /// The lowercase selector name.
    pub fn selector_string(&self) -> (r: String)
        ensures
            r@ == selector(*self),
    {
        proof {
            reveal_strlit("md5");
            reveal_strlit("sha1");
            reveal_strlit("sha224");
            reveal_strlit("sha256");
            reveal_strlit("sha384");
            reveal_strlit("sha512");
            reveal_strlit("whirlpool");
        }
        match self {
            HashAlg::Md5 => "md5".to_owned(),
            HashAlg::Sha1 => "sha1".to_owned(),
            HashAlg::Sha224 => "sha224".to_owned(),
            HashAlg::Sha256 => "sha256".to_owned(),
            HashAlg::Sha384 => "sha384".to_owned(),
            HashAlg::Sha512 => "sha512".to_owned(),
            HashAlg::Whirlpool => "whirlpool".to_owned(),
        }
    }
}

/// Computing a digest twice on the same password and salt gives the same
/// string, for every algorithm.
pub proof fn lemma_digest_deterministic(
    alg: HashAlg,
    password1: Seq<char>,
    salt1: Seq<char>,
    password2: Seq<char>,
    salt2: Seq<char>,
)
    requires
        password1 == password2,
        salt1 == salt2,
    ensures
        salted(alg, password1, salt1) == salted(alg, password2, salt2),
{
}

} // verus!
