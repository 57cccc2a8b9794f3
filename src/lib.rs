//! Recovery of salted passwords from their digests: every ordered pair of
//! candidate words is hashed and matched against a set of target digests.

pub mod detect;
pub mod digest;
pub mod generate;
pub mod results;
pub mod search;

pub use detect::{find_alg, DetectError};
pub use digest::HashAlg;
pub use generate::hash_passwords;
pub use results::{Match, ResultMap};
pub use search::cracking_time;
