use vstd::prelude::*;
use rand::distr::SampleString;
use sha2::Digest;
use std::io::Write;

verus! {

/// The milliseconds since the Unix epoch, as the system clock reports them,
/// saturating at zero on a clock set before the epoch.
///
/// Relies on std's `SystemTime::now` and `duration_since`, whose documented
/// error case (a clock before the epoch) is mapped to zero rather than
/// panicking; the value depends on the clock, so nothing is promised of it.
#[verifier::external_body]
pub fn now_millis() -> u64 {
    match std::time::SystemTime::now().duration_since(std::time::UNIX_EPOCH) {
        Ok(elapsed) => u64::try_from(elapsed.as_millis()).unwrap_or(u64::MAX),
        Err(_) => 0,
    }
}

/// The canonical hyphenated text of a fresh version-4 identifier.
///
/// Relies on uuid's `Uuid::new_v4` and its `Display` impl, which the crate
/// documents as the 36-character hyphenated form. The value is random, so
/// only its shape is promised.
#[verifier::external_body]
pub fn fresh_uuid() -> (r: String)
    ensures
        r@.len() == 36,
{
    uuid::Uuid::new_v4().to_string()
}

/// A uniformly random number in `[lo, hi)`.
///
/// Relies on rand's `random_range`, which samples the given range and panics
/// only when it is empty.
#[verifier::external_body]
pub fn random_in_range(lo: u64, hi: u64) -> (r: u64)
    requires
        lo < hi,
    ensures
        lo <= r < hi,
{
    rand::random_range(lo..hi)
}

/// Whether a character is one of the sixty-two ASCII alphanumerics.
pub open spec fn is_alnum_char(c: char) -> bool {
    ('a' <= c && c <= 'z') || ('A' <= c && c <= 'Z') || ('0' <= c && c <= '9')
}

/// A random alphanumeric string of the given length.
///
/// Relies on rand's `Alphanumeric` distribution via `SampleString`, which
/// samples `len` characters out of `a-z`, `A-Z` and `0-9`.
#[verifier::external_body]
pub fn random_string(len: usize) -> (r: String)
    ensures
        r@.len() == len,
        forall|i: int| 0 <= i < r@.len() ==> is_alnum_char(#[trigger] r@[i]),
{
    rand::distr::Alphanumeric.sample_string(&mut rand::rng(), len)
}

/// The SHA-256 digest of the UTF-8 bytes of a character sequence.
pub uninterp spec fn sha256_of(s: Seq<char>) -> Seq<u8>;

/// The SHA-256 digest of a string's bytes.
///
/// Relies on sha2's `Sha256::digest`, a pure function of its input whose
/// output is 32 bytes.
#[verifier::external_body]
pub fn sha256_bytes(s: &str) -> (r: Vec<u8>)
    ensures
        r@ == sha256_of(s@),
        r@.len() == 32,
{
    let digest = sha2::Sha256::digest(s.as_bytes());
    let bytes: &[u8] = digest.as_ref();
    bytes.to_vec()
}

/// The Unicode lower-case form of a character sequence.
pub uninterp spec fn lower_of(s: Seq<char>) -> Seq<char>;

/// The lower-case form of a string.
///
/// Relies on `str::to_lowercase` of std, a pure function of the characters
/// alone, which maps the empty string to itself.
#[verifier::external_body]
pub fn lowercase(s: &str) -> (r: String)
    ensures
        r@ == lower_of(s@),
{
    s.to_lowercase()
}

/// Rewrites the file at `path` with `content` so that no reader ever sees a
/// partial document: the content goes to a temporary file in the same
/// directory, which is then renamed over the destination.
///
/// Relies on tempfile's `NamedTempFile::new_in` and `persist` (an atomic
/// rename on the platforms the crate supports). Whether it succeeds depends
/// on the file system, so nothing is promised beyond the shape of the result.
#[verifier::external_body]
pub fn atomic_write(path: &str, content: &str) -> (r: Result<bool, String>)
    ensures
        r == Ok::<bool, String>(true) || r is Err,
{
    let parent = match std::path::Path::new(path).parent() {
        Some(p) => p,
        None => return Err("path has no parent directory".to_string()),
    };
    let mut temp = tempfile::NamedTempFile::new_in(parent).map_err(|e| e.to_string())?;
    write!(temp, "{}", content).map_err(|e| e.to_string())?;
    temp.persist(path).map_err(|e| e.to_string())?;
    Ok(true)
}

} // verus!
