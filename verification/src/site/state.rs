//! What the site knows of its own build.

use crate::text::{find_char, index_of};
use vstd::prelude::*;
use vstd::string::StrSliceExecFns;
use vstd::utf8::encode_utf8;

verus! {

/// The FNV-1a hash of `bytes`, 64 bits wide: starting from the offset basis,
/// each byte is folded in with exclusive or, and the result is multiplied by
/// the FNV prime, modulo two to the power of 64.
pub open spec fn fnv1a(bytes: Seq<u8>) -> u64
    decreases bytes.len(),
{
    if bytes.len() == 0 {
        0xcbf29ce484222325
    } else {
        (((fnv1a(bytes.drop_last()) ^ (bytes.last() as u64)) as int * 0x100000001b3)
            % 0x1_0000_0000_0000_0000) as u64
    }
}

/// Trusted: feeds `bytes` to a fresh `fnv::FnvHasher` with
/// `std::hash::Hasher::write` and reads the hash with `finish`. The hasher
/// starts from the FNV offset basis and, byte by byte, takes the exclusive or
/// with the byte and multiplies, wrapping, by the FNV prime: [`fnv1a`].
#[verifier::external_body]
pub(crate) fn fnv_hash(bytes: &[u8]) -> (r: u64)
    ensures
        r == fnv1a(bytes@),
{
    let mut hasher = fnv::FnvHasher::default();
    std::hash::Hasher::write(&mut hasher, bytes);
    std::hash::Hasher::finish(&hasher)
}

/// What the site knows of its own build.
pub struct SiteInfo {
    /// A number that changes with every build.
    pub version: u64,
    pub build_date: String,
    pub build_semver: String,
    pub git_sha: String,
    pub git_sha_short: String,
    pub repository: String,
}

/// The state that the handlers of the site share.
pub struct SiteState {
    pub info: SiteInfo,
}

/// The date of a timestamp: what stands before its first `T`.
pub open spec fn date_of(timestamp: Seq<char>) -> Seq<char> {
    timestamp.subrange(0, index_of(timestamp, 'T', 0))
}

/// The first eight characters of `sha`, or all of it where it is shorter.
pub open spec fn short_sha(sha: Seq<char>) -> Seq<char> {
    if sha.len() <= 8 {
        sha
    } else {
        sha.subrange(0, 8)
    }
}

impl SiteInfo {
    /// The build that was made at `build_timestamp`, of the version
    /// `build_semver`, from the commit `git_sha`.
    pub fn new(build_timestamp: &str, build_semver: &str, git_sha: &str) -> (r: SiteInfo)
        ensures
            r.version == fnv1a(encode_utf8(build_timestamp@)),
            r.build_date@ == date_of(build_timestamp@),
            r.build_semver@ == build_semver@,
            r.git_sha@ == git_sha@,
            r.git_sha_short@ == short_sha(git_sha@),
            r.repository@ == "https://github.com/plabayo/news"@,
    {
        let len = build_timestamp.unicode_len();
        let end = find_char(build_timestamp, 'T', 0, len);
        let build_date = build_timestamp.substring_char(0, end);
        let sha_len = git_sha.unicode_len();
        let short = if sha_len <= 8 {
            git_sha
        } else {
            git_sha.substring_char(0, 8)
        };
        SiteInfo {
            version: fnv_hash(build_timestamp.as_bytes()),
            build_date: build_date.to_owned(),
            build_semver: build_semver.to_owned(),
            git_sha: git_sha.to_owned(),
            git_sha_short: short.to_owned(),
            repository: "https://github.com/plabayo/news".to_owned(),
        }
    }
}

impl SiteState {
    /// The state of the build that was made at `build_timestamp`, of the
    /// version `build_semver`, from the commit `git_sha`.
    pub fn new(build_timestamp: &str, build_semver: &str, git_sha: &str) -> (r: SiteState)
        ensures
            r.info.version == fnv1a(encode_utf8(build_timestamp@)),
            r.info.build_date@ == date_of(build_timestamp@),
            r.info.build_semver@ == build_semver@,
            r.info.git_sha@ == git_sha@,
            r.info.git_sha_short@ == short_sha(git_sha@),
            r.info.repository@ == "https://github.com/plabayo/news"@,
    {
        SiteState { info: SiteInfo::new(build_timestamp, build_semver, git_sha) }
    }
}

} // verus!
