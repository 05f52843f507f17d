//! The headers that tell of the build.

use vstd::prelude::*;

verus! {

/// The header that names the version of the build.
pub const HEADER_BUILD_VERSION: &'static str = "x-plabayo-news-build-version";

/// The header that names the date of the build.
pub const HEADER_BUILD_DATE: &'static str = "x-plabayo-news-build-date";

/// The marker that asks for the build headers on the responses of a service.
#[derive(Clone, Copy, Default)]
pub struct SiteInfo {}

/// A service whose responses get the build headers.
pub struct SiteInfoMiddleware<S> {
    pub service: S,
}

/// The version of a build as the header gives it.
pub open spec fn build_version(semver: Seq<char>, short_sha: Seq<char>) -> Seq<char> {
    "v"@ + semver + "-"@ + short_sha
}

impl<S> SiteInfoMiddleware<S> {
    /// Wraps `service`.
    pub fn new(service: S) -> (r: SiteInfoMiddleware<S>)
        ensures
            r.service == service,
    {
        SiteInfoMiddleware { service }
    }

    /// The build headers of `info`, name and value: first the version, then
    /// the date.
    pub fn headers(info: &crate::site::state::SiteInfo) -> (r: Vec<(String, String)>)
        ensures
            r@.len() == 2,
            r@[0].0@ == HEADER_BUILD_VERSION@,
            r@[0].1@ == build_version(info.build_semver@, info.git_sha_short@),
            r@[1].0@ == HEADER_BUILD_DATE@,
            r@[1].1@ == info.build_date@,
    {
        let mut version = "v".to_owned();
        version.append(info.build_semver.as_str());
        version.append("-");
        version.append(info.git_sha_short.as_str());
        let mut out: Vec<(String, String)> = Vec::new();
        out.push((HEADER_BUILD_VERSION.to_owned(), version));
        out.push((HEADER_BUILD_DATE.to_owned(), info.build_date.clone()));
        out
    }
}

} // verus!
