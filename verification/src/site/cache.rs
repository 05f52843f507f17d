//! For how long a response may be kept.

use crate::text::{
    compare_text, find_char, index_of, lemma_text_rank_same, lowercase, lowercased, Rank,
};
use vstd::prelude::*;
use vstd::string::StrSliceExecFns;

verus! {

/// The root under which the static assets are served.
pub const ROOT: &'static str = "assets";

/// The longest that anything may be kept, in seconds: one day.
pub const DAY: u32 = 86400;

/// One directive of a cache-control header.
#[derive(Clone, Copy, Debug, PartialEq, Eq, Structural)]
pub enum CacheDirective {
    NoCache,
    /// Fresh for so many seconds.
    MaxAge(u32),
    Public,
    /// Any other directive.
    Other,
}

/// The marker that asks for cache control on the responses of a service.
#[derive(Clone, Copy, Default)]
pub struct Cache {}

/// A service whose responses get a cache-control header.
pub struct CacheMiddleware<S> {
    pub service: S,
}

/// For how many seconds a page below the root that reads `root` in
/// lowercase may be kept: a day for the assets, not at all for anything else.
pub open spec fn root_cache_age(root: Seq<char>) -> u32 {
    if root == "assets"@ {
        DAY
    } else {
        0
    }
}

/// Computes [`root_cache_age`].
pub fn cache_age_of(root: &str) -> (r: u32)
    ensures
        r == root_cache_age(root@),
{
    proof {
        lemma_text_rank_same(root@, "assets"@);
    }
    match compare_text(root, ROOT) {
        Rank::Same => 24 * 60 * 60,
        _ => 0,
    }
}

/// For how many seconds a page below `root` may be kept, whatever the letter
/// case of `root`.
pub open spec fn max_cache_age(root: Seq<char>) -> u32 {
    root_cache_age(lowercased(root))
}

/// Computes [`max_cache_age`].
pub fn page_max_cache_age_sec(root: &str) -> (r: u32)
    ensures
        r == max_cache_age(root@),
{
    let lower = lowercase(root);
    cache_age_of(lower.as_str())
}

/// The root of `path`: what stands between its first slash and its second,
/// or its end; `None` where it has no slash.
pub open spec fn path_root(path: Seq<char>) -> Option<Seq<char>> {
    let first = index_of(path, '/', 0);
    if first >= path.len() {
        None
    } else {
        Some(path.subrange(first + 1, index_of(path, '/', first + 1)))
    }
}

/// The cache control for a page below the root `root`.
pub open spec fn root_directives(root: Option<Seq<char>>) -> Seq<CacheDirective> {
    match root {
        None => seq![CacheDirective::NoCache],
        Some(root) => if max_cache_age(root) > 0 {
            seq![CacheDirective::MaxAge(max_cache_age(root)), CacheDirective::Public]
        } else {
            seq![CacheDirective::NoCache]
        },
    }
}

/// The cache control for the page at `path`, by its root.
pub fn get_cache_control_directive_for_path(path: &str) -> (r: Vec<CacheDirective>)
    ensures
        r@ == root_directives(path_root(path@)),
{
    let len = path.unicode_len();
    let first = find_char(path, '/', 0, len);
    let mut out: Vec<CacheDirective> = Vec::new();
    if first >= len {
        out.push(CacheDirective::NoCache);
        assert(out@ =~= seq![CacheDirective::NoCache]);
        return out;
    }
    let second = find_char(path, '/', first + 1, len);
    let root = path.substring_char(first + 1, second);
    let max_age = page_max_cache_age_sec(root);
    if max_age > 0 {
        out.push(CacheDirective::MaxAge(max_age));
        out.push(CacheDirective::Public);
        assert(out@ =~= seq![CacheDirective::MaxAge(max_age), CacheDirective::Public]);
    } else {
        out.push(CacheDirective::NoCache);
        assert(out@ =~= seq![CacheDirective::NoCache]);
    }
    out
}

/// Whether the request asks for a fresh response.
pub open spec fn asks_no_cache(requested: Seq<CacheDirective>) -> bool {
    exists|i: int| 0 <= i < requested.len() && requested[i] == CacheDirective::NoCache
}

/// The first age that the request sets.
pub open spec fn first_max_age(requested: Seq<CacheDirective>) -> Option<u32>
    decreases requested.len(),
{
    if requested.len() == 0 {
        None
    } else {
        match requested[0] {
            CacheDirective::MaxAge(age) => Some(age),
            _ => first_max_age(requested.drop_first()),
        }
    }
}

/// The cache control of the response to a request to `path` that came with
/// the cache control `requested`, or with none. A request for a fresh response
/// gets one. A request that sets an age gets that age, but no more than a
/// day, and a fresh response for the age nought. Any other request is
/// answered by the root of its path.
pub open spec fn response_directives(requested: Option<Seq<CacheDirective>>, path: Seq<char>)
    -> Seq<CacheDirective> {
    match requested {
        None => root_directives(path_root(path)),
        Some(requested) => if asks_no_cache(requested) {
            seq![CacheDirective::NoCache]
        } else {
            match first_max_age(requested) {
                Some(age) => if age == 0 {
                    seq![CacheDirective::NoCache]
                } else if age < DAY {
                    seq![CacheDirective::MaxAge(age), CacheDirective::Public]
                } else {
                    seq![CacheDirective::MaxAge(DAY), CacheDirective::Public]
                },
                None => root_directives(path_root(path)),
            }
        },
    }
}

impl<S> CacheMiddleware<S> {
    /// Wraps `service`.
    pub fn new(service: S) -> (r: CacheMiddleware<S>)
        ensures
            r.service == service,
    {
        CacheMiddleware { service }
    }

    /// Decides the cache control of the response to a request to `path` that
    /// came with the cache control `requested`, or with none.
    pub fn cache_control(requested: Option<&Vec<CacheDirective>>, path: &str) -> (r: Vec<
        CacheDirective,
    >)
        ensures
            r@ == response_directives(
                match requested {
                    Some(requested) => Some(requested@),
                    None => None,
                },
                path@,
            ),
    {
        let requested = match requested {
            Some(requested) => requested,
            None => {
                return get_cache_control_directive_for_path(path);
            },
        };
        let mut no_cache = false;
        let mut max_age: Option<u32> = None;
        let mut i: usize = 0;
        assert(requested@.skip(0) =~= requested@);
        while i < requested.len()
            invariant
                i <= requested.len(),
                no_cache == (exists|k: int| 0 <= k < i && requested@[k] == CacheDirective::NoCache),
                match max_age {
                    Some(age) => first_max_age(requested@) == Some(age),
                    None => first_max_age(requested@) == first_max_age(requested@.skip(i as int)),
                },
            decreases requested.len() - i,
        {
            assert(requested@.skip(i as int)[0] == requested@[i as int]);
            assert(requested@.skip(i as int).drop_first() =~= requested@.skip(i + 1));
            match requested[i] {
                CacheDirective::NoCache => {
                    no_cache = true;
                },
                CacheDirective::MaxAge(age) => {
                    if max_age.is_none() {
                        max_age = Some(age);
                    }
                },
                _ => {},
            }
            i = i + 1;
        }
        let mut out: Vec<CacheDirective> = Vec::new();
        if no_cache {
            out.push(CacheDirective::NoCache);
            assert(out@ =~= seq![CacheDirective::NoCache]);
            return out;
        }
        match max_age {
            Some(age) => {
                if age == 0 {
                    out.push(CacheDirective::NoCache);
                    assert(out@ =~= seq![CacheDirective::NoCache]);
                } else {
                    let capped = if age < DAY {
                        age
                    } else {
                        DAY
                    };
                    out.push(CacheDirective::MaxAge(capped));
                    out.push(CacheDirective::Public);
                    assert(out@ =~= seq![CacheDirective::MaxAge(capped), CacheDirective::Public]);
                }
                out
            },
            None => get_cache_control_directive_for_path(path),
        }
    }
}

} // verus!
