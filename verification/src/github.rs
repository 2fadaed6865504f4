use vstd::prelude::*;

use crate::error::AppError;

verus! {

/// How long the releases cache stays fresh, in milliseconds (eight hours).
pub const RELEASES_CACHE_TTL_MS: u64 = 28_800_000;

/// A release of AstrBot (or of another repository) on GitHub.
#[derive(Debug)]
pub struct GitHubRelease {
    pub tag_name: String,
    pub name: String,
    pub published_at: String,
    pub prerelease: bool,
    pub assets: Vec<GitHubAsset>,
    pub html_url: String,
    pub body: Option<String>,
}

/// A downloadable asset of a release.
#[derive(Debug)]
pub struct GitHubAsset {
    pub name: String,
    pub browser_download_url: String,
    pub size: u64,
}

/// The release list as last fetched, with the time it was fetched.
#[derive(Debug)]
pub struct ReleasesCache {
    pub releases: Vec<GitHubRelease>,
    pub fetched_at_ms: u64,
}

/// `s` without its trailing slashes.
pub open spec fn strip_trailing_slashes(s: Seq<char>) -> Seq<char>
    decreases s.len(),
{
    if s.len() > 0 && s.last() == '/' {
        strip_trailing_slashes(s.drop_last())
    } else {
        s
    }
}

/// `url` behind a proxy prefix: unchanged when the proxy is empty, else
/// the proxy without trailing slashes, a slash, and the full URL.
pub open spec fn wrapped(proxy: Seq<char>, url: Seq<char>) -> Seq<char> {
    if proxy.len() == 0 {
        url
    } else {
        strip_trailing_slashes(proxy) + seq!['/'] + url
    }
}

proof fn lemma_strip_is_prefix(s: Seq<char>, e: int)
    requires
        0 <= e <= s.len(),
        forall|j: int| e <= j < s.len() ==> s[j] == '/',
        e == 0 || s[e - 1] != '/',
    ensures
        strip_trailing_slashes(s) == s.subrange(0, e),
    decreases s.len(),
{
    if s.len() > 0 && s.last() == '/' {
        if e == s.len() {
            assert(false);
        }
        lemma_strip_is_prefix(s.drop_last(), e);
        assert(s.drop_last().subrange(0, e) =~= s.subrange(0, e));
    } else {
        if e < s.len() {
            assert(s[s.len() - 1] == '/');
        }
        assert(s.subrange(0, e) =~= s);
    }
}

/// Wrap a URL with the GitHub proxy prefix; an empty proxy leaves the URL
/// unchanged. The proxy wraps the whole original URL, e.g.
/// `https://proxy.example/https://api.github.com/...`.
pub fn wrap_with_proxy(proxy: &str, url: &str) -> (r: String)
    ensures
        r@ == wrapped(proxy@, url@),
{
    let n = proxy.unicode_len();
    if n == 0 {
        return url.to_owned();
    }
    let mut e: usize = n;
    while e > 0 && proxy.get_char(e - 1) == '/'
        invariant
            n == proxy@.len(),
            e <= n,
            forall|j: int| e <= j < n ==> proxy@[j] == '/',
        decreases e,
    {
        e = e - 1;
    }
    proof {
        lemma_strip_is_prefix(proxy@, e as int);
    }
    let mut r = proxy.substring_char(0, e).to_owned();
    r.append("/");
    r.append(url);
    proof {
        reveal_strlit("/");
        assert(r@ =~= wrapped(proxy@, url@));
    }
    r
}

/// The releases API URL of the AstrBot repository (30 per page).
pub open spec fn api_url() -> Seq<char> {
    "https://api.github.com/repos/AstrBotDevs/AstrBot/releases?per_page=30"@
}

/// Build the releases API URL, optionally behind the GitHub proxy.
pub fn build_api_url(proxy: &str) -> (r: String)
    ensures
        r@ == wrapped(proxy@, api_url()),
{
    wrap_with_proxy(proxy, "https://api.github.com/repos/AstrBotDevs/AstrBot/releases?per_page=30")
}

/// The source archive URL of AstrBot at `tag`.
pub open spec fn archive_url(tag: Seq<char>) -> Seq<char> {
    "https://github.com/AstrBotDevs/AstrBot/archive/"@ + tag + ".zip"@
}

fn raw_archive_url(tag: &str) -> (r: String)
    ensures
        r@ == archive_url(tag@),
{
    let mut raw = "https://github.com/AstrBotDevs/AstrBot/archive/".to_owned();
    raw.append(tag);
    raw.append(".zip");
    raw
}

/// Build the source archive download URL, optionally behind the proxy.
pub fn build_download_url(proxy: &str, tag: &str) -> (r: String)
    ensures
        r@ == wrapped(proxy@, archive_url(tag@)),
{
    let raw = raw_archive_url(tag);
    wrap_with_proxy(proxy, raw.as_str())
}

/// The source archive URL for `tag`: behind the configured GitHub proxy
/// when the configuration could be read (`Some`), plain otherwise.
pub fn get_source_archive_url(tag: &str, github_proxy: Option<&str>) -> (r: String)
    ensures
        r@ == match github_proxy {
            Some(p) => wrapped(p@, archive_url(tag@)),
            None => archive_url(tag@),
        },
{
    match github_proxy {
        Some(p) => build_download_url(p, tag),
        None => raw_archive_url(tag),
    }
}

/// The python-build-standalone releases API URL (10 per page).
pub open spec fn python_releases_api_url() -> Seq<char> {
    "https://api.github.com/repos/astral-sh/python-build-standalone/releases?per_page=10"@
}

/// The python-build-standalone releases URL, behind the GitHub proxy.
pub fn python_releases_url(github_proxy: &str) -> (r: String)
    ensures
        r@ == wrapped(github_proxy@, python_releases_api_url()),
{
    wrap_with_proxy(
        github_proxy,
        "https://api.github.com/repos/astral-sh/python-build-standalone/releases?per_page=10",
    )
}

/// Whether a cache fetched at `fetched_at_ms` is stale at `now_ms`
/// (a clock that went backwards counts as no time passed).
pub open spec fn cache_expired(fetched_at_ms: u64, now_ms: u64) -> bool {
    (if now_ms >= fetched_at_ms { now_ms - fetched_at_ms } else { 0 }) >= RELEASES_CACHE_TTL_MS
}

pub fn is_cache_expired(fetched_at_ms: u64, now_ms: u64) -> (r: bool)
    ensures
        r == cache_expired(fetched_at_ms, now_ms),
{
    now_ms.saturating_sub(fetched_at_ms) >= RELEASES_CACHE_TTL_MS
}

/// Whether a release list request is answered from the cache: only when
/// not forced and the cache exists and is fresh.
pub fn use_cached_releases(cache: &Option<ReleasesCache>, force_refresh: bool, now_ms: u64) -> (r: bool)
    ensures
        r == (!force_refresh && (cache matches Some(c) && !cache_expired(c.fetched_at_ms, now_ms))),
{
    if force_refresh {
        return false;
    }
    match cache {
        Some(c) => !is_cache_expired(c.fetched_at_ms, now_ms),
        None => false,
    }
}

/// How a request to GitHub for the release list ended.
#[derive(Debug)]
pub enum ReleasesAnswer {
    /// Fresh releases: they are the new cache, to be stored and returned.
    Fresh(ReleasesCache),
    /// The request failed; the stale cache's releases are returned.
    Stale(Vec<GitHubRelease>),
    /// The request failed and there is no cache.
    Failed(AppError),
}

/// Settle the answer of the remote request against the cache: fresh
/// releases replace the cache; on failure a stale cache is still served.
pub fn settle_remote_releases(
    remote: Result<Vec<GitHubRelease>, AppError>,
    cache: Option<ReleasesCache>,
    now_ms: u64,
) -> (r: ReleasesAnswer)
    ensures
        match remote {
            Ok(releases) => r == ReleasesAnswer::Fresh(ReleasesCache { releases, fetched_at_ms: now_ms }),
            Err(e) => match cache {
                Some(c) => r == ReleasesAnswer::Stale(c.releases),
                None => r == ReleasesAnswer::Failed(e),
            },
        },
{
    match remote {
        Ok(releases) => ReleasesAnswer::Fresh(ReleasesCache { releases, fetched_at_ms: now_ms }),
        Err(e) => match cache {
            Some(c) => ReleasesAnswer::Stale(c.releases),
            None => ReleasesAnswer::Failed(e),
        },
    }
}

} // verus!
