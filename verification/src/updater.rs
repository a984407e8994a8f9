//! The update service's release selection: picking the newest stable
//! release from a feed, matching assets to the running platform by keyword,
//! and the single-download bookkeeping.

use vstd::prelude::*;

verus! {

use vstd::string::StrSliceExecFns;
use crate::text::{clone_opt_string, lower_of, lowercase, seq_contains, str_contains_sub};
use crate::version::{parse_semver, parsed_version, semver_lt, ver_lt, VersionParts};

/// One release asset as the release feed reports it.
#[derive(Debug)]
pub struct GitHubAsset {
    pub name: String,
    pub browser_download_url: String,
    pub size: Option<u64>,
    pub content_type: Option<String>,
}

impl GitHubAsset {
    /// A field-for-field copy.
    pub fn duplicate(&self) -> (r: Self)
        ensures
            r == *self,
    {
        GitHubAsset {
            name: self.name.clone(),
            browser_download_url: self.browser_download_url.clone(),
            size: self.size,
            content_type: clone_opt_string(&self.content_type),
        }
    }
}

/// One release as the release feed reports it.
#[derive(Debug)]
pub struct GitHubRelease {
    pub tag_name: String,
    pub body: Option<String>,
    pub draft: bool,
    pub prerelease: bool,
    pub assets: Vec<GitHubAsset>,
}

/// A release the service resolved and holds ready for download.
#[derive(Debug)]
pub struct PreparedRelease {
    pub version: String,
    pub repo: String,
    pub notes: Option<String>,
    pub asset: GitHubAsset,
}

impl PreparedRelease {
    /// A field-for-field copy.
    pub fn duplicate(&self) -> (r: Self)
        ensures
            r == *self,
    {
        PreparedRelease {
            version: self.version.clone(),
            repo: self.repo.clone(),
            notes: clone_opt_string(&self.notes),
            asset: self.asset.duplicate(),
        }
    }
}

/// The update service's state: the release held ready, and whether a
/// download is running right now.
pub struct UpdateManager {
    pub pending_release: Option<PreparedRelease>,
    pub downloading: bool,
}

impl Default for UpdateManager {
    /// A fresh manager: nothing pending, nothing downloading.
    fn default() -> (r: Self)
        ensures
            r.pending_release is None,
            !r.downloading,
    {
        UpdateManager { pending_release: None, downloading: false }
    }
}

impl UpdateManager {
    /// Holds a resolved release ready for download.
    pub fn store_release(&mut self, release: PreparedRelease)
        ensures
            *final(self) == (UpdateManager { pending_release: Some(release), ..*old(self) }),
    {
        self.pending_release = Some(release);
    }

    pub fn is_downloading(&self) -> (r: bool)
        ensures
            r == self.downloading,
    {
        self.downloading
    }

    /// Claims the pending release for download. At most one download runs
    /// at a time: while one is running, or when nothing is pending, nothing
    /// is handed out and the state is untouched.
    pub fn prepare_download(&mut self) -> (r: Option<PreparedRelease>)
        ensures
            old(self).downloading ==> r is None && *final(self) == *old(self),
            !old(self).downloading ==> (match old(self).pending_release {
                Some(p) => r == Some(p) && *final(self) == (UpdateManager {
                    downloading: true,
                    ..*old(self)
                }),
                None => r is None && *final(self) == *old(self),
            }),
    {
        if self.downloading {
            return None;
        }
        match &self.pending_release {
            Some(release) => {
                let claimed = release.duplicate();
                self.downloading = true;
                Some(claimed)
            },
            None => None,
        }
    }

    /// Marks the running download finished, successful or not.
    pub fn finish_download(&mut self)
        ensures
            *final(self) == (UpdateManager { downloading: false, ..*old(self) }),
    {
        self.downloading = false;
    }
}

/// A version tag with one leading `v` or `V` removed.
pub open spec fn strip_one_v(s: Seq<char>) -> Seq<char> {
    if s.len() > 0 && (s[0] == 'v' || s[0] == 'V') {
        s.drop_first()
    } else {
        s
    }
}

fn strip_one_v_str<'a>(tag: &'a str) -> (r: &'a str)
    ensures
        r@ == strip_one_v(tag@),
{
    let n = tag.unicode_len();
    if n > 0 {
        let c = tag.get_char(0);
        if c == 'v' || c == 'V' {
            let r = tag.substring_char(1, n);
            proof {
                assert(tag@.subrange(1, n as int) =~= tag@.drop_first());
            }
            return r;
        }
    }
    tag
}

/// Parses a version tag, tolerating one leading `v` or `V`.
pub fn parse_version(input: &str) -> (r: Option<VersionParts>)
    ensures
        r is Some <==> parsed_version(strip_one_v(input@)) is Some,
        r matches Some(v) ==> parsed_version(strip_one_v(input@)) == Some(
            (v.major, v.minor, v.patch, v.pre@),
        ) && v.text@ == strip_one_v(input@),
{
    parse_semver(strip_one_v_str(input))
}

/// The operating-system keywords an asset name is matched against.
pub fn platform_os_keywords<'a>(os: &'a str) -> (r: Vec<&'a str>)
    ensures
        os@ == "windows"@ ==> r@.len() == 2 && r@[0]@ == "windows"@ && r@[1]@ == "win"@,
        os@ == "macos"@ ==> r@.len() == 3 && r@[0]@ == "mac"@ && r@[1]@ == "darwin"@ && r@[2]@
            == "osx"@,
        os@ == "linux"@ ==> r@.len() == 3 && r@[0]@ == "linux"@ && r@[1]@ == "appimage"@ && r@[2]@
            == "deb"@,
        !(os@ == "windows"@ || os@ == "macos"@ || os@ == "linux"@) ==> r@.len() == 1 && r@[0]@
            == os@,
{
    proof {
        reveal_strlit("windows");
        reveal_strlit("macos");
        reveal_strlit("linux");
        assert("macos"@[0] != "linux"@[0]);
        assert("windows"@ != "macos"@ && "windows"@ != "linux"@ && "macos"@ != "linux"@);
    }
    let mut v: Vec<&'a str> = Vec::new();
    if crate::text::str_eq_chars(os, "windows") {
        v.push("windows");
        v.push("win");
    } else if crate::text::str_eq_chars(os, "macos") {
        v.push("mac");
        v.push("darwin");
        v.push("osx");
    } else if crate::text::str_eq_chars(os, "linux") {
        v.push("linux");
        v.push("appimage");
        v.push("deb");
    } else {
        v.push(os);
    }
    v
}

/// The architecture keywords an asset name is matched against.
pub fn platform_arch_keywords<'a>(arch: &'a str) -> (r: Vec<&'a str>)
    ensures
        arch@ == "x86_64"@ ==> r@.len() == 3 && r@[0]@ == "x86_64"@ && r@[1]@ == "amd64"@ && r@[2]@
            == "x64"@,
        arch@ == "aarch64"@ ==> r@.len() == 2 && r@[0]@ == "aarch64"@ && r@[1]@ == "arm64"@,
        arch@ == "x86"@ ==> r@.len() == 3 && r@[0]@ == "x86"@ && r@[1]@ == "ia32"@ && r@[2]@
            == "i386"@,
        !(arch@ == "x86_64"@ || arch@ == "aarch64"@ || arch@ == "x86"@) ==> r@.len() == 1 && r@[0]@
            == arch@,
{
    proof {
        reveal_strlit("x86_64");
        reveal_strlit("aarch64");
        reveal_strlit("x86");
        assert("x86_64"@.len() == 6 && "aarch64"@.len() == 7 && "x86"@.len() == 3);
        assert("x86_64"@ != "aarch64"@ && "x86_64"@ != "x86"@ && "aarch64"@ != "x86"@);
    }
    let mut v: Vec<&'a str> = Vec::new();
    if crate::text::str_eq_chars(arch, "x86_64") {
        v.push("x86_64");
        v.push("amd64");
        v.push("x64");
    } else if crate::text::str_eq_chars(arch, "aarch64") {
        v.push("aarch64");
        v.push("arm64");
    } else if crate::text::str_eq_chars(arch, "x86") {
        v.push("x86");
        v.push("ia32");
        v.push("i386");
    } else {
        v.push(arch);
    }
    v
}

/// Whether a lower-cased asset name holds at least one of the system
/// keywords and one of the architecture keywords.
pub open spec fn spec_matches_platform(
    name_low: Seq<char>,
    os: Seq<&str>,
    arch: Seq<&str>,
) -> bool {
    &&& exists|i: int| 0 <= i < os.len() && seq_contains(name_low, os[i]@)
    &&& exists|j: int| 0 <= j < arch.len() && seq_contains(name_low, arch[j]@)
}

fn any_contains(s: &str, keywords: &Vec<&str>) -> (r: bool)
    ensures
        r == exists|i: int| 0 <= i < keywords@.len() && seq_contains(s@, keywords@[i]@),
{
    let n = keywords.len();
    let mut i: usize = 0;
    while i < n
        invariant
            0 <= i <= n,
            n == keywords@.len(),
            forall|j: int| 0 <= j < i ==> !seq_contains(s@, #[trigger] keywords@[j]@),
        decreases n - i,
    {
        let kw: &str = keywords[i];
        if str_contains_sub(s, kw) {
            return true;
        }
        i = i + 1;
    }
    false
}

/// Decides whether an asset's name fits the running platform: it must
/// mention, case-insensitively, one system keyword and one architecture
/// keyword.
pub fn asset_matches_platform(
    asset: &GitHubAsset,
    os_keywords: &Vec<&str>,
    arch_keywords: &Vec<&str>,
) -> (r: bool)
    ensures
        r == spec_matches_platform(lower_of(asset.name@), os_keywords@, arch_keywords@),
{
    let lower = lowercase(asset.name.as_str());
    let os_hit = any_contains(lower.as_str(), os_keywords);
    let arch_hit = any_contains(lower.as_str(), arch_keywords);
    os_hit && arch_hit
}

/// An asset's size, with a missing size counting as zero.
pub open spec fn opt_size(a: GitHubAsset) -> u64 {
    match a.size {
        Some(s) => s,
        None => 0u64,
    }
}

/// The asset the service downloads: among the assets matching the
/// platform, the largest one; on equal sizes the later one in the feed.
pub open spec fn spec_select_asset(
    assets: Seq<GitHubAsset>,
    os: Seq<&str>,
    arch: Seq<&str>,
) -> Option<GitHubAsset>
    decreases assets.len(),
{
    if assets.len() == 0 {
        None
    } else {
        let prev = spec_select_asset(assets.drop_last(), os, arch);
        let a = assets[assets.len() - 1];
        if spec_matches_platform(lower_of(a.name@), os, arch) && (prev is None || opt_size(a)
            >= opt_size(prev->Some_0)) {
            Some(a)
        } else {
            prev
        }
    }
}

fn asset_size(a: &GitHubAsset) -> (r: u64)
    ensures
        r == opt_size(*a),
{
    match a.size {
        Some(s) => s,
        None => 0,
    }
}

/// Picks the asset to download: the largest platform match, later assets
/// winning ties, or nothing when no asset fits.
pub fn select_asset(
    assets: &Vec<GitHubAsset>,
    os_keywords: &Vec<&str>,
    arch_keywords: &Vec<&str>,
) -> (r: Option<GitHubAsset>)
    ensures
        r == spec_select_asset(assets@, os_keywords@, arch_keywords@),
{
    let n = assets.len();
    let mut best: Option<usize> = None;
    let mut i: usize = 0;
    while i < n
        invariant
            0 <= i <= n,
            n == assets@.len(),
            match best {
                None => spec_select_asset(assets@.take(i as int), os_keywords@, arch_keywords@)
                    is None,
                Some(k) => k < i && spec_select_asset(
                    assets@.take(i as int),
                    os_keywords@,
                    arch_keywords@,
                ) == Some(assets@[k as int]),
            },
        decreases n - i,
    {
        proof {
            assert(assets@.take(i as int + 1).drop_last() =~= assets@.take(i as int));
            assert(assets@.take(i as int + 1)[i as int] == assets@[i as int]);
        }
        if asset_matches_platform(&assets[i], os_keywords, arch_keywords) {
            let replace = match best {
                None => true,
                Some(k) => asset_size(&assets[i]) >= asset_size(&assets[k]),
            };
            if replace {
                best = Some(i);
            }
        }
        i = i + 1;
    }
    proof {
        assert(assets@.take(n as int) =~= assets@);
    }
    match best {
        Some(k) => Some(assets[k].duplicate()),
        None => None,
    }
}

/// Whether a feed entry can be considered at all: not a draft, not a
/// pre-release, and its tag parses as a version.
pub open spec fn release_candidate(r: GitHubRelease) -> bool {
    !r.draft && !r.prerelease && parsed_version(strip_one_v(r.tag_name@)) is Some
}

/// The release the service resolves from a feed: the candidate with the
/// highest version, earlier entries winning ties.
pub open spec fn spec_pick_latest(rs: Seq<GitHubRelease>) -> Option<GitHubRelease>
    decreases rs.len(),
{
    if rs.len() == 0 {
        None
    } else {
        let prev = spec_pick_latest(rs.drop_last());
        let r = rs[rs.len() - 1];
        if release_candidate(r) && (prev is None || ver_lt(
            strip_one_v(prev->Some_0.tag_name@),
            strip_one_v(r.tag_name@),
        )) {
            Some(r)
        } else {
            prev
        }
    }
}

proof fn lemma_pick_latest_candidate(rs: Seq<GitHubRelease>)
    ensures
        spec_pick_latest(rs) matches Some(x) ==> release_candidate(x),
    decreases rs.len(),
{
    if rs.len() > 0 {
        lemma_pick_latest_candidate(rs.drop_last());
    }
}

/// Resolves the newest stable release of a feed: drafts, pre-releases and
/// unparseable tags are ignored, and among the rest the highest version
/// wins. Returns the index into the feed.
pub fn pick_latest_stable(releases: &Vec<GitHubRelease>) -> (r: Option<usize>)
    ensures
        match r {
            Some(k) => k < releases@.len() && spec_pick_latest(releases@) == Some(
                releases@[k as int],
            ),
            None => spec_pick_latest(releases@) is None,
        },
{
    let n = releases.len();
    let mut best: Option<usize> = None;
    let mut i: usize = 0;
    while i < n
        invariant
            0 <= i <= n,
            n == releases@.len(),
            match best {
                None => spec_pick_latest(releases@.take(i as int)) is None,
                Some(k) => k < i && spec_pick_latest(releases@.take(i as int)) == Some(
                    releases@[k as int],
                ),
            },
        decreases n - i,
    {
        proof {
            assert(releases@.take(i as int + 1).drop_last() =~= releases@.take(i as int));
            assert(releases@.take(i as int + 1)[i as int] == releases@[i as int]);
            lemma_pick_latest_candidate(releases@.take(i as int));
        }
        let entry: &GitHubRelease = &releases[i];
        if !entry.draft && !entry.prerelease {
            let stripped = strip_one_v_str(entry.tag_name.as_str());
            if parse_semver(stripped).is_some() {
                let replace = match best {
                    None => true,
                    Some(k) => {
                        let best_tag = strip_one_v_str(releases[k].tag_name.as_str());
                        match semver_lt(best_tag, stripped) {
                            Some(lt) => lt,
                            None => false,
                        }
                    },
                };
                if replace {
                    best = Some(i);
                }
            }
        }
        i = i + 1;
    }
    proof {
        assert(releases@.take(n as int) =~= releases@);
    }
    best
}

} // verus!
