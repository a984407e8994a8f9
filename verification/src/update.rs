//! Release-update logic: classifying release assets by platform and
//! architecture, building the cached release metadata, deciding which
//! releases to skip, selecting the asset for a platform, and the download
//! bookkeeping around it.

use vstd::prelude::*;

verus! {

use vstd::string::StrSliceExecFns;
use crate::text::{
    clone_opt_string, lower_of, lowercase, push_char, seq_contains, seq_ends_with, spec_trim,
    str_contains_sub, str_ends_with_sub, str_eq_chars, trim_str,
};
use crate::version::{parse_semver, parsed_version, semver_lt, ver_lt, VersionParts};

/// State of one download task.
#[derive(Debug, Clone, PartialEq, Eq, Structural)]
pub enum DownloadStatus {
    Running,
    Completed,
    Failed,
}

/// One release asset as shown to the command surface.
#[derive(Debug)]
pub struct ReleaseAsset {
    pub id: String,
    pub name: String,
    pub platform: String,
    pub arch: Option<String>,
    pub download_url: String,
    pub size: Option<u64>,
    pub checksum: Option<Checksum>,
}

/// Checksum information for an asset; reserved, never computed yet.
#[derive(Debug)]
pub struct Checksum {
    pub algo: String,
    pub value: String,
}

/// One download task as shown to the command surface.
#[derive(Debug)]
pub struct DownloadTask {
    pub id: String,
    pub status: DownloadStatus,
    pub started_at: String,
    pub completed_at: Option<String>,
    pub error: Option<String>,
    pub target_asset: ReleaseAsset,
    pub bytes_total: Option<u64>,
    pub bytes_downloaded: Option<u64>,
}

/// What an update check reports back.
#[derive(Debug)]
pub struct CheckUpdateResponse {
    pub has_update: bool,
    pub latest_version: Option<String>,
    pub is_prerelease: Option<bool>,
    pub published_at: Option<String>,
    pub release_notes: Option<String>,
    pub release_url: Option<String>,
    pub assets: Vec<ReleaseAsset>,
}

/// One release as the release feed reports it.
#[derive(Debug)]
pub struct GithubRelease {
    pub tag_name: String,
    pub draft: bool,
    pub prerelease: bool,
    pub published_at: Option<String>,
    pub body: Option<String>,
    pub html_url: Option<String>,
    pub assets: Vec<GithubAsset>,
}

/// One asset of a release as the release feed reports it.
#[derive(Debug)]
pub struct GithubAsset {
    pub id: u64,
    pub name: String,
    pub browser_download_url: String,
    pub size: Option<u64>,
}

/// One classified asset kept in the release cache.
#[derive(Debug)]
pub struct CachedAsset {
    pub id: u64,
    pub meta: ReleaseAsset,
}

/// Cached metadata of one release.
#[derive(Debug)]
pub struct CachedRelease {
    pub version: String,
    pub is_prerelease: bool,
    pub published_at: Option<String>,
    pub release_notes: Option<String>,
    pub release_url: Option<String>,
    pub assets: Vec<CachedAsset>,
}

/// One download task with the bookkeeping the commands need.
#[derive(Debug)]
pub struct DownloadTaskInternal {
    pub task: DownloadTask,
    pub release_version: String,
    pub download_path: Option<String>,
}

impl Checksum {
    /// A field-for-field copy.
    pub fn duplicate(&self) -> (r: Self)
        ensures
            r == *self,
    {
        Checksum { algo: self.algo.clone(), value: self.value.clone() }
    }
}

impl ReleaseAsset {
    /// A field-for-field copy.
    pub fn duplicate(&self) -> (r: Self)
        ensures
            r == *self,
    {
        ReleaseAsset {
            id: self.id.clone(),
            name: self.name.clone(),
            platform: self.platform.clone(),
            arch: clone_opt_string(&self.arch),
            download_url: self.download_url.clone(),
            size: self.size,
            checksum: match &self.checksum {
                Some(c) => Some(c.duplicate()),
                None => None,
            },
        }
    }
}

impl CachedAsset {
    /// A field-for-field copy.
    pub fn duplicate(&self) -> (r: Self)
        ensures
            r == *self,
    {
        CachedAsset { id: self.id, meta: self.meta.duplicate() }
    }
}

/// The character a decimal digit prints as.
pub open spec fn decimal_digit(d: int) -> char {
    if d == 0 {
        '0'
    } else if d == 1 {
        '1'
    } else if d == 2 {
        '2'
    } else if d == 3 {
        '3'
    } else if d == 4 {
        '4'
    } else if d == 5 {
        '5'
    } else if d == 6 {
        '6'
    } else if d == 7 {
        '7'
    } else if d == 8 {
        '8'
    } else {
        '9'
    }
}

/// The decimal representation of a number, most significant digit first.
pub open spec fn spec_u64_string(n: int) -> Seq<char>
    decreases n,
{
    if n < 10 {
        seq![decimal_digit(n)]
    } else {
        spec_u64_string(n / 10).push(decimal_digit(n % 10))
    }
}

fn digit_char(d: u64) -> (c: char)
    requires
        d < 10,
    ensures
        c == decimal_digit(d as int),
{
    if d == 0 {
        '0'
    } else if d == 1 {
        '1'
    } else if d == 2 {
        '2'
    } else if d == 3 {
        '3'
    } else if d == 4 {
        '4'
    } else if d == 5 {
        '5'
    } else if d == 6 {
        '6'
    } else if d == 7 {
        '7'
    } else if d == 8 {
        '8'
    } else {
        '9'
    }
}

/// Prints a number in decimal.
pub fn u64_to_string(n: u64) -> (r: String)
    ensures
        r@ == spec_u64_string(n as int),
    decreases n,
{
    if n < 10 {
        let mut s = String::new();
        push_char(&mut s, digit_char(n));
        s
    } else {
        let mut s = u64_to_string(n / 10);
        push_char(&mut s, digit_char(n % 10));
        s
    }
}

/// A version tag with every leading `v` removed, as
/// `str::trim_start_matches('v')` leaves it.
pub open spec fn strip_leading_v(s: Seq<char>) -> Seq<char>
    decreases s.len(),
{
    if s.len() > 0 && s[0] == 'v' {
        strip_leading_v(s.drop_first())
    } else {
        s
    }
}

proof fn lemma_strip_leading_v(s: Seq<char>, i: int)
    requires
        0 <= i <= s.len(),
        forall|k: int| 0 <= k < i ==> s[k] == 'v',
        i < s.len() ==> s[i] != 'v',
    ensures
        strip_leading_v(s) == s.subrange(i, s.len() as int),
    decreases i,
{
    if i == 0 {
        assert(s.subrange(0, s.len() as int) =~= s);
    } else {
        let t = s.drop_first();
        assert(forall|k: int| 0 <= k < i - 1 ==> #[trigger] t[k] == 'v');
        lemma_strip_leading_v(t, i - 1);
        assert(t.subrange(i - 1, t.len() as int) =~= s.subrange(i, s.len() as int));
    }
}

/// Parses a release tag as a semantic version, after removing any leading
/// `v` prefix; `None` where what remains is not a valid version.
pub fn parse_version(tag: &str) -> (r: Option<VersionParts>)
    ensures
        r is Some <==> parsed_version(strip_leading_v(tag@)) is Some,
        r matches Some(v) ==> parsed_version(strip_leading_v(tag@)) == Some(
            (v.major, v.minor, v.patch, v.pre@),
        ) && v.text@ == strip_leading_v(tag@),
{
    let n = tag.unicode_len();
    let mut i: usize = 0;
    while i < n && tag.get_char(i) == 'v'
        invariant
            0 <= i <= n,
            n == tag@.len(),
            forall|k: int| 0 <= k < i ==> tag@[k] == 'v',
        decreases n - i,
    {
        i = i + 1;
    }
    proof {
        lemma_strip_leading_v(tag@, i as int);
    }
    let rest = tag.substring_char(i, n);
    parse_semver(rest)
}

/// The platform a release-asset name classifies to, by its extension or a
/// platform word anywhere in the (lower-cased) name; `None` where no rule
/// matches.
pub open spec fn spec_classify_platform(s: Seq<char>) -> Option<Seq<char>> {
    if seq_ends_with(s, ".exe"@) || seq_ends_with(s, ".msi"@) || seq_contains(s, "windows"@)
        || seq_contains(s, "win32"@) || seq_contains(s, "win64"@) {
        Some("windows"@)
    } else if seq_ends_with(s, ".dmg"@) || seq_contains(s, "macos"@) || seq_contains(s, "darwin"@)
        || seq_contains(s, "mac"@) {
        Some("macos"@)
    } else if seq_ends_with(s, ".appimage"@) || seq_ends_with(s, ".deb"@) || seq_ends_with(
        s,
        ".rpm"@,
    ) || seq_ends_with(s, ".tar.gz"@) || seq_ends_with(s, ".tar.xz"@) || seq_contains(
        s,
        "linux"@,
    ) {
        Some("linux"@)
    } else if seq_ends_with(s, ".apk"@) || seq_contains(s, "android"@) {
        Some("android"@)
    } else if seq_contains(s, "ios"@) {
        Some("ios"@)
    } else {
        None
    }
}

/// The architecture a release-asset name classifies to, if any.
pub open spec fn spec_classify_arch(s: Seq<char>) -> Option<Seq<char>> {
    if seq_contains(s, "arm64"@) || seq_contains(s, "aarch64"@) || seq_contains(s, "armv8"@) {
        Some("arm64"@)
    } else if seq_contains(s, "x64"@) || seq_contains(s, "amd64"@) || seq_contains(s, "x86_64"@) {
        Some("x64"@)
    } else if seq_contains(s, "arm"@) && seq_contains(s, "64"@) {
        Some("arm64"@)
    } else if seq_contains(s, "universal"@) {
        Some("universal"@)
    } else {
        None
    }
}

/// Classifies an already lower-cased asset name. Public so that the
/// classification itself can be exercised on any concrete name.
pub fn classify_lowered(lower: &str) -> (r: Option<(&'static str, Option<&'static str>)>)
    ensures
        r is Some <==> spec_classify_platform(lower@) is Some,
        r matches Some(pa) ==> spec_classify_platform(lower@) == Some(pa.0@) && (match pa.1 {
            Some(a) => spec_classify_arch(lower@) == Some(a@),
            None => spec_classify_arch(lower@) is None,
        }),
{
    let platform: &'static str = if str_ends_with_sub(lower, ".exe") || str_ends_with_sub(
        lower,
        ".msi",
    ) || str_contains_sub(lower, "windows") || str_contains_sub(lower, "win32")
        || str_contains_sub(lower, "win64") {
        "windows"
    } else if str_ends_with_sub(lower, ".dmg") || str_contains_sub(lower, "macos")
        || str_contains_sub(lower, "darwin") || str_contains_sub(lower, "mac") {
        "macos"
    } else if str_ends_with_sub(lower, ".appimage") || str_ends_with_sub(lower, ".deb")
        || str_ends_with_sub(lower, ".rpm") || str_ends_with_sub(lower, ".tar.gz")
        || str_ends_with_sub(lower, ".tar.xz") || str_contains_sub(lower, "linux") {
        "linux"
    } else if str_ends_with_sub(lower, ".apk") || str_contains_sub(lower, "android") {
        "android"
    } else if str_contains_sub(lower, "ios") {
        "ios"
    } else {
        return None;
    };
    let arch: Option<&'static str> = if str_contains_sub(lower, "arm64") || str_contains_sub(
        lower,
        "aarch64",
    ) || str_contains_sub(lower, "armv8") {
        Some("arm64")
    } else if str_contains_sub(lower, "x64") || str_contains_sub(lower, "amd64")
        || str_contains_sub(lower, "x86_64") {
        Some("x64")
    } else if str_contains_sub(lower, "arm") && str_contains_sub(lower, "64") {
        Some("arm64")
    } else if str_contains_sub(lower, "universal") {
        Some("universal")
    } else {
        None
    };
    Some((platform, arch))
}

/// Classifies a release-asset name into a platform and an optional
/// architecture, matching case-insensitively.
pub fn classify_asset(name: &str) -> (r: Option<(&'static str, Option<&'static str>)>)
    ensures
        r is Some <==> spec_classify_platform(lower_of(name@)) is Some,
        r matches Some(pa) ==> spec_classify_platform(lower_of(name@)) == Some(pa.0@) && (
        match pa.1 {
            Some(a) => spec_classify_arch(lower_of(name@)) == Some(a@),
            None => spec_classify_arch(lower_of(name@)) is None,
        }),
{
    let lower = lowercase(name);
    classify_lowered(lower.as_str())
}

/// The ghost shape of one cached asset: every field reduced to its view.
pub ghost struct CachedAssetView {
    pub id: u64,
    pub id_text: Seq<char>,
    pub name: Seq<char>,
    pub platform: Seq<char>,
    pub arch: Option<Seq<char>>,
    pub url: Seq<char>,
    pub size: Option<u64>,
}

/// The view of one cached asset.
pub open spec fn cached_asset_view(a: CachedAsset) -> CachedAssetView {
    CachedAssetView {
        id: a.id,
        id_text: a.meta.id@,
        name: a.meta.name@,
        platform: a.meta.platform@,
        arch: match a.meta.arch {
            Some(s) => Some(s@),
            None => None,
        },
        url: a.meta.download_url@,
        size: a.meta.size,
    }
}

/// The views of a cached-asset list.
pub open spec fn cached_views(s: Seq<CachedAsset>) -> Seq<CachedAssetView> {
    s.map_values(|x: CachedAsset| cached_asset_view(x))
}

/// The cached asset one feed asset classifies to.
pub open spec fn gh_asset_view(a: GithubAsset) -> CachedAssetView {
    CachedAssetView {
        id: a.id,
        id_text: spec_u64_string(a.id as int),
        name: a.name@,
        platform: spec_classify_platform(lower_of(a.name@))->Some_0,
        arch: spec_classify_arch(lower_of(a.name@)),
        url: a.browser_download_url@,
        size: Some(
            match a.size {
                Some(s) => s,
                None => 0u64,
            },
        ),
    }
}

/// The cached assets a feed's asset list yields: every classifiable asset,
/// in order; the rest are skipped.
pub open spec fn spec_classified_assets(assets: Seq<GithubAsset>) -> Seq<CachedAssetView>
    decreases assets.len(),
{
    if assets.len() == 0 {
        Seq::empty()
    } else {
        let prefix = spec_classified_assets(assets.drop_last());
        let a = assets[assets.len() - 1];
        if spec_classify_platform(lower_of(a.name@)) is Some {
            prefix.push(gh_asset_view(a))
        } else {
            prefix
        }
    }
}

/// Builds the cached metadata for one release: classifies every asset,
/// keeping the classifiable ones in order, and normalizes the release
/// notes (trimmed; empty notes dropped).
pub fn build_cached_release(version: String, release: GithubRelease) -> (r: Result<
    CachedRelease,
    String,
>)
    ensures
        r is Ok,
        r matches Ok(c) ==> {
            &&& c.version == version
            &&& c.is_prerelease == release.prerelease
            &&& c.published_at == release.published_at
            &&& c.release_url == release.html_url
            &&& (c.release_notes is Some <==> (release.body matches Some(b) && spec_trim(b@).len()
                > 0))
            &&& (c.release_notes matches Some(nt) ==> (release.body matches Some(b) && nt@
                == spec_trim(b@)))
            &&& cached_views(c.assets@) == spec_classified_assets(release.assets@)
        },
{
    let release_notes: Option<String> = match &release.body {
        Some(notes) => {
            let t = trim_str(notes.as_str());
            if t.unicode_len() > 0 {
                Some(t.to_owned())
            } else {
                None
            }
        },
        None => None,
    };
    let n = release.assets.len();
    let mut assets: Vec<CachedAsset> = Vec::new();
    let mut i: usize = 0;
    while i < n
        invariant
            0 <= i <= n,
            n == release.assets@.len(),
            cached_views(assets@) =~= spec_classified_assets(release.assets@.take(i as int)),
        decreases n - i,
    {
        let asset: &GithubAsset = &release.assets[i];
        proof {
            assert(release.assets@.take(i as int + 1).drop_last() =~= release.assets@.take(
                i as int,
            ));
            assert(release.assets@.take(i as int + 1)[i as int] == release.assets@[i as int]);
        }
        match classify_asset(asset.name.as_str()) {
            Some((platform, arch)) => {
                let size: u64 = match asset.size {
                    Some(s) => s,
                    None => 0,
                };
                let meta = ReleaseAsset {
                    id: u64_to_string(asset.id),
                    name: asset.name.clone(),
                    platform: platform.to_owned(),
                    arch: match arch {
                        Some(a) => Some(a.to_owned()),
                        None => None,
                    },
                    download_url: asset.browser_download_url.clone(),
                    size: Some(size),
                    checksum: None,
                };
                assets.push(CachedAsset { id: asset.id, meta });
                proof {
                    assert(cached_views(assets@) =~= spec_classified_assets(
                        release.assets@.take(i as int + 1),
                    ));
                }
            },
            None => {},
        }
        i = i + 1;
    }
    proof {
        assert(release.assets@.take(n as int) =~= release.assets@);
    }
    Ok(
        CachedRelease {
            version,
            is_prerelease: release.prerelease,
            published_at: clone_opt_string(&release.published_at),
            release_notes,
            release_url: clone_opt_string(&release.html_url),
            assets,
        },
    )
}

/// Whether a candidate release is passed over: a pre-release is skipped on
/// a stable channel and otherwise exactly when it does not exceed the
/// running version; a stable release is skipped exactly when it does not
/// exceed the running version. A version that fails to parse is skipped.
pub open spec fn spec_skip_release(
    current: Seq<char>,
    release: Seq<char>,
    current_pre: Seq<char>,
    prerelease: bool,
) -> bool {
    if parsed_version(current) is None || parsed_version(release) is None {
        true
    } else if prerelease {
        current_pre.len() == 0 || !ver_lt(current, release)
    } else {
        !ver_lt(current, release)
    }
}

/// Decides whether a release is skipped, given the running version and the
/// candidate's parsed version.
pub fn should_skip_release(
    current_version: &VersionParts,
    release_version: &VersionParts,
    release: &GithubRelease,
) -> (r: bool)
    ensures
        r == spec_skip_release(
            current_version.text@,
            release_version.text@,
            current_version.pre@,
            release.prerelease,
        ),
{
    if release.prerelease {
        if current_version.pre.as_str().is_empty() {
            return true;
        }
        match semver_lt(current_version.text.as_str(), release_version.text.as_str()) {
            Some(lt) => !lt,
            None => true,
        }
    } else {
        match semver_lt(current_version.text.as_str(), release_version.text.as_str()) {
            Some(lt) => !lt,
            None => true,
        }
    }
}

/// Whether an asset fits the platform and, where both say one, the
/// architecture.
pub open spec fn full_match(a: CachedAsset, platform: Seq<char>, arch: Option<Seq<char>>) -> bool {
    &&& a.meta.platform@ == platform
    &&& (a.meta.arch is None || arch is None || (a.meta.arch matches Some(x)
        && arch matches Some(y) && x@ == y))
}

/// Whether an asset fits the platform at all.
pub open spec fn platform_match(a: CachedAsset, platform: Seq<char>) -> bool {
    a.meta.platform@ == platform
}

/// The first asset fitting platform and architecture.
pub open spec fn spec_first_full(
    assets: Seq<CachedAsset>,
    platform: Seq<char>,
    arch: Option<Seq<char>>,
) -> Option<CachedAsset>
    decreases assets.len(),
{
    if assets.len() == 0 {
        None
    } else if full_match(assets[0], platform, arch) {
        Some(assets[0])
    } else {
        spec_first_full(assets.drop_first(), platform, arch)
    }
}

/// The first asset fitting the platform.
pub open spec fn spec_first_platform(assets: Seq<CachedAsset>, platform: Seq<char>) -> Option<
    CachedAsset,
>
    decreases assets.len(),
{
    if assets.len() == 0 {
        None
    } else if platform_match(assets[0], platform) {
        Some(assets[0])
    } else {
        spec_first_platform(assets.drop_first(), platform)
    }
}

/// The asset picked for a platform: a platform-and-architecture match is
/// preferred; failing that, the first asset for the platform alone.
pub open spec fn spec_select_asset(
    assets: Seq<CachedAsset>,
    platform: Seq<char>,
    arch: Option<Seq<char>>,
) -> Option<CachedAsset> {
    match spec_first_full(assets, platform, arch) {
        Some(a) => Some(a),
        None => spec_first_platform(assets, platform),
    }
}

proof fn lemma_first_full_at(
    assets: Seq<CachedAsset>,
    platform: Seq<char>,
    arch: Option<Seq<char>>,
    i: int,
)
    requires
        0 <= i < assets.len(),
        forall|j: int| 0 <= j < i ==> !full_match(#[trigger] assets[j], platform, arch),
        full_match(assets[i], platform, arch),
    ensures
        spec_first_full(assets, platform, arch) == Some(assets[i]),
    decreases i,
{
    if i > 0 {
        let t = assets.drop_first();
        assert(forall|j: int| 0 <= j < i - 1 ==> !full_match(#[trigger] t[j], platform, arch));
        lemma_first_full_at(t, platform, arch, i - 1);
    }
}

proof fn lemma_first_full_none(assets: Seq<CachedAsset>, platform: Seq<char>, arch: Option<
    Seq<char>,
>)
    requires
        forall|j: int| 0 <= j < assets.len() ==> !full_match(#[trigger] assets[j], platform, arch),
    ensures
        spec_first_full(assets, platform, arch) is None,
    decreases assets.len(),
{
    if assets.len() > 0 {
        let t = assets.drop_first();
        assert(forall|j: int| 0 <= j < t.len() ==> !full_match(#[trigger] t[j], platform, arch));
        lemma_first_full_none(t, platform, arch);
    }
}

proof fn lemma_first_platform_at(assets: Seq<CachedAsset>, platform: Seq<char>, i: int)
    requires
        0 <= i < assets.len(),
        forall|j: int| 0 <= j < i ==> !platform_match(#[trigger] assets[j], platform),
        platform_match(assets[i], platform),
    ensures
        spec_first_platform(assets, platform) == Some(assets[i]),
    decreases i,
{
    if i > 0 {
        let t = assets.drop_first();
        assert(forall|j: int| 0 <= j < i - 1 ==> !platform_match(#[trigger] t[j], platform));
        lemma_first_platform_at(t, platform, i - 1);
    }
}

proof fn lemma_first_platform_none(assets: Seq<CachedAsset>, platform: Seq<char>)
    requires
        forall|j: int| 0 <= j < assets.len() ==> !platform_match(#[trigger] assets[j], platform),
    ensures
        spec_first_platform(assets, platform) is None,
    decreases assets.len(),
{
    if assets.len() > 0 {
        let t = assets.drop_first();
        assert(forall|j: int| 0 <= j < t.len() ==> !platform_match(#[trigger] t[j], platform));
        lemma_first_platform_none(t, platform);
    }
}

/// The view of an optional architecture string.
pub open spec fn spec_opt_view(a: Option<&str>) -> Option<Seq<char>> {
    match a {
        Some(s) => Some(s@),
        None => None,
    }
}

fn asset_full_match(a: &CachedAsset, platform: &str, arch: Option<&str>) -> (r: bool)
    ensures
        r == full_match(*a, platform@, spec_opt_view(arch)),
{
    if !str_eq_chars(a.meta.platform.as_str(), platform) {
        return false;
    }
    match (&a.meta.arch, arch) {
        (None, _) => true,
        (_, None) => true,
        (Some(x), Some(y)) => str_eq_chars(x.as_str(), y),
    }
}

/// Picks the asset to download for a platform: the first asset matching
/// platform and architecture wins; failing that, the first asset for the
/// platform alone; failing that, nothing.
pub fn select_asset_for_current_platform(
    assets: &Vec<CachedAsset>,
    platform: &str,
    arch: Option<&str>,
) -> (r: Option<CachedAsset>)
    ensures
        r == spec_select_asset(assets@, platform@, spec_opt_view(arch)),
{
    let n = assets.len();
    let mut i: usize = 0;
    while i < n
        invariant
            0 <= i <= n,
            n == assets@.len(),
            forall|j: int|
                0 <= j < i ==> !full_match(#[trigger] assets@[j], platform@, spec_opt_view(arch)),
        decreases n - i,
    {
        if asset_full_match(&assets[i], platform, arch) {
            proof {
                lemma_first_full_at(assets@, platform@, spec_opt_view(arch), i as int);
            }
            return Some(assets[i].duplicate());
        }
        i = i + 1;
    }
    proof {
        lemma_first_full_none(assets@, platform@, spec_opt_view(arch));
    }
    let mut k: usize = 0;
    while k < n
        invariant
            0 <= k <= n,
            n == assets@.len(),
            spec_first_full(assets@, platform@, spec_opt_view(arch)) is None,
            forall|j: int| 0 <= j < k ==> !platform_match(#[trigger] assets@[j], platform@),
        decreases n - k,
    {
        if str_eq_chars(assets[k].meta.platform.as_str(), platform) {
            proof {
                lemma_first_platform_at(assets@, platform@, k as int);
            }
            return Some(assets[k].duplicate());
        }
        k = k + 1;
    }
    proof {
        lemma_first_platform_none(assets@, platform@);
    }
    None
}

/// Which characters a downloaded file's name may keep; everything else
/// becomes `_`.
pub open spec fn is_filename_keep(c: char) -> bool {
    ('a' <= c && c <= 'z') || ('A' <= c && c <= 'Z') || ('0' <= c && c <= '9') || c == '.' || c
        == '_'
}

/// A file name with every character outside the safe set replaced by `_`.
pub open spec fn spec_sanitize_filename(s: Seq<char>) -> Seq<char> {
    s.map_values(
        |c: char|
            if is_filename_keep(c) {
                c
            } else {
                '_'
            },
    )
}

/// Replaces every character that is not ASCII alphanumeric, `.` or `_` by
/// `_`, so the name is safe as a file name.
pub fn sanitize_filename(name: &str) -> (r: String)
    ensures
        r@ == spec_sanitize_filename(name@),
{
    let n = name.unicode_len();
    let mut out = String::new();
    let mut i: usize = 0;
    while i < n
        invariant
            0 <= i <= n,
            n == name@.len(),
            out@ =~= spec_sanitize_filename(name@.take(i as int)),
        decreases n - i,
    {
        let c = name.get_char(i);
        let keep = (c >= 'a' && c <= 'z') || (c >= 'A' && c <= 'Z') || (c >= '0' && c <= '9') || c
            == '.' || c == '_';
        if keep {
            push_char(&mut out, c);
        } else {
            push_char(&mut out, '_');
        }
        proof {
            assert(out@ =~= spec_sanitize_filename(name@.take(i as int + 1)));
        }
        i = i + 1;
    }
    proof {
        assert(name@.take(n as int) =~= name@);
    }
    out
}

/// Pulls the information an installation needs out of a download task:
/// only a completed task with a recorded file yields the installer path,
/// the release version and the asset name.
pub fn extract_installation_info(download: &DownloadTaskInternal) -> (r: Result<
    (String, String, String),
    String,
>)
    ensures
        !(download.task.status == DownloadStatus::Completed) ==> (r matches Err(m) && m@
            == "Download not completed"@),
        download.task.status == DownloadStatus::Completed ==> (match download.download_path {
            Some(p) => r matches Ok(t) && t.0 == p && t.1 == download.release_version && t.2
                == download.task.target_asset.name,
            None => r matches Err(m) && m@ == "Downloaded installer path missing"@,
        }),
{
    if !matches!(download.task.status, DownloadStatus::Completed) {
        return Err("Download not completed".to_owned());
    }
    match &download.download_path {
        Some(path) => Ok(
            (path.clone(), download.release_version.clone(), download.task.target_asset.name.clone()),
        ),
        None => Err("Downloaded installer path missing".to_owned()),
    }
}

/// Records a download task's new status: the error text is replaced, and a
/// failure stamps the completion time with the clock value passed in.
pub fn update_task_status(
    task: &mut DownloadTaskInternal,
    status: DownloadStatus,
    error: Option<String>,
    now_iso: &str,
)
    ensures
        final(task).task.status == status,
        final(task).task.error == error,
        status == DownloadStatus::Failed ==> (final(task).task.completed_at matches Some(c) && c@
            == now_iso@),
        status != DownloadStatus::Failed ==> final(task).task.completed_at == old(
            task,
        ).task.completed_at,
        final(task).task.id == old(task).task.id,
        final(task).task.started_at == old(task).task.started_at,
        final(task).task.target_asset == old(task).task.target_asset,
        final(task).task.bytes_total == old(task).task.bytes_total,
        final(task).task.bytes_downloaded == old(task).task.bytes_downloaded,
        final(task).release_version == old(task).release_version,
        final(task).download_path == old(task).download_path,
{
    let failed = matches!(status, DownloadStatus::Failed);
    task.task.status = status;
    task.task.error = error;
    if failed {
        task.task.completed_at = Some(now_iso.to_owned());
    }
}

/// Builds the response an update check returns: the cached release's data
/// when one was found, and an empty "no update" response otherwise.
pub fn make_check_update_response(release: Option<&CachedRelease>) -> (r: CheckUpdateResponse)
    ensures
        match release {
            Some(c) => {
                &&& r.has_update
                &&& r.latest_version == Some(c.version)
                &&& r.is_prerelease == Some(c.is_prerelease)
                &&& r.published_at == c.published_at
                &&& r.release_notes == c.release_notes
                &&& r.release_url == c.release_url
                &&& r.assets@.len() == c.assets@.len()
                &&& forall|i: int| 0 <= i < c.assets@.len() ==> r.assets@[i] == c.assets@[i].meta
            },
            None => {
                &&& !r.has_update
                &&& r.latest_version is None
                &&& r.is_prerelease is None
                &&& r.published_at is None
                &&& r.release_notes is None
                &&& r.release_url is None
                &&& r.assets@.len() == 0
            },
        },
{
    match release {
        Some(c) => {
            let n = c.assets.len();
            let mut metas: Vec<ReleaseAsset> = Vec::new();
            let mut i: usize = 0;
            while i < n
                invariant
                    0 <= i <= n,
                    n == c.assets@.len(),
                    metas@.len() == i,
                    forall|j: int| 0 <= j < i ==> metas@[j] == c.assets@[j].meta,
                decreases n - i,
            {
                metas.push(c.assets[i].meta.duplicate());
                i = i + 1;
            }
            CheckUpdateResponse {
                has_update: true,
                latest_version: Some(c.version.clone()),
                is_prerelease: Some(c.is_prerelease),
                published_at: clone_opt_string(&c.published_at),
                release_notes: clone_opt_string(&c.release_notes),
                release_url: clone_opt_string(&c.release_url),
                assets: metas,
            }
        },
        None => CheckUpdateResponse {
            has_update: false,
            latest_version: None,
            is_prerelease: None,
            published_at: None,
            release_notes: None,
            release_url: None,
            assets: Vec::new(),
        },
    }
}

} // verus!
