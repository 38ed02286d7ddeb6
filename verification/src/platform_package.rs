//! Platform packages: hot-update packages that add a platform to the
//! application. This module holds their declarations, the rules a manifest
//! must follow, version comparison, the choice between a local and a remote
//! source, and the state reported for each platform.
use vstd::prelude::*;
use std::cmp::Ordering;
use crate::strings::{
    any_item, clone_opt_string, clone_strings, first_error, list_contains, opt_str, opt_string_eq,
    strings_eq, strs,
};
use crate::external::{parse_url, url_parse, url_parts_view, UrlParts};
use crate::text::{
    contains, eq_ignore_case, is_ascii_hex, last_index, nat_digits, parse_u64_spec, split_char, split_pieces, starts_with,
    trim, words,
};

verus! {

broadcast use vstd::string::group_string_axioms;

/// The platforms that may be installed as packages.
pub open spec fn supported_platform_ids() -> Seq<Seq<char>> {
    seq![
        "antigravity"@,
        "antigravity_ide"@,
        "claude_manager"@,
        "zed"@,
        "kiro"@,
        "github-copilot"@,
        "windsurf"@,
        "cursor"@,
        "gemini"@,
        "trae"@,
        "qoder"@,
        "codebuddy"@,
        "codebuddy_cn"@,
        "workbuddy"@,
        "codex"@,
    ]
}

/// The one package protocol version that this application speaks.
pub const PLATFORM_PACKAGE_API_VERSION: u32 = 1;

/// A platform that a package contributes.
#[derive(Debug)]
pub struct PlatformPackagePlatformContribution {
    pub id: String,
    pub label: String,
    pub label_key: Option<String>,
    pub icon_key: Option<String>,
    pub page: String,
}

/// What a package adds to the application.
#[derive(Debug)]
pub struct PlatformPackageContributions {
    pub platforms: Vec<PlatformPackagePlatformContribution>,
    pub data_paths: Vec<String>,
    pub local_storage_keys: Vec<String>,
    pub native_boundaries: Vec<String>,
}

/// The sidecar adapter of a package.
#[derive(Debug)]
pub struct PlatformPackageAdapter {
    pub protocol: String,
    pub entry: String,
    pub macos_entry: Option<String>,
    pub windows_entry: Option<String>,
    pub linux_entry: Option<String>,
    pub methods: Vec<String>,
}

/// The user interface of a package.
#[derive(Debug)]
pub struct PlatformPackageUi {
    pub protocol: String,
    pub entry: String,
    pub style: Option<String>,
    pub exports: Vec<String>,
    pub sandbox: Option<String>,
}

/// Notes of a changelog entry in one locale.
#[derive(Debug)]
pub struct PlatformPackageChangelogLocale {
    pub notes: Vec<String>,
}

/// One entry of a package's changelog.
#[derive(Debug)]
pub struct PlatformPackageChangelogEntry {
    pub version: String,
    pub date: Option<String>,
    pub notes: Vec<String>,
    pub locales: Vec<(String, PlatformPackageChangelogLocale)>,
}

/// The manifest of a package.
#[derive(Debug)]
pub struct PlatformPackageManifest {
    pub id: String,
    pub platform_id: String,
    pub version: String,
    pub api_version: u32,
    pub min_core_version: String,
    pub display_name: String,
    pub entry: String,
    pub package_mode: String,
    pub install_kind: String,
    pub adapter: Option<PlatformPackageAdapter>,
    pub ui: Option<PlatformPackageUi>,
    pub capabilities: Vec<String>,
    pub contributions: PlatformPackageContributions,
    pub changelog: Vec<PlatformPackageChangelogEntry>,
    pub download_size_bytes: Option<u64>,
    pub sha256: Option<String>,
    pub signature: Option<String>,
}

/// The runtime entry of a package, which must agree with its manifest.
#[derive(Debug)]
pub struct PlatformPackageRuntimeEntry {
    pub package_id: String,
    pub platform_id: String,
    pub api_version: u32,
    pub adapter: Option<PlatformPackageAdapter>,
    pub ui: Option<PlatformPackageUi>,
    pub capabilities: Vec<String>,
    pub contributions: PlatformPackageContributions,
}

/// One downloadable build of a remote package.
#[derive(Debug)]
pub struct PlatformPackageRemoteArtifact {
    pub os: String,
    pub arch: String,
    pub download_url: String,
    pub download_size_bytes: Option<u64>,
    pub sha256: String,
    pub signature: Option<String>,
}

/// The build chosen for this machine.
#[derive(Debug)]
pub struct SelectedPlatformPackageArtifact {
    pub os: String,
    pub arch: String,
    pub download_url: String,
    pub download_size_bytes: Option<u64>,
    pub sha256: String,
    pub signature: Option<String>,
}

/// A package as the remote index lists it.
#[derive(Debug)]
pub struct PlatformPackageRemotePackage {
    pub id: String,
    pub platform_id: String,
    pub version: String,
    pub api_version: u32,
    pub min_core_version: String,
    pub display_name: String,
    pub entry: String,
    pub package_mode: String,
    pub install_kind: String,
    pub adapter: Option<PlatformPackageAdapter>,
    pub ui: Option<PlatformPackageUi>,
    pub capabilities: Vec<String>,
    pub contributions: PlatformPackageContributions,
    pub changelog: Vec<PlatformPackageChangelogEntry>,
    pub artifacts: Vec<PlatformPackageRemoteArtifact>,
    pub download_url: Option<String>,
    pub download_size_bytes: Option<u64>,
    pub sha256: Option<String>,
    pub signature: Option<String>,
}

/// Where a package can be installed from.
#[derive(Debug)]
pub enum PlatformPackageSource {
    Local { dir: String, manifest: PlatformPackageManifest },
    Remote { package: PlatformPackageRemotePackage, manifest: PlatformPackageManifest },
}

impl PlatformPackageSource {
    pub open spec fn manifest_spec(&self) -> &PlatformPackageManifest {
        match self {
            PlatformPackageSource::Local { manifest, .. } => manifest,
            PlatformPackageSource::Remote { manifest, .. } => manifest,
        }
    }

    /// The manifest of the source.
    pub fn manifest(&self) -> (m: &PlatformPackageManifest)
        ensures
            m == self.manifest_spec(),
    {
        match self {
            PlatformPackageSource::Local { manifest, .. } => manifest,
            PlatformPackageSource::Remote { manifest, .. } => manifest,
        }
    }
}

/// The state of a platform's package as reported to the user interface.
#[derive(Debug)]
pub struct PlatformPackageState {
    pub platform_id: String,
    pub package_mode: String,
    pub install_kind: String,
    pub install_status: String,
    pub runtime_ready: bool,
    pub installed_version: Option<String>,
    pub latest_version: Option<String>,
    pub download_size_bytes: Option<u64>,
    pub installed_size_bytes: Option<u64>,
    pub last_checked_at: Option<i64>,
    pub error_message: Option<String>,
    pub entry: Option<String>,
    pub adapter: Option<PlatformPackageAdapter>,
    pub ui: Option<PlatformPackageUi>,
    pub capabilities: Vec<String>,
    pub contributions: PlatformPackageContributions,
    pub changelog: Vec<PlatformPackageChangelogEntry>,
}

/// The user interface of an installed package, with its sources.
#[derive(Debug)]
pub struct PlatformPackageUiEntry {
    pub platform_id: String,
    pub version: String,
    pub protocol: String,
    pub entry: String,
    pub exports: Vec<String>,
    pub sandbox: Option<String>,
    pub source: String,
    pub style: Option<String>,
}

/// What the registry remembers of a platform's package.
#[derive(Debug)]
pub struct PersistedPlatformPackage {
    pub platform_id: String,
    pub installed: bool,
    pub runtime_ready: bool,
    pub installed_version: Option<String>,
    pub last_checked_at: Option<i64>,
    pub error_message: Option<String>,
}

/// The registry of installed packages.
#[derive(Debug)]
pub struct PlatformPackageRegistry {
    pub packages: Vec<PersistedPlatformPackage>,
}

/// The adapter of an installed package, located on disk.
#[derive(Debug)]
pub struct InstalledPlatformAdapter {
    pub current_dir: String,
    pub adapter: PlatformPackageAdapter,
    pub executable_path: String,
}

// ---------------------------------------------------------------------------
// Supported platforms
// ---------------------------------------------------------------------------

pub open spec fn unsupported_error(platform_id: Seq<char>) -> Seq<char> {
    "平台暂不支持热更新包: "@ + platform_id
}

/// `ensure_supported_platform`: accepts exactly the supported platforms.
pub fn ensure_supported_platform(platform_id: &str) -> (r: Result<(), String>)
    ensures
        supported_platform_ids().contains(platform_id@) ==> r is Ok,
        !supported_platform_ids().contains(platform_id@) ==> (r matches Err(m) && m@ == unsupported_error(platform_id@)),
{
    let ids: [&str; 15] = [
        "antigravity",
        "antigravity_ide",
        "claude_manager",
        "zed",
        "kiro",
        "github-copilot",
        "windsurf",
        "cursor",
        "gemini",
        "trae",
        "qoder",
        "codebuddy",
        "codebuddy_cn",
        "workbuddy",
        "codex",
    ];
    let ghost all = supported_platform_ids();
    assert(ids@.map_values(|s: &str| s@) =~= all);
    let mut i: usize = 0;
    while i < 15
        invariant
            i <= 15,
            ids@.map_values(|s: &str| s@) == all,
            all == supported_platform_ids(),
            forall|k: int| 0 <= k < i ==> all[k] != platform_id@,
        decreases 15 - i,
    {
        assert(ids@.map_values(|s: &str| s@)[i as int] == ids@[i as int]@);
        if crate::text::str_eq(ids[i], platform_id) {
            assert(all[i as int] == platform_id@);
            return Ok(());
        }
        i += 1;
    }
    Err(crate::text::concat("平台暂不支持热更新包: ", platform_id))
}

// ---------------------------------------------------------------------------
// Relative paths
// ---------------------------------------------------------------------------

/// What `safe_relative_path` gives back: the trimmed path, or the complaint
/// about an empty path, an absolute path or a path with a `..` component.
/// Paths are read as on Unix-like systems, where `/` separates components.
pub open spec fn safe_relative_path_spec(raw: Seq<char>, context: Seq<char>) -> Result<Seq<char>, Seq<char>> {
    let t = trim(raw);
    if t.len() == 0 {
        Err(context + " 为空"@)
    } else if starts_with(t, seq!['/']) {
        Err(context + " 不能是绝对路径: "@ + raw)
    } else if split_char(t, '/').contains(seq!['.', '.']) {
        Err(context + " 包含不安全路径片段: "@ + raw)
    } else {
        Ok(t)
    }
}

/// `safe_relative_path`: a relative path that stays inside the package.
pub fn safe_relative_path(raw: &str, context: &str) -> (r: Result<String, String>)
    ensures
        match safe_relative_path_spec(raw@, context@) {
            Ok(p) => r matches Ok(s) && s@ == p,
            Err(e) => r matches Err(m) && m@ == e,
        },
{
    let t = crate::text::trimmed(raw);
    if t.len() == 0 {
        return Err(crate::text::concat(context, " 为空"));
    }
    let slash = vec!['/'];
    proof { assert(slash@ =~= seq!['/']); }
    if crate::text::starts_with_chars(&t, &slash) {
        return Err(crate::text::concat(crate::text::concat(context, " 不能是绝对路径: ").as_str(), raw));
    }
    let pieces = crate::text::split_on_char(&t, '/');
    let ghost sp = pieces@.map_values(|p: Vec<char>| p@);
    let dots = vec!['.', '.'];
    proof { assert(dots@ =~= seq!['.', '.']); }
    let mut i: usize = 0;
    while i < pieces.len()
        invariant
            i <= pieces@.len(),
            sp == pieces@.map_values(|p: Vec<char>| p@),
            sp == split_char(t@, '/'),
            t@ == trim(raw@),
            t@.len() > 0,
            !starts_with(t@, seq!['/']),
            dots@ == seq!['.', '.'],
            forall|k: int| 0 <= k < i ==> sp[k] != seq!['.', '.'],
        decreases pieces@.len() - i,
    {
        if crate::text::chars_eq(&pieces[i], &dots) {
            assert(sp[i as int] == seq!['.', '.']);
            assert(sp.contains(seq!['.', '.']));
            return Err(crate::text::concat(crate::text::concat(context, " 包含不安全路径片段: ").as_str(), raw));
        }
        i += 1;
    }
    Ok(crate::text::string_of(&t))
}

// ---------------------------------------------------------------------------
// Versions
// ---------------------------------------------------------------------------

/// A separator of version parts.
pub open spec fn is_version_sep(c: char) -> bool {
    c == '.' || c == '-' || c == '+'
}

/// `parse_version`: at most three numeric parts; a part that is not a number counts 0.
pub open spec fn version_parts(value: Seq<char>) -> Seq<u64> {
    let pieces = split_pieces(trim(value), |c: char| is_version_sep(c));
    let n = if pieces.len() < 3 {
        pieces.len()
    } else {
        3
    };
    Seq::new(
        n,
        |i: int|
            match parse_u64_spec(pieces[i]) {
                Some(v) => v,
                None => 0u64,
            },
    )
}

/// Part `i` of a version, 0 when absent.
pub open spec fn version_part(value: Seq<char>, i: int) -> int {
    if i < version_parts(value).len() {
        version_parts(value)[i] as int
    } else {
        0
    }
}

/// The three-part key by which versions are ordered.
pub open spec fn version_key(value: Seq<char>) -> (int, int, int) {
    (version_part(value, 0), version_part(value, 1), version_part(value, 2))
}

/// Lexicographic order of version keys: -1, 0 or 1.
pub open spec fn key_order(a: (int, int, int), b: (int, int, int)) -> int {
    if a.0 < b.0 {
        -1
    } else if a.0 > b.0 {
        1
    } else if a.1 < b.1 {
        -1
    } else if a.1 > b.1 {
        1
    } else if a.2 < b.2 {
        -1
    } else if a.2 > b.2 {
        1
    } else {
        0
    }
}

/// The order of two versions: -1, 0 or 1.
pub open spec fn version_order(left: Seq<char>, right: Seq<char>) -> int {
    key_order(version_key(left), version_key(right))
}

/// `parse_version`.
pub fn parse_version(value: &str) -> (r: Vec<u64>)
    ensures
        r@ == version_parts(value@),
{
    let t = crate::text::trimmed(value);
    let pieces = split_version_pieces(&t);
    let ghost sp = pieces@.map_values(|p: Vec<char>| p@);
    let n: usize = if pieces.len() < 3 { pieces.len() } else { 3 };
    let mut r: Vec<u64> = Vec::new();
    let mut i: usize = 0;
    while i < n
        invariant
            i <= n,
            n <= pieces@.len(),
            sp == pieces@.map_values(|p: Vec<char>| p@),
            sp == split_pieces(t@, |c: char| is_version_sep(c)),
            n == if sp.len() < 3 { sp.len() } else { 3 },
            r@.len() == i,
            forall|k: int| 0 <= k < i ==> r@[k] == match parse_u64_spec(sp[k]) {
                Some(v) => v,
                None => 0u64,
            },
        decreases n - i,
    {
        let v = match crate::text::parse_u64_chars(&pieces[i]) {
            Some(v) => v,
            None => 0,
        };
        r.push(v);
        i += 1;
    }
    assert(r@ =~= version_parts(value@));
    r
}

/// `str::split` with the version separators.
fn split_version_pieces(v: &[char]) -> (r: Vec<Vec<char>>)
    ensures
        r@.map_values(|p: Vec<char>| p@) == split_pieces(v@, |c: char| is_version_sep(c)),
{
    let ghost sep = |c: char| is_version_sep(c);
    let mut r: Vec<Vec<char>> = Vec::new();
    let mut cur: Vec<char> = Vec::new();
    let mut i: usize = 0;
    assert(v@.take(0) =~= Seq::<char>::empty());
    while i < v.len()
        invariant
            i <= v.len(),
            sep == (|c: char| is_version_sep(c)),
            r@.map_values(|p: Vec<char>| p@).push(cur@) == split_pieces(v@.take(i as int), sep),
        decreases v.len() - i,
    {
        let ghost before = r@.map_values(|p: Vec<char>| p@).push(cur@);
        assert(v@.take(i + 1).drop_last() =~= v@.take(i as int));
        assert(v@.take(i + 1).last() == v@[i as int]);
        let c = v[i];
        if c == '.' || c == '-' || c == '+' {
            r.push(cur);
            cur = Vec::new();
            assert(r@.map_values(|p: Vec<char>| p@).push(cur@) =~= before.push(Seq::<char>::empty()));
        } else {
            cur.push(c);
            assert(r@.map_values(|p: Vec<char>| p@).push(cur@) =~= before.update(
                before.len() - 1,
                before.last().push(v@[i as int]),
            ));
        }
        i += 1;
    }
    assert(v@.take(v.len() as int) =~= v@);
    let ghost before = r@.map_values(|p: Vec<char>| p@);
    r.push(cur);
    assert(r@.map_values(|p: Vec<char>| p@) =~= before.push(cur@));
    r
}

/// Part `i` of a parsed version, 0 when absent.
fn part_or_zero(parts: &Vec<u64>, i: usize) -> (r: u64)
    ensures
        r as int == if i < parts@.len() {
            parts@[i as int] as int
        } else {
            0
        },
{
    if i < parts.len() {
        parts[i]
    } else {
        0
    }
}

/// `compare_versions`: versions ordered by their first three numeric parts.
pub fn compare_versions(left: &str, right: &str) -> (r: Ordering)
    ensures
        (r == Ordering::Less) == (version_order(left@, right@) == -1),
        (r == Ordering::Equal) == (version_order(left@, right@) == 0),
        (r == Ordering::Greater) == (version_order(left@, right@) == 1),
{
    let l = parse_version(left);
    let r = parse_version(right);
    let l0 = part_or_zero(&l, 0);
    let l1 = part_or_zero(&l, 1);
    let l2 = part_or_zero(&l, 2);
    let r0 = part_or_zero(&r, 0);
    let r1 = part_or_zero(&r, 1);
    let r2 = part_or_zero(&r, 2);
    if l0 < r0 {
        Ordering::Less
    } else if l0 > r0 {
        Ordering::Greater
    } else if l1 < r1 {
        Ordering::Less
    } else if l1 > r1 {
        Ordering::Greater
    } else if l2 < r2 {
        Ordering::Less
    } else if l2 > r2 {
        Ordering::Greater
    } else {
        Ordering::Equal
    }
}

/// Whether `left` is an older version than `right`.
pub fn is_older_version(left: &str, right: &str) -> (r: bool)
    ensures
        r == (version_order(left@, right@) == -1),
{
    match compare_versions(left, right) {
        Ordering::Less => true,
        _ => false,
    }
}

/// Every version is equal to itself.
pub proof fn law_version_order_reflexive(v: Seq<char>)
    ensures
        version_order(v, v) == 0,
{
}

/// Comparing the other way round gives the opposite order.
pub proof fn law_version_order_antisymmetric(a: Seq<char>, b: Seq<char>)
    ensures
        version_order(a, b) == -version_order(b, a),
{
}

/// The order of versions is transitive.
pub proof fn law_version_order_transitive(a: Seq<char>, b: Seq<char>, c: Seq<char>)
    requires
        version_order(a, b) <= 0,
        version_order(b, c) <= 0,
    ensures
        version_order(a, c) <= 0,
        version_order(a, b) == -1 || version_order(b, c) == -1 ==> version_order(a, c) == -1,
{
}

/// Versions compare lexicographically on their first three numeric parts
/// (an absent part counts as 0): greater when the first part that differs
/// is greater, equal only when all three agree, less otherwise.
pub proof fn law_compare_versions_on_three_parts(left: Seq<char>, right: Seq<char>, r: Ordering)
    requires
        (r == Ordering::Less) == (version_order(left, right) == -1),
        (r == Ordering::Equal) == (version_order(left, right) == 0),
        (r == Ordering::Greater) == (version_order(left, right) == 1),
    ensures
        (r == Ordering::Greater) <==> {
            ||| version_part(left, 0) > version_part(right, 0)
            ||| version_part(left, 0) == version_part(right, 0) && version_part(left, 1) > version_part(right, 1)
            ||| version_part(left, 0) == version_part(right, 0) && version_part(left, 1) == version_part(right, 1)
                && version_part(left, 2) > version_part(right, 2)
        },
        (r == Ordering::Equal) <==> {
            &&& version_part(left, 0) == version_part(right, 0)
            &&& version_part(left, 1) == version_part(right, 1)
            &&& version_part(left, 2) == version_part(right, 2)
        },
        (r == Ordering::Less) <==> {
            ||| version_part(left, 0) < version_part(right, 0)
            ||| version_part(left, 0) == version_part(right, 0) && version_part(left, 1) < version_part(right, 1)
            ||| version_part(left, 0) == version_part(right, 0) && version_part(left, 1) == version_part(right, 1)
                && version_part(left, 2) < version_part(right, 2)
        },
{
}

// ---------------------------------------------------------------------------
// Choosing a source
// ---------------------------------------------------------------------------

/// `pick_latest_source`: the remote source only when it is strictly newer
/// than the local one; otherwise whichever exists.
pub fn pick_latest_source(
    remote: Option<PlatformPackageSource>,
    local: Option<PlatformPackageSource>,
) -> (r: Option<PlatformPackageSource>)
    ensures
        match (remote, local) {
            (Some(rs), Some(ls)) => if version_order(rs.manifest_spec().version@, ls.manifest_spec().version@) == 1 {
                r == Some(rs)
            } else {
                r == Some(ls)
            },
            (Some(rs), None) => r == Some(rs),
            (None, Some(ls)) => r == Some(ls),
            (None, None) => r is None,
        },
{
    match (remote, local) {
        (Some(remote), Some(local)) => {
            let newer = match compare_versions(remote.manifest().version.as_str(), local.manifest().version.as_str()) {
                Ordering::Greater => true,
                _ => false,
            };
            if newer {
                Some(remote)
            } else {
                Some(local)
            }
        },
        (Some(remote), None) => Some(remote),
        (None, Some(local)) => Some(local),
        (None, None) => None,
    }
}

/// Of a remote and a local source, the remote one is taken exactly when its
/// version is newer on the first three numeric parts: a larger first part,
/// or the same first and a larger second, or the same first two and a larger
/// third (so a newer patch release is taken); otherwise the local one.
pub proof fn law_pick_latest_source_takes_newer_remote(
    rs: PlatformPackageSource,
    ls: PlatformPackageSource,
    r: Option<PlatformPackageSource>,
)
    requires
        if version_order(rs.manifest_spec().version@, ls.manifest_spec().version@) == 1 {
            r == Some(rs)
        } else {
            r == Some(ls)
        },
    ensures
        ({
            let a = rs.manifest_spec().version@;
            let b = ls.manifest_spec().version@;
            ||| version_part(a, 0) > version_part(b, 0)
            ||| version_part(a, 0) == version_part(b, 0) && version_part(a, 1) > version_part(b, 1)
            ||| version_part(a, 0) == version_part(b, 0) && version_part(a, 1) == version_part(b, 1)
                && version_part(a, 2) > version_part(b, 2)
        }) ==> r == Some(rs),
        !({
            let a = rs.manifest_spec().version@;
            let b = ls.manifest_spec().version@;
            ||| version_part(a, 0) > version_part(b, 0)
            ||| version_part(a, 0) == version_part(b, 0) && version_part(a, 1) > version_part(b, 1)
            ||| version_part(a, 0) == version_part(b, 0) && version_part(a, 1) == version_part(b, 1)
                && version_part(a, 2) > version_part(b, 2)
        }) ==> r == Some(ls),
{
}

// ---------------------------------------------------------------------------
// Declarations compared by content
// ---------------------------------------------------------------------------

/// The content of a platform contribution.
pub open spec fn contribution_view(c: PlatformPackagePlatformContribution) -> (
    Seq<char>,
    Seq<char>,
    Option<Seq<char>>,
    Option<Seq<char>>,
    Seq<char>,
) {
    (c.id@, c.label@, opt_str(c.label_key), opt_str(c.icon_key), c.page@)
}

/// The content of a package's contributions.
pub open spec fn contributions_view(c: PlatformPackageContributions) -> (
    Seq<(Seq<char>, Seq<char>, Option<Seq<char>>, Option<Seq<char>>, Seq<char>)>,
    Seq<Seq<char>>,
    Seq<Seq<char>>,
    Seq<Seq<char>>,
) {
    (
        c.platforms@.map_values(|p: PlatformPackagePlatformContribution| contribution_view(p)),
        strs(c.data_paths@),
        strs(c.local_storage_keys@),
        strs(c.native_boundaries@),
    )
}

/// The content of an adapter declaration.
pub open spec fn adapter_view(a: PlatformPackageAdapter) -> (
    Seq<char>,
    Seq<char>,
    Option<Seq<char>>,
    Option<Seq<char>>,
    Option<Seq<char>>,
    Seq<Seq<char>>,
) {
    (a.protocol@, a.entry@, opt_str(a.macos_entry), opt_str(a.windows_entry), opt_str(a.linux_entry), strs(a.methods@))
}

/// The content of an optional adapter declaration.
pub open spec fn opt_adapter_view(a: Option<PlatformPackageAdapter>) -> Option<
    (Seq<char>, Seq<char>, Option<Seq<char>>, Option<Seq<char>>, Option<Seq<char>>, Seq<Seq<char>>),
> {
    match a {
        Some(x) => Some(adapter_view(x)),
        None => None,
    }
}

/// The content of a user interface declaration.
pub open spec fn ui_view(u: PlatformPackageUi) -> (
    Seq<char>,
    Seq<char>,
    Option<Seq<char>>,
    Seq<Seq<char>>,
    Option<Seq<char>>,
) {
    (u.protocol@, u.entry@, opt_str(u.style), strs(u.exports@), opt_str(u.sandbox))
}

/// The content of an optional user interface declaration.
pub open spec fn opt_ui_view(u: Option<PlatformPackageUi>) -> Option<
    (Seq<char>, Seq<char>, Option<Seq<char>>, Seq<Seq<char>>, Option<Seq<char>>),
> {
    match u {
        Some(x) => Some(ui_view(x)),
        None => None,
    }
}

/// Equality of two platform contributions.
pub fn contribution_eq(a: &PlatformPackagePlatformContribution, b: &PlatformPackagePlatformContribution) -> (r: bool)
    ensures
        r == (contribution_view(*a) == contribution_view(*b)),
{
    crate::text::str_eq(a.id.as_str(), b.id.as_str()) && crate::text::str_eq(a.label.as_str(), b.label.as_str())
        && opt_string_eq(&a.label_key, &b.label_key) && opt_string_eq(&a.icon_key, &b.icon_key)
        && crate::text::str_eq(a.page.as_str(), b.page.as_str())
}

/// Equality of two sets of contributions.
pub fn contributions_eq(a: &PlatformPackageContributions, b: &PlatformPackageContributions) -> (r: bool)
    ensures
        r == (contributions_view(*a) == contributions_view(*b)),
{
    let ghost va = a.platforms@.map_values(|p: PlatformPackagePlatformContribution| contribution_view(p));
    let ghost vb = b.platforms@.map_values(|p: PlatformPackagePlatformContribution| contribution_view(p));
    if a.platforms.len() != b.platforms.len() {
        assert(va.len() != vb.len());
        return false;
    }
    let mut i: usize = 0;
    while i < a.platforms.len()
        invariant
            i <= a.platforms@.len(),
            a.platforms@.len() == b.platforms@.len(),
            va == a.platforms@.map_values(|p: PlatformPackagePlatformContribution| contribution_view(p)),
            vb == b.platforms@.map_values(|p: PlatformPackagePlatformContribution| contribution_view(p)),
            forall|k: int| 0 <= k < i ==> va[k] == vb[k],
        decreases a.platforms@.len() - i,
    {
        if !contribution_eq(&a.platforms[i], &b.platforms[i]) {
            assert(va[i as int] != vb[i as int]);
            return false;
        }
        i += 1;
    }
    assert(va =~= vb);
    strings_eq(&a.data_paths, &b.data_paths) && strings_eq(&a.local_storage_keys, &b.local_storage_keys)
        && strings_eq(&a.native_boundaries, &b.native_boundaries)
}

/// Equality of two optional adapter declarations.
pub fn opt_adapter_eq(a: &Option<PlatformPackageAdapter>, b: &Option<PlatformPackageAdapter>) -> (r: bool)
    ensures
        r == (opt_adapter_view(*a) == opt_adapter_view(*b)),
{
    match (a, b) {
        (Some(x), Some(y)) => {
            crate::text::str_eq(x.protocol.as_str(), y.protocol.as_str()) && crate::text::str_eq(
                x.entry.as_str(),
                y.entry.as_str(),
            ) && opt_string_eq(&x.macos_entry, &y.macos_entry) && opt_string_eq(
                &x.windows_entry,
                &y.windows_entry,
            ) && opt_string_eq(&x.linux_entry, &y.linux_entry) && strings_eq(&x.methods, &y.methods)
        },
        (None, None) => true,
        _ => false,
    }
}

/// Equality of two optional user interface declarations.
pub fn opt_ui_eq(a: &Option<PlatformPackageUi>, b: &Option<PlatformPackageUi>) -> (r: bool)
    ensures
        r == (opt_ui_view(*a) == opt_ui_view(*b)),
{
    match (a, b) {
        (Some(x), Some(y)) => {
            crate::text::str_eq(x.protocol.as_str(), y.protocol.as_str()) && crate::text::str_eq(
                x.entry.as_str(),
                y.entry.as_str(),
            ) && opt_string_eq(&x.style, &y.style) && strings_eq(&x.exports, &y.exports)
                && opt_string_eq(&x.sandbox, &y.sandbox)
        },
        (None, None) => true,
        _ => false,
    }
}

// ---------------------------------------------------------------------------
// Manifest rules
// ---------------------------------------------------------------------------

/// Whether a text is empty once trimmed.
pub open spec fn blank(s: Seq<char>) -> bool {
    trim(s).len() == 0
}

/// The complaint about an unsafe path, if any.
pub open spec fn path_error(p: Seq<char>, context: Seq<char>) -> Option<Seq<char>> {
    match safe_relative_path_spec(p, context) {
        Err(e) => Some(e),
        Ok(_) => None,
    }
}

/// The path check for one context, as a function of the path.
pub open spec fn path_check(context: Seq<char>) -> spec_fn(Seq<char>) -> Option<Seq<char>> {
    |p: Seq<char>| path_error(p, context)
}

/// The complaint about one platform contribution, if any.
pub open spec fn platform_contribution_error(
    platform_id: Seq<char>,
    p: PlatformPackagePlatformContribution,
) -> Option<Seq<char>> {
    if p.id@ != platform_id {
        Some("平台包贡献包含非本平台 ID: "@ + p.id@)
    } else if blank(p.label@) {
        Some("平台包贡献 label 为空"@)
    } else if blank(p.page@) {
        Some("平台包贡献 page 为空"@)
    } else {
        None
    }
}

/// The contribution check for one platform, as a function of the contribution.
pub open spec fn contribution_check(platform_id: Seq<char>) -> spec_fn(
    PlatformPackagePlatformContribution,
) -> Option<Seq<char>> {
    |p: PlatformPackagePlatformContribution| platform_contribution_error(platform_id, p)
}

/// Whether a contribution is for the platform.
pub open spec fn is_for_platform(platform_id: Seq<char>) -> spec_fn(PlatformPackagePlatformContribution) -> bool {
    |p: PlatformPackagePlatformContribution| p.id@ == platform_id
}

/// The first complaint about a package's contributions, in the order the
/// rules are checked; `None` when they are acceptable.
pub open spec fn contributions_error(platform_id: Seq<char>, c: PlatformPackageContributions) -> Option<
    Seq<char>,
> {
    if !any_item(c.platforms@, is_for_platform(platform_id)) {
        Some("平台包缺少平台贡献: "@ + platform_id)
    } else if first_error(c.platforms@, contribution_check(platform_id), 0) is Some {
        first_error(c.platforms@, contribution_check(platform_id), 0)
    } else if first_error(strs(c.data_paths@), path_check("平台包 dataPath"@), 0) is Some {
        first_error(strs(c.data_paths@), path_check("平台包 dataPath"@), 0)
    } else if first_error(strs(c.native_boundaries@), path_check("平台包 nativeBoundary"@), 0) is Some {
        first_error(strs(c.native_boundaries@), path_check("平台包 nativeBoundary"@), 0)
    } else if exists|k: int| 0 <= k < c.local_storage_keys@.len() && blank(#[trigger] c.local_storage_keys@[k]@) {
        Some("平台包 localStorage key 为空"@)
    } else {
        None
    }
}

/// The first path of the list that is not a safe relative path, reported.
fn first_unsafe_path(paths: &Vec<String>, context: &str) -> (r: Option<String>)
    ensures
        opt_str(r) == first_error(strs(paths@), path_check(context@), 0),
{
    let ghost s = strs(paths@);
    let ghost f = path_check(context@);
    let mut i: usize = 0;
    while i < paths.len()
        invariant
            i <= paths@.len(),
            s == strs(paths@),
            f == path_check(context@),
            first_error(s, f, 0) == first_error(s, f, i as int),
        decreases paths@.len() - i,
    {
        assert(s[i as int] == paths@[i as int]@);
        match safe_relative_path(paths[i].as_str(), context) {
            Err(e) => {
                return Some(e);
            },
            Ok(_) => {},
        }
        i += 1;
    }
    None
}

/// `validate_platform_contributions`: the package contributes its own
/// platform, with a label and a page, and declares safe paths and keys.
pub fn validate_platform_contributions(
    platform_id: &str,
    contributions: &PlatformPackageContributions,
) -> (r: Result<(), String>)
    ensures
        match contributions_error(platform_id@, *contributions) {
            Some(e) => r matches Err(m) && m@ == e,
            None => r is Ok,
        },
{
    let ps = &contributions.platforms;
    let mut found = false;
    let mut j: usize = 0;
    while j < ps.len()
        invariant
            j <= ps@.len(),
            found == exists|k: int| 0 <= k < j && #[trigger] ps@[k].id@ == platform_id@,
        decreases ps@.len() - j,
    {
        if crate::text::str_eq(ps[j].id.as_str(), platform_id) {
            found = true;
        }
        j += 1;
    }
    if !found {
        assert(!any_item(ps@, is_for_platform(platform_id@)));
        return Err(crate::text::concat("平台包缺少平台贡献: ", platform_id));
    }
    assert(any_item(ps@, is_for_platform(platform_id@))) by {
        let k = choose|k: int| 0 <= k < ps@.len() && #[trigger] ps@[k].id@ == platform_id@;
        assert(is_for_platform(platform_id@)(ps@[k]));
    }
    let ghost f = contribution_check(platform_id@);
    let mut i: usize = 0;
    while i < ps.len()
        invariant
            i <= ps@.len(),
            f == contribution_check(platform_id@),
            ps@ == contributions.platforms@,
            any_item(ps@, is_for_platform(platform_id@)),
            first_error(ps@, f, 0) == first_error(ps@, f, i as int),
        decreases ps@.len() - i,
    {
        let p = &ps[i];
        if !crate::text::str_eq(p.id.as_str(), platform_id) {
            return Err(crate::text::concat("平台包贡献包含非本平台 ID: ", p.id.as_str()));
        }
        if crate::text::trimmed(p.label.as_str()).len() == 0 {
            return Err("平台包贡献 label 为空".to_string());
        }
        if crate::text::trimmed(p.page.as_str()).len() == 0 {
            return Err("平台包贡献 page 为空".to_string());
        }
        i += 1;
    }
    match first_unsafe_path(&contributions.data_paths, "平台包 dataPath") {
        Some(e) => {
            return Err(e);
        },
        None => {},
    }
    match first_unsafe_path(&contributions.native_boundaries, "平台包 nativeBoundary") {
        Some(e) => {
            return Err(e);
        },
        None => {},
    }
    let keys = &contributions.local_storage_keys;
    let mut k: usize = 0;
    while k < keys.len()
        invariant
            k <= keys@.len(),
            keys@ == contributions.local_storage_keys@,
            any_item(contributions.platforms@, is_for_platform(platform_id@)),
            first_error(contributions.platforms@, contribution_check(platform_id@), 0) is None,
            first_error(strs(contributions.data_paths@), path_check("平台包 dataPath"@), 0) is None,
            first_error(strs(contributions.native_boundaries@), path_check("平台包 nativeBoundary"@), 0)
                is None,
            forall|m: int| 0 <= m < k ==> !blank(#[trigger] keys@[m]@),
        decreases keys@.len() - k,
    {
        if crate::text::trimmed(keys[k].as_str()).len() == 0 {
            return Err("平台包 localStorage key 为空".to_string());
        }
        k += 1;
    }
    Ok(())
}

/// The first complaint about a manifest's metadata, in the order the rules
/// are checked; `core_version` is the version of the running application.
pub open spec fn manifest_metadata_error(
    platform_id: Seq<char>,
    m: PlatformPackageManifest,
    core_version: Seq<char>,
) -> Option<Seq<char>> {
    if !supported_platform_ids().contains(platform_id) {
        Some(unsupported_error(platform_id))
    } else if m.id@ != platform_id || m.platform_id@ != platform_id {
        Some(
            "平台包 ID 不匹配: expected="@ + platform_id + ", id="@ + m.id@ + ", platformId="@
                + m.platform_id@,
        )
    } else if m.package_mode@ != "hotUpdate"@ {
        Some("平台包模式非法: "@ + m.package_mode@)
    } else if m.install_kind@ != "coreNativeBoundary"@ && m.install_kind@ != "sidecarAdapter"@ {
        Some("平台包安装形态非法: "@ + m.install_kind@)
    } else if m.api_version != PLATFORM_PACKAGE_API_VERSION {
        Some("平台包协议版本不兼容: expected=1, actual="@ + nat_digits(m.api_version as nat))
    } else if blank(m.version@) {
        Some("平台包版本为空"@)
    } else if version_order(core_version, m.min_core_version@) == -1 {
        Some("主应用版本不兼容，平台包需要 "@ + m.min_core_version@ + " 或更高版本"@)
    } else if m.capabilities@.len() == 0 {
        Some("平台包 capabilities 为空"@)
    } else {
        contributions_error(platform_id, m.contributions)
    }
}

/// `validate_manifest_metadata`: the manifest belongs to the platform, is a
/// hot-update package of a known kind, speaks this protocol version, has a
/// version, fits the running application `core_version`, declares
/// capabilities and acceptable contributions.
pub fn validate_manifest_metadata(
    platform_id: &str,
    manifest: &PlatformPackageManifest,
    core_version: &str,
) -> (r: Result<(), String>)
    ensures
        match manifest_metadata_error(platform_id@, *manifest, core_version@) {
            Some(e) => r matches Err(m) && m@ == e,
            None => r is Ok,
        },
{
    ensure_supported_platform(platform_id)?;
    if !crate::text::str_eq(manifest.id.as_str(), platform_id) || !crate::text::str_eq(
        manifest.platform_id.as_str(),
        platform_id,
    ) {
        let a = crate::text::concat("平台包 ID 不匹配: expected=", platform_id);
        let b = crate::text::concat(a.as_str(), ", id=");
        let c = crate::text::concat(b.as_str(), manifest.id.as_str());
        let d = crate::text::concat(c.as_str(), ", platformId=");
        return Err(crate::text::concat(d.as_str(), manifest.platform_id.as_str()));
    }
    if !crate::text::str_eq(manifest.package_mode.as_str(), "hotUpdate") {
        return Err(crate::text::concat("平台包模式非法: ", manifest.package_mode.as_str()));
    }
    if !crate::text::str_eq(manifest.install_kind.as_str(), "coreNativeBoundary") && !crate::text::str_eq(
        manifest.install_kind.as_str(),
        "sidecarAdapter",
    ) {
        return Err(crate::text::concat("平台包安装形态非法: ", manifest.install_kind.as_str()));
    }
    if manifest.api_version != PLATFORM_PACKAGE_API_VERSION {
        let n = crate::text::u32_text(manifest.api_version);
        return Err(crate::text::concat("平台包协议版本不兼容: expected=1, actual=", n.as_str()));
    }
    if crate::text::trimmed(manifest.version.as_str()).len() == 0 {
        return Err("平台包版本为空".to_string());
    }
    if is_older_version(core_version, manifest.min_core_version.as_str()) {
        let a = crate::text::concat("主应用版本不兼容，平台包需要 ", manifest.min_core_version.as_str());
        return Err(crate::text::concat(a.as_str(), " 或更高版本"));
    }
    if manifest.capabilities.len() == 0 {
        return Err("平台包 capabilities 为空".to_string());
    }
    validate_platform_contributions(platform_id, &manifest.contributions)
}

// ---------------------------------------------------------------------------
// Adapter and user interface declarations
// ---------------------------------------------------------------------------

/// The adapter entry for the operating system `os` ("macos", "windows",
/// "linux" or another): its own entry where declared, else the common one.
pub open spec fn selected_entry_spec(a: PlatformPackageAdapter, os: Seq<char>) -> Seq<char> {
    let own = if os == "macos"@ {
        opt_str(a.macos_entry)
    } else if os == "windows"@ {
        opt_str(a.windows_entry)
    } else if os == "linux"@ {
        opt_str(a.linux_entry)
    } else {
        None
    };
    match own {
        Some(e) => e,
        None => a.entry@,
    }
}

/// `selected_adapter_entry`: the adapter entry for the operating system `os`.
pub fn selected_adapter_entry<'a>(adapter: &'a PlatformPackageAdapter, os: &str) -> (r: &'a str)
    ensures
        r@ == selected_entry_spec(*adapter, os@),
{
    let own = if crate::text::str_eq(os, "macos") {
        &adapter.macos_entry
    } else if crate::text::str_eq(os, "windows") {
        &adapter.windows_entry
    } else if crate::text::str_eq(os, "linux") {
        &adapter.linux_entry
    } else {
        return adapter.entry.as_str();
    };
    match own {
        Some(e) => e.as_str(),
        None => adapter.entry.as_str(),
    }
}

/// The first complaint about a manifest's adapter, if any; `entry_is_file`
/// says whether the selected entry is a file inside the package.
pub open spec fn adapter_error(
    platform_id: Seq<char>,
    m: PlatformPackageManifest,
    os: Seq<char>,
    entry_is_file: bool,
) -> Option<Seq<char>> {
    match m.adapter {
        None => if m.install_kind@ == "sidecarAdapter"@ {
            Some("sidecarAdapter 平台包缺少 adapter 声明: "@ + platform_id)
        } else {
            None
        },
        Some(a) => {
            let entry = selected_entry_spec(a, os);
            if trim(a.protocol@) != "http-json-v1"@ {
                Some("平台包 adapter 协议不支持: "@ + a.protocol@)
            } else if a.methods@.len() == 0 {
                Some("平台包 adapter methods 为空"@)
            } else if path_error(entry, "平台包 adapter entry"@) is Some {
                path_error(entry, "平台包 adapter entry"@)
            } else if !entry_is_file {
                Some("平台包 adapter entry 不存在: "@ + entry)
            } else {
                None
            }
        },
    }
}

/// `validate_adapter`: a sidecar package declares an adapter; a declared
/// adapter speaks the supported protocol, has methods and a safe entry that
/// is a file (`entry_is_file`, as found on disk by the caller).
pub fn validate_adapter(
    platform_id: &str,
    manifest: &PlatformPackageManifest,
    os: &str,
    entry_is_file: bool,
) -> (r: Result<(), String>)
    ensures
        match adapter_error(platform_id@, *manifest, os@, entry_is_file) {
            Some(e) => r matches Err(m) && m@ == e,
            None => r is Ok,
        },
{
    let adapter = match &manifest.adapter {
        Some(a) => a,
        None => {
            if crate::text::str_eq(manifest.install_kind.as_str(), "sidecarAdapter") {
                return Err(crate::text::concat("sidecarAdapter 平台包缺少 adapter 声明: ", platform_id));
            }
            return Ok(());
        },
    };
    if !crate::text::chars_eq_str(&crate::text::trimmed(adapter.protocol.as_str()), "http-json-v1") {
        return Err(crate::text::concat("平台包 adapter 协议不支持: ", adapter.protocol.as_str()));
    }
    if adapter.methods.len() == 0 {
        return Err("平台包 adapter methods 为空".to_string());
    }
    let entry = selected_adapter_entry(adapter, os);
    safe_relative_path(entry, "平台包 adapter entry")?;
    if !entry_is_file {
        return Err(crate::text::concat("平台包 adapter entry 不存在: ", entry));
    }
    Ok(())
}

/// Whether a path component names something (it is neither empty nor `.`).
pub open spec fn is_named_component(c: Seq<char>) -> bool {
    c.len() > 0 && c != seq!['.']
}

/// The last named component among `ps`.
pub open spec fn last_named(ps: Seq<Seq<char>>) -> Option<Seq<char>>
    decreases ps.len(),
{
    if ps.len() == 0 {
        None
    } else if is_named_component(ps.last()) {
        Some(ps.last())
    } else {
        last_named(ps.drop_last())
    }
}

/// The extension of a file name: what follows its last dot, unless the
/// name has no dot or only a leading one.
pub open spec fn name_extension(name: Seq<char>) -> Option<Seq<char>> {
    match last_index(name, '.') {
        Some(i) => if i == 0 {
            None
        } else {
            Some(name.subrange(i + 1, name.len() as int))
        },
        None => None,
    }
}

/// The extension of a relative path, read as `Path::extension` reads it.
pub open spec fn path_extension(p: Seq<char>) -> Option<Seq<char>> {
    match last_named(split_char(p, '/')) {
        Some(name) => if name == seq!['.', '.'] {
            None
        } else {
            name_extension(name)
        },
        None => None,
    }
}

/// The extension of a path, or the empty text.
pub open spec fn extension_or_empty(p: Seq<char>) -> Seq<char> {
    match path_extension(p) {
        Some(e) => e,
        None => Seq::<char>::empty(),
    }
}

/// The extension of a relative path.
fn path_extension_exec(p: &[char]) -> (r: Option<Vec<char>>)
    ensures
        match path_extension(p@) {
            Some(e) => r matches Some(v) && v@ == e,
            None => r is None,
        },
{
    let pieces = crate::text::split_on_char(p, '/');
    let ghost sp = pieces@.map_values(|x: Vec<char>| x@);
    let mut i: usize = pieces.len();
    assert(sp.take(sp.len() as int) =~= sp);
    let dot = vec!['.'];
    proof { assert(dot@ =~= seq!['.']); }
    while i > 0
        invariant
            i <= pieces@.len(),
            sp == pieces@.map_values(|x: Vec<char>| x@),
            sp == split_char(p@, '/'),
            dot@ == seq!['.'],
            last_named(sp) == last_named(sp.take(i as int)),
        decreases i,
    {
        assert(sp.take(i as int).drop_last() =~= sp.take(i - 1));
        assert(sp.take(i as int).last() == pieces@[i - 1]@);
        let piece = &pieces[i - 1];
        if piece.len() > 0 && !crate::text::chars_eq(piece, &dot) {
            let dotdot = vec!['.', '.'];
            proof { assert(dotdot@ =~= seq!['.', '.']); }
            if crate::text::chars_eq(piece, &dotdot) {
                return None;
            }
            return match crate::text::rfind_char(piece, '.') {
                Some(k) => if k == 0 {
                    None
                } else {
                    Some(crate::text::slice_range(piece, k + 1, piece.len()))
                },
                None => None,
            };
        }
        i -= 1;
    }
    None
}

/// The sandbox permissions a framed user interface may ask for.
pub open spec fn allowed_sandbox_tokens() -> Seq<Seq<char>> {
    seq!["allow-scripts"@, "allow-forms"@, "allow-popups"@, "allow-downloads"@, "allow-modals"@]
}

/// The complaint about one sandbox permission, if it is not allowed.
pub open spec fn sandbox_token_error(token: Seq<char>) -> Option<Seq<char>> {
    if allowed_sandbox_tokens().contains(token) {
        None
    } else {
        Some("平台包 UI sandbox 权限不支持: "@ + token)
    }
}

/// The sandbox check, as a function of the permission.
pub open spec fn sandbox_check() -> spec_fn(Seq<char>) -> Option<Seq<char>> {
    |t: Seq<char>| sandbox_token_error(t)
}

/// The first complaint about a manifest's user interface, if any.
/// `entry_is_file` and `style_is_file` say whether the entry and the style
/// are files inside the package.
pub open spec fn ui_error(m: PlatformPackageManifest, entry_is_file: bool, style_is_file: bool) -> Option<
    Seq<char>,
> {
    match m.ui {
        None => None,
        Some(ui) => {
            let protocol = trim(ui.protocol@);
            let ext = extension_or_empty(trim(ui.entry@));
            if path_error(ui.entry@, "平台包 UI entry"@) is Some {
                path_error(ui.entry@, "平台包 UI entry"@)
            } else if !entry_is_file {
                Some("平台包 UI entry 不存在: "@ + ui.entry@)
            } else if protocol == "react-remote-esm-v1"@ {
                if !eq_ignore_case(ext, "js"@) && !eq_ignore_case(ext, "mjs"@) {
                    Some("平台包 remote UI entry 必须是 JS/MJS 文件: "@ + ui.entry@)
                } else if !strs(ui.exports@).contains("mount"@) {
                    Some("平台包 remote UI 必须声明 mount 导出"@)
                } else {
                    match ui.style {
                        None => None,
                        Some(st) => if path_error(st@, "平台包 UI style"@) is Some {
                            path_error(st@, "平台包 UI style"@)
                        } else if !style_is_file {
                            Some("平台包 UI style 不存在: "@ + st@)
                        } else if !(path_extension(trim(st@)) is Some && eq_ignore_case(
                            extension_or_empty(trim(st@)),
                            "css"@,
                        )) {
                            Some("平台包 UI style 必须是 CSS 文件: "@ + st@)
                        } else {
                            None
                        },
                    }
                }
            } else if protocol == "iframe-html-v1"@ {
                if !eq_ignore_case(ext, "html"@) {
                    Some("平台包 UI entry 必须是 HTML 文件: "@ + ui.entry@)
                } else {
                    match ui.sandbox {
                        None => None,
                        Some(sb) => first_error(words(sb@), sandbox_check(), 0),
                    }
                }
            } else {
                Some("平台包 UI 协议不支持: "@ + ui.protocol@)
            }
        },
    }
}

/// Whether a sandbox permission is allowed.
fn sandbox_token_allowed(token: &[char]) -> (r: bool)
    ensures
        r == allowed_sandbox_tokens().contains(token@),
{
    let allowed: [&str; 5] = ["allow-scripts", "allow-forms", "allow-popups", "allow-downloads", "allow-modals"];
    let ghost all = allowed_sandbox_tokens();
    assert(allowed@.map_values(|s: &str| s@) =~= all);
    let mut i: usize = 0;
    while i < 5
        invariant
            i <= 5,
            allowed@.map_values(|s: &str| s@) == all,
            all == allowed_sandbox_tokens(),
            forall|k: int| 0 <= k < i ==> all[k] != token@,
        decreases 5 - i,
    {
        assert(allowed@.map_values(|s: &str| s@)[i as int] == allowed@[i as int]@);
        if crate::text::chars_eq_str(token, allowed[i]) {
            assert(all[i as int] == token@);
            return true;
        }
        i += 1;
    }
    false
}

/// The extension of a trimmed declared path, or the empty text.
fn extension_text(raw: &str) -> (r: Vec<char>)
    ensures
        r@ == extension_or_empty(trim(raw@)),
{
    match path_extension_exec(&crate::text::trimmed(raw)) {
        Some(e) => e,
        None => Vec::new(),
    }
}

/// `validate_ui`: a declared user interface has a safe entry that is a file
/// and fits its protocol: a remote module (JS/MJS entry exporting `mount`,
/// optional CSS style) or a framed HTML page with allowed sandbox permissions.
pub fn validate_ui(manifest: &PlatformPackageManifest, entry_is_file: bool, style_is_file: bool) -> (r: Result<
    (),
    String,
>)
    ensures
        match ui_error(*manifest, entry_is_file, style_is_file) {
            Some(e) => r matches Err(m) && m@ == e,
            None => r is Ok,
        },
{
    let ui = match &manifest.ui {
        Some(u) => u,
        None => {
            return Ok(());
        },
    };
    let protocol = crate::text::trimmed(ui.protocol.as_str());
    safe_relative_path(ui.entry.as_str(), "平台包 UI entry")?;
    if !entry_is_file {
        return Err(crate::text::concat("平台包 UI entry 不存在: ", ui.entry.as_str()));
    }
    let ext = extension_text(ui.entry.as_str());
    let ext_s = crate::text::string_of(&ext);
    if crate::text::chars_eq_str(&protocol, "react-remote-esm-v1") {
        if !crate::text::eq_ignore_case_exec(ext_s.as_str(), "js") && !crate::text::eq_ignore_case_exec(
            ext_s.as_str(),
            "mjs",
        ) {
            return Err(crate::text::concat("平台包 remote UI entry 必须是 JS/MJS 文件: ", ui.entry.as_str()));
        }
        if !list_contains(&ui.exports, "mount") {
            return Err("平台包 remote UI 必须声明 mount 导出".to_string());
        }
        match &ui.style {
            None => {},
            Some(style) => {
                safe_relative_path(style.as_str(), "平台包 UI style")?;
                if !style_is_file {
                    return Err(crate::text::concat("平台包 UI style 不存在: ", style.as_str()));
                }
                let se = path_extension_exec(&crate::text::trimmed(style.as_str()));
                let is_css = match se {
                    Some(e) => crate::text::eq_ignore_case_exec(crate::text::string_of(&e).as_str(), "css"),
                    None => false,
                };
                if !is_css {
                    return Err(crate::text::concat("平台包 UI style 必须是 CSS 文件: ", style.as_str()));
                }
            },
        }
        Ok(())
    } else if crate::text::chars_eq_str(&protocol, "iframe-html-v1") {
        if !crate::text::eq_ignore_case_exec(ext_s.as_str(), "html") {
            return Err(crate::text::concat("平台包 UI entry 必须是 HTML 文件: ", ui.entry.as_str()));
        }
        match &ui.sandbox {
            None => Ok(()),
            Some(sandbox) => {
                let tokens = crate::text::split_words(&crate::text::chars_of(sandbox.as_str()));
                let ghost ws = tokens@.map_values(|x: Vec<char>| x@);
                let ghost f = sandbox_check();
                assert(ui_error(*manifest, entry_is_file, style_is_file) == first_error(ws, f, 0));
                let mut i: usize = 0;
                while i < tokens.len()
                    invariant
                        i <= tokens@.len(),
                        ws == tokens@.map_values(|x: Vec<char>| x@),
                        ws == words(sandbox@),
                        f == sandbox_check(),
                        ui_error(*manifest, entry_is_file, style_is_file) == first_error(ws, f, 0),
                        first_error(ws, f, 0) == first_error(ws, f, i as int),
                    decreases tokens@.len() - i,
                {
                    assert(ws[i as int] == tokens@[i as int]@);
                    if !sandbox_token_allowed(&tokens[i]) {
                        let t = crate::text::string_of(&tokens[i]);
                        return Err(crate::text::concat("平台包 UI sandbox 权限不支持: ", t.as_str()));
                    }
                    i += 1;
                }
                Ok(())
            },
        }
    } else {
        Err(crate::text::concat("平台包 UI 协议不支持: ", ui.protocol.as_str()))
    }
}

// ---------------------------------------------------------------------------
// Copies
// ---------------------------------------------------------------------------

/// The content of a changelog entry.
pub open spec fn changelog_entry_view(e: PlatformPackageChangelogEntry) -> (
    Seq<char>,
    Option<Seq<char>>,
    Seq<Seq<char>>,
    Seq<(Seq<char>, Seq<Seq<char>>)>,
) {
    (
        e.version@,
        opt_str(e.date),
        strs(e.notes@),
        e.locales@.map_values(|l: (String, PlatformPackageChangelogLocale)| (l.0@, strs(l.1.notes@))),
    )
}

/// The content of a changelog.
pub open spec fn changelog_view(c: Seq<PlatformPackageChangelogEntry>) -> Seq<
    (Seq<char>, Option<Seq<char>>, Seq<Seq<char>>, Seq<(Seq<char>, Seq<Seq<char>>)>),
> {
    c.map_values(|e: PlatformPackageChangelogEntry| changelog_entry_view(e))
}

/// A copy of a platform contribution.
pub fn clone_contribution(c: &PlatformPackagePlatformContribution) -> (r: PlatformPackagePlatformContribution)
    ensures
        contribution_view(r) == contribution_view(*c),
{
    PlatformPackagePlatformContribution {
        id: c.id.clone(),
        label: c.label.clone(),
        label_key: clone_opt_string(&c.label_key),
        icon_key: clone_opt_string(&c.icon_key),
        page: c.page.clone(),
    }
}

/// A copy of a package's contributions.
pub fn clone_contributions(c: &PlatformPackageContributions) -> (r: PlatformPackageContributions)
    ensures
        contributions_view(r) == contributions_view(*c),
{
    let mut platforms: Vec<PlatformPackagePlatformContribution> = Vec::new();
    let mut i: usize = 0;
    while i < c.platforms.len()
        invariant
            i <= c.platforms@.len(),
            platforms@.len() == i,
            forall|k: int| 0 <= k < i ==> contribution_view(#[trigger] platforms@[k]) == contribution_view(c.platforms@[k]),
        decreases c.platforms@.len() - i,
    {
        platforms.push(clone_contribution(&c.platforms[i]));
        i += 1;
    }
    let r = PlatformPackageContributions {
        platforms,
        data_paths: clone_strings(&c.data_paths),
        local_storage_keys: clone_strings(&c.local_storage_keys),
        native_boundaries: clone_strings(&c.native_boundaries),
    };
    assert(r.platforms@.map_values(|p: PlatformPackagePlatformContribution| contribution_view(p)) =~= c.platforms@.map_values(
        |p: PlatformPackagePlatformContribution| contribution_view(p),
    ));
    r
}

/// A copy of an optional adapter declaration.
pub fn clone_opt_adapter(a: &Option<PlatformPackageAdapter>) -> (r: Option<PlatformPackageAdapter>)
    ensures
        opt_adapter_view(r) == opt_adapter_view(*a),
{
    match a {
        Some(x) => Some(
            PlatformPackageAdapter {
                protocol: x.protocol.clone(),
                entry: x.entry.clone(),
                macos_entry: clone_opt_string(&x.macos_entry),
                windows_entry: clone_opt_string(&x.windows_entry),
                linux_entry: clone_opt_string(&x.linux_entry),
                methods: clone_strings(&x.methods),
            },
        ),
        None => None,
    }
}

/// A copy of an optional user interface declaration.
pub fn clone_opt_ui(u: &Option<PlatformPackageUi>) -> (r: Option<PlatformPackageUi>)
    ensures
        opt_ui_view(r) == opt_ui_view(*u),
{
    match u {
        Some(x) => Some(
            PlatformPackageUi {
                protocol: x.protocol.clone(),
                entry: x.entry.clone(),
                style: clone_opt_string(&x.style),
                exports: clone_strings(&x.exports),
                sandbox: clone_opt_string(&x.sandbox),
            },
        ),
        None => None,
    }
}

/// A copy of a changelog entry.
pub fn clone_changelog_entry(e: &PlatformPackageChangelogEntry) -> (r: PlatformPackageChangelogEntry)
    ensures
        changelog_entry_view(r) == changelog_entry_view(*e),
{
    let mut locales: Vec<(String, PlatformPackageChangelogLocale)> = Vec::new();
    let mut i: usize = 0;
    while i < e.locales.len()
        invariant
            i <= e.locales@.len(),
            locales@.len() == i,
            forall|k: int|
                0 <= k < i ==> (#[trigger] locales@[k]).0@ == e.locales@[k].0@ && strs(locales@[k].1.notes@)
                    == strs(e.locales@[k].1.notes@),
        decreases e.locales@.len() - i,
    {
        let item = &e.locales[i];
        locales.push((item.0.clone(), PlatformPackageChangelogLocale { notes: clone_strings(&item.1.notes) }));
        i += 1;
    }
    let r = PlatformPackageChangelogEntry {
        version: e.version.clone(),
        date: clone_opt_string(&e.date),
        notes: clone_strings(&e.notes),
        locales,
    };
    assert(r.locales@.map_values(|l: (String, PlatformPackageChangelogLocale)| (l.0@, strs(l.1.notes@)))
        =~= e.locales@.map_values(|l: (String, PlatformPackageChangelogLocale)| (l.0@, strs(l.1.notes@))));
    r
}

/// A copy of a changelog.
pub fn clone_changelog(c: &Vec<PlatformPackageChangelogEntry>) -> (r: Vec<PlatformPackageChangelogEntry>)
    ensures
        changelog_view(r@) == changelog_view(c@),
{
    let mut r: Vec<PlatformPackageChangelogEntry> = Vec::new();
    let mut i: usize = 0;
    while i < c.len()
        invariant
            i <= c@.len(),
            r@.len() == i,
            forall|k: int| 0 <= k < i ==> changelog_entry_view(#[trigger] r@[k]) == changelog_entry_view(c@[k]),
        decreases c@.len() - i,
    {
        r.push(clone_changelog_entry(&c[i]));
        i += 1;
    }
    assert(changelog_view(r@) =~= changelog_view(c@));
    r
}

// ---------------------------------------------------------------------------
// Manifest against runtime entry
// ---------------------------------------------------------------------------

/// The complaint when the runtime entry disagrees with its manifest, if any.
pub open spec fn runtime_mismatch_error(m: PlatformPackageManifest, rt: PlatformPackageRuntimeEntry) -> Option<
    Seq<char>,
> {
    if rt.package_id@ != m.id@ || rt.platform_id@ != m.platform_id@ {
        Some("平台包 manifest 与 runtime ID 不一致"@)
    } else if rt.api_version != m.api_version {
        Some("平台包 manifest 与 runtime 协议版本不一致"@)
    } else if strs(rt.capabilities@) != strs(m.capabilities@) {
        Some("平台包 manifest 与 runtime capabilities 不一致"@)
    } else if opt_adapter_view(rt.adapter) != opt_adapter_view(m.adapter) {
        Some("平台包 manifest 与 runtime adapter 声明不一致"@)
    } else if opt_ui_view(rt.ui) != opt_ui_view(m.ui) {
        Some("平台包 manifest 与 runtime UI 声明不一致"@)
    } else if contributions_view(rt.contributions) != contributions_view(m.contributions) {
        Some("平台包 manifest 与 runtime contribution 不一致"@)
    } else {
        None
    }
}

/// The first complaint about a manifest before its runtime entry is read:
/// its metadata, then its entry path, which must exist (`entry_exists`).
pub open spec fn manifest_entry_error(
    platform_id: Seq<char>,
    m: PlatformPackageManifest,
    core_version: Seq<char>,
    entry_exists: bool,
) -> Option<Seq<char>> {
    if manifest_metadata_error(platform_id, m, core_version) is Some {
        manifest_metadata_error(platform_id, m, core_version)
    } else if path_error(m.entry@, "平台包 entry"@) is Some {
        path_error(m.entry@, "平台包 entry"@)
    } else if !entry_exists {
        Some("平台包 runtime entry 不存在: "@ + m.entry@)
    } else {
        None
    }
}

/// The first part of validating a manifest, up to reading the runtime entry:
/// the metadata rules, then a safe runtime entry path that exists.
pub fn validate_manifest_entry(
    platform_id: &str,
    manifest: &PlatformPackageManifest,
    core_version: &str,
    entry_exists: bool,
) -> (r: Result<(), String>)
    ensures
        match manifest_entry_error(platform_id@, *manifest, core_version@, entry_exists) {
            Some(e) => r matches Err(m) && m@ == e,
            None => r is Ok,
        },
{
    validate_manifest_metadata(platform_id, manifest, core_version)?;
    safe_relative_path(manifest.entry.as_str(), "平台包 entry")?;
    if !entry_exists {
        return Err(crate::text::concat("平台包 runtime entry 不存在: ", manifest.entry.as_str()));
    }
    Ok(())
}

/// The first complaint once the runtime entry has been read: it must agree
/// with the manifest, then the adapter and the user interface are checked.
pub open spec fn manifest_runtime_error(
    platform_id: Seq<char>,
    m: PlatformPackageManifest,
    rt: PlatformPackageRuntimeEntry,
    os: Seq<char>,
    adapter_entry_is_file: bool,
    ui_entry_is_file: bool,
    ui_style_is_file: bool,
) -> Option<Seq<char>> {
    if runtime_mismatch_error(m, rt) is Some {
        runtime_mismatch_error(m, rt)
    } else if adapter_error(platform_id, m, os, adapter_entry_is_file) is Some {
        adapter_error(platform_id, m, os, adapter_entry_is_file)
    } else {
        ui_error(m, ui_entry_is_file, ui_style_is_file)
    }
}

/// The second part of validating a manifest: the runtime entry agrees with the
/// manifest, and the adapter and user interface declarations hold.
pub fn validate_manifest_runtime(
    platform_id: &str,
    manifest: &PlatformPackageManifest,
    runtime: &PlatformPackageRuntimeEntry,
    os: &str,
    adapter_entry_is_file: bool,
    ui_entry_is_file: bool,
    ui_style_is_file: bool,
) -> (r: Result<(), String>)
    ensures
        match manifest_runtime_error(
            platform_id@,
            *manifest,
            *runtime,
            os@,
            adapter_entry_is_file,
            ui_entry_is_file,
            ui_style_is_file,
        ) {
            Some(e) => r matches Err(m) && m@ == e,
            None => r is Ok,
        },
{
    if !crate::text::str_eq(runtime.package_id.as_str(), manifest.id.as_str()) || !crate::text::str_eq(
        runtime.platform_id.as_str(),
        manifest.platform_id.as_str(),
    ) {
        return Err("平台包 manifest 与 runtime ID 不一致".to_string());
    }
    if runtime.api_version != manifest.api_version {
        return Err("平台包 manifest 与 runtime 协议版本不一致".to_string());
    }
    if !strings_eq(&runtime.capabilities, &manifest.capabilities) {
        return Err("平台包 manifest 与 runtime capabilities 不一致".to_string());
    }
    if !opt_adapter_eq(&runtime.adapter, &manifest.adapter) {
        return Err("平台包 manifest 与 runtime adapter 声明不一致".to_string());
    }
    if !opt_ui_eq(&runtime.ui, &manifest.ui) {
        return Err("平台包 manifest 与 runtime UI 声明不一致".to_string());
    }
    if !contributions_eq(&runtime.contributions, &manifest.contributions) {
        return Err("平台包 manifest 与 runtime contribution 不一致".to_string());
    }
    validate_adapter(platform_id, manifest, os, adapter_entry_is_file)?;
    validate_ui(manifest, ui_entry_is_file, ui_style_is_file)
}

// ---------------------------------------------------------------------------
// Remote packages
// ---------------------------------------------------------------------------

/// Whether a text is, once trimmed, 64 hexadecimal digits.
pub open spec fn is_sha256_hex(s: Seq<char>) -> bool {
    trim(s).len() == 64 && forall|i: int| 0 <= i < trim(s).len() ==> is_ascii_hex(#[trigger] trim(s)[i])
}

/// `validate_sha256_hex`: a digest announced by the remote index must be 64
/// hexadecimal digits.
pub fn validate_sha256_hex(platform_id: &str, sha256: &str) -> (r: Result<(), String>)
    ensures
        is_sha256_hex(sha256@) ==> r is Ok,
        !is_sha256_hex(sha256@) ==> (r matches Err(m) && m@ == "平台包远端索引 sha256 非法: "@ + platform_id@),
{
    let t = crate::text::trimmed(sha256);
    let mut ok = t.len() == 64;
    let mut i: usize = 0;
    while i < t.len()
        invariant
            i <= t@.len(),
            ok == (t@.len() == 64 && forall|k: int| 0 <= k < i ==> is_ascii_hex(#[trigger] t@[k])),
        decreases t@.len() - i,
    {
        let c = t[i];
        if !(('0' <= c && c <= '9') || ('a' <= c && c <= 'f') || ('A' <= c && c <= 'F')) {
            ok = false;
        }
        i += 1;
    }
    if !ok {
        return Err(crate::text::concat("平台包远端索引 sha256 非法: ", platform_id));
    }
    Ok(())
}

/// The complaint about a parsed download URL, if any: it must use https, or
/// http when `allow_http` (development builds).
pub open spec fn download_url_error(
    parsed: Result<(Seq<char>, Option<Seq<char>>, Option<u16>, Seq<char>), Seq<char>>,
    allow_http: bool,
) -> Option<Seq<char>> {
    match parsed {
        Err(e) => Some("平台包下载 URL 非法: "@ + e),
        Ok(p) => if p.0 == "https"@ || (allow_http && p.0 == "http"@) {
            None
        } else {
            Some("平台包下载 URL 必须使用 https"@)
        },
    }
}

/// The check that follows parsing a download URL.
pub fn download_url_check(parsed: &Result<UrlParts, String>, allow_http: bool) -> (r: Result<(), String>)
    ensures
        match download_url_error(
            match parsed {
                Ok(u) => Ok(url_parts_view(*u)),
                Err(e) => Err(e@),
            },
            allow_http,
        ) {
            Some(e) => r matches Err(m) && m@ == e,
            None => r is Ok,
        },
{
    match parsed {
        Err(e) => Err(crate::text::concat("平台包下载 URL 非法: ", e.as_str())),
        Ok(u) => {
            if crate::text::str_eq(u.scheme.as_str(), "https") || (allow_http && crate::text::str_eq(
                u.scheme.as_str(),
                "http",
            )) {
                Ok(())
            } else {
                Err("平台包下载 URL 必须使用 https".to_string())
            }
        },
    }
}

/// `validate_remote_download_url`: the URL parses and uses https (or http
/// when `allow_http`).
pub fn validate_remote_download_url(raw: &str, allow_http: bool) -> (r: Result<(), String>)
    ensures
        match download_url_error(url_parse(raw@), allow_http) {
            Some(e) => r matches Err(m) && m@ == e,
            None => r is Ok,
        },
{
    let parsed = parse_url(raw);
    download_url_check(&parsed, allow_http)
}

/// The first artifact from `i` on built for `os` and `arch`.
pub open spec fn artifact_for(arts: Seq<PlatformPackageRemoteArtifact>, os: Seq<char>, arch: Seq<char>, i: int) -> Option<
    int,
>
    decreases arts.len() - i,
{
    if i < 0 || i >= arts.len() {
        None
    } else if arts[i].os@ == os && arts[i].arch@ == arch {
        Some(i)
    } else {
        artifact_for(arts, os, arch, i + 1)
    }
}

/// The content of a chosen build.
pub open spec fn selected_view(a: SelectedPlatformPackageArtifact) -> (
    Seq<char>,
    Seq<char>,
    Seq<char>,
    Option<u64>,
    Seq<char>,
    Option<Seq<char>>,
) {
    (a.os@, a.arch@, a.download_url@, a.download_size_bytes, a.sha256@, opt_str(a.signature))
}

/// The first of two optional values that is present.
pub open spec fn or_else<T>(a: Option<T>, b: Option<T>) -> Option<T> {
    match a {
        Some(x) => Some(x),
        None => b,
    }
}

/// What `selected_remote_artifact` gives for a package on the machine
/// `os`/`arch`: the matching artifact (when the package lists artifacts) or
/// the package's own download, once its URL and digest pass the checks.
pub open spec fn selected_artifact_spec(
    platform_id: Seq<char>,
    p: PlatformPackageRemotePackage,
    os: Seq<char>,
    arch: Seq<char>,
    allow_http: bool,
) -> Result<(Seq<char>, Seq<char>, Seq<char>, Option<u64>, Seq<char>, Option<Seq<char>>), Seq<char>> {
    if p.artifacts@.len() > 0 {
        match artifact_for(p.artifacts@, os, arch, 0) {
            None => Err(
                "当前平台没有可用平台包 artifact: platform="@ + platform_id + ", target="@ + os + "/"@
                    + arch,
            ),
            Some(k) => {
                let a = p.artifacts@[k];
                if download_url_error(url_parse(a.download_url@), allow_http) is Some {
                    Err(download_url_error(url_parse(a.download_url@), allow_http).unwrap())
                } else if !is_sha256_hex(a.sha256@) {
                    Err("平台包远端索引 sha256 非法: "@ + platform_id)
                } else {
                    Ok(
                        (
                            a.os@,
                            a.arch@,
                            a.download_url@,
                            or_else(a.download_size_bytes, p.download_size_bytes),
                            a.sha256@,
                            or_else(opt_str(a.signature), opt_str(p.signature)),
                        ),
                    )
                }
            },
        }
    } else {
        match (p.download_url, p.sha256) {
            (None, _) => Err("平台包远端索引缺少 downloadUrl: "@ + platform_id),
            (Some(_), None) => Err("平台包远端索引缺少 sha256: "@ + platform_id),
            (Some(url), Some(sha)) => if download_url_error(url_parse(url@), allow_http) is Some {
                Err(download_url_error(url_parse(url@), allow_http).unwrap())
            } else if !is_sha256_hex(sha@) {
                Err("平台包远端索引 sha256 非法: "@ + platform_id)
            } else {
                Ok((os, arch, url@, p.download_size_bytes, sha@, opt_str(p.signature)))
            },
        }
    }
}

/// The first of two optional strings that is present, copied.
fn first_present(a: &Option<String>, b: &Option<String>) -> (r: Option<String>)
    ensures
        opt_str(r) == or_else(opt_str(*a), opt_str(*b)),
{
    match a {
        Some(x) => Some(x.clone()),
        None => clone_opt_string(b),
    }
}

/// `selected_remote_artifact`: the build of a remote package for the
/// machine `os`/`arch`, with a checked URL (`allow_http` in development
/// builds) and digest.
pub fn selected_remote_artifact(
    platform_id: &str,
    package: &PlatformPackageRemotePackage,
    os: &str,
    arch: &str,
    allow_http: bool,
) -> (r: Result<SelectedPlatformPackageArtifact, String>)
    ensures
        match selected_artifact_spec(platform_id@, *package, os@, arch@, allow_http) {
            Ok(v) => r matches Ok(a) && selected_view(a) == v,
            Err(e) => r matches Err(m) && m@ == e,
        },
{
    let arts = &package.artifacts;
    if arts.len() > 0 {
        let mut i: usize = 0;
        while i < arts.len()
            invariant
                i <= arts@.len(),
                arts@ == package.artifacts@,
                artifact_for(arts@, os@, arch@, 0) == artifact_for(arts@, os@, arch@, i as int),
            decreases arts@.len() - i,
        {
            let a = &arts[i];
            if crate::text::str_eq(a.os.as_str(), os) && crate::text::str_eq(a.arch.as_str(), arch) {
                validate_remote_download_url(a.download_url.as_str(), allow_http)?;
                validate_sha256_hex(platform_id, a.sha256.as_str())?;
                let size = match a.download_size_bytes {
                    Some(n) => Some(n),
                    None => package.download_size_bytes,
                };
                return Ok(
                    SelectedPlatformPackageArtifact {
                        os: a.os.clone(),
                        arch: a.arch.clone(),
                        download_url: a.download_url.clone(),
                        download_size_bytes: size,
                        sha256: a.sha256.clone(),
                        signature: first_present(&a.signature, &package.signature),
                    },
                );
            }
            i += 1;
        }
        let m1 = crate::text::concat("当前平台没有可用平台包 artifact: platform=", platform_id);
        let m2 = crate::text::concat(m1.as_str(), ", target=");
        let m3 = crate::text::concat(m2.as_str(), os);
        let m4 = crate::text::concat(m3.as_str(), "/");
        return Err(crate::text::concat(m4.as_str(), arch));
    }
    let url = match &package.download_url {
        Some(u) => u,
        None => {
            return Err(crate::text::concat("平台包远端索引缺少 downloadUrl: ", platform_id));
        },
    };
    let sha = match &package.sha256 {
        Some(h) => h,
        None => {
            return Err(crate::text::concat("平台包远端索引缺少 sha256: ", platform_id));
        },
    };
    validate_remote_download_url(url.as_str(), allow_http)?;
    validate_sha256_hex(platform_id, sha.as_str())?;
    Ok(
        SelectedPlatformPackageArtifact {
            os: os.to_string(),
            arch: arch.to_string(),
            download_url: url.clone(),
            download_size_bytes: package.download_size_bytes,
            sha256: sha.clone(),
            signature: clone_opt_string(&package.signature),
        },
    )
}

/// `artifact_for` finds the first artifact from `i` on whose os and arch
/// both match, and finds none only when no artifact from `i` on matches.
proof fn lemma_artifact_for_first_match(arts: Seq<PlatformPackageRemoteArtifact>, os: Seq<char>, arch: Seq<char>, i: int)
    requires
        0 <= i,
    ensures
        match artifact_for(arts, os, arch, i) {
            Some(k) => i <= k < arts.len() && arts[k].os@ == os && arts[k].arch@ == arch && forall|m: int|
                i <= m < k ==> !(arts[m].os@ == os && arts[m].arch@ == arch),
            None => forall|m: int| i <= m < arts.len() ==> !(arts[m].os@ == os && arts[m].arch@ == arch),
        },
    decreases arts.len() - i,
{
    if i < arts.len() && !(arts[i].os@ == os && arts[i].arch@ == arch) {
        lemma_artifact_for_first_match(arts, os, arch, i + 1);
    }
}

/// The chosen build is one for the machine: its os and arch are the ones
/// asked for. Where the package lists artifacts, it is the first artifact
/// whose os and arch both match, with that artifact's URL and digest; and
/// when none of them matches, nothing is chosen.
pub proof fn law_selected_artifact_fits_machine(
    platform_id: Seq<char>,
    p: PlatformPackageRemotePackage,
    os: Seq<char>,
    arch: Seq<char>,
    allow_http: bool,
    r: Result<SelectedPlatformPackageArtifact, String>,
)
    requires
        match selected_artifact_spec(platform_id, p, os, arch, allow_http) {
            Ok(v) => r matches Ok(a) && selected_view(a) == v,
            Err(e) => r matches Err(m) && m@ == e,
        },
    ensures
        r matches Ok(a) ==> a.os@ == os && a.arch@ == arch,
        p.artifacts@.len() > 0 ==> (r matches Ok(a) ==> exists|k: int|
            0 <= k < p.artifacts@.len() && #[trigger] p.artifacts@[k].os@ == os && p.artifacts@[k].arch@ == arch
                && a.download_url@ == p.artifacts@[k].download_url@ && a.sha256@ == p.artifacts@[k].sha256@
                && forall|m: int| 0 <= m < k ==> !(p.artifacts@[m].os@ == os && p.artifacts@[m].arch@ == arch)),
        p.artifacts@.len() > 0 && (forall|k: int|
            0 <= k < p.artifacts@.len() ==> !(#[trigger] p.artifacts@[k].os@ == os && p.artifacts@[k].arch@ == arch))
            ==> r is Err,
{
    lemma_artifact_for_first_match(p.artifacts@, os, arch, 0);
    if p.artifacts@.len() > 0 {
        match artifact_for(p.artifacts@, os, arch, 0) {
            Some(k) => {
                assert(p.artifacts@[k].os@ == os && p.artifacts@[k].arch@ == arch);
            },
            None => {},
        }
    }
}

/// The content of a manifest, but for its changelog.
pub open spec fn manifest_view(m: PlatformPackageManifest) -> (
    (Seq<char>, Seq<char>, Seq<char>, u32, Seq<char>, Seq<char>, Seq<char>, Seq<char>, Seq<char>),
    (
        Option<(Seq<char>, Seq<char>, Option<Seq<char>>, Option<Seq<char>>, Option<Seq<char>>, Seq<Seq<char>>)>,
        Option<(Seq<char>, Seq<char>, Option<Seq<char>>, Seq<Seq<char>>, Option<Seq<char>>)>,
        Seq<Seq<char>>,
    ),
    (Option<u64>, Option<Seq<char>>, Option<Seq<char>>),
) {
    (
        (
            m.id@,
            m.platform_id@,
            m.version@,
            m.api_version,
            m.min_core_version@,
            m.display_name@,
            m.entry@,
            m.package_mode@,
            m.install_kind@,
        ),
        (opt_adapter_view(m.adapter), opt_ui_view(m.ui), strs(m.capabilities@)),
        (m.download_size_bytes, opt_str(m.sha256), opt_str(m.signature)),
    )
}

/// The manifest that a remote package describes, with the chosen build's
/// size, digest and signature.
pub open spec fn remote_manifest_matches(
    m: PlatformPackageManifest,
    p: PlatformPackageRemotePackage,
    a: (Seq<char>, Seq<char>, Seq<char>, Option<u64>, Seq<char>, Option<Seq<char>>),
) -> bool {
    &&& manifest_view(m) == (
        (
            p.id@,
            p.platform_id@,
            p.version@,
            p.api_version,
            p.min_core_version@,
            p.display_name@,
            p.entry@,
            p.package_mode@,
            p.install_kind@,
        ),
        (opt_adapter_view(p.adapter), opt_ui_view(p.ui), strs(p.capabilities@)),
        (a.3, Some(a.4), a.5),
    )
    &&& contributions_view(m.contributions) == contributions_view(p.contributions)
    &&& changelog_view(m.changelog@) == changelog_view(p.changelog@)
}

/// `manifest_from_remote_package`: the manifest of a remote package for
/// this machine, held to the metadata rules (`core_version` being the
/// running application's).
pub fn manifest_from_remote_package(
    platform_id: &str,
    package: &PlatformPackageRemotePackage,
    os: &str,
    arch: &str,
    allow_http: bool,
    core_version: &str,
) -> (r: Result<PlatformPackageManifest, String>)
    ensures
        !supported_platform_ids().contains(platform_id@) ==> (r matches Err(m) && m@ == unsupported_error(
            platform_id@,
        )),
        supported_platform_ids().contains(platform_id@) ==> match selected_artifact_spec(
            platform_id@,
            *package,
            os@,
            arch@,
            allow_http,
        ) {
            Err(e) => r matches Err(m) && m@ == e,
            Ok(a) => match r {
                Ok(m) => remote_manifest_matches(m, *package, a) && manifest_metadata_error(
                    platform_id@,
                    m,
                    core_version@,
                ) is None,
                Err(e) => exists|m: PlatformPackageManifest|
                    remote_manifest_matches(m, *package, a) && manifest_metadata_error(
                        platform_id@,
                        m,
                        core_version@,
                    ) == Some(e@),
            },
        },
{
    ensure_supported_platform(platform_id)?;
    let artifact = selected_remote_artifact(platform_id, package, os, arch, allow_http)?;
    let ghost av = selected_view(artifact);
    let manifest = PlatformPackageManifest {
        id: package.id.clone(),
        platform_id: package.platform_id.clone(),
        version: package.version.clone(),
        api_version: package.api_version,
        min_core_version: package.min_core_version.clone(),
        display_name: package.display_name.clone(),
        entry: package.entry.clone(),
        package_mode: package.package_mode.clone(),
        install_kind: package.install_kind.clone(),
        adapter: clone_opt_adapter(&package.adapter),
        ui: clone_opt_ui(&package.ui),
        capabilities: clone_strings(&package.capabilities),
        contributions: clone_contributions(&package.contributions),
        changelog: clone_changelog(&package.changelog),
        download_size_bytes: artifact.download_size_bytes,
        sha256: Some(artifact.sha256),
        signature: artifact.signature,
    };
    assert(remote_manifest_matches(manifest, *package, av));
    match validate_manifest_metadata(platform_id, &manifest, core_version) {
        Ok(()) => Ok(manifest),
        Err(e) => Err(e),
    }
}

// ---------------------------------------------------------------------------
// The registry of installed packages
// ---------------------------------------------------------------------------

/// The position of the first record of platform `id`, looking from `i` on.
pub open spec fn record_index(ps: Seq<PersistedPlatformPackage>, id: Seq<char>, i: int) -> Option<int>
    decreases ps.len() - i,
{
    if i < 0 || i >= ps.len() {
        None
    } else if ps[i].platform_id@ == id {
        Some(i)
    } else {
        record_index(ps, id, i + 1)
    }
}

/// The records after `upsert_record`: the first record of the platform is
/// replaced, or the record is appended when there was none.
pub open spec fn upserted(ps: Seq<PersistedPlatformPackage>, record: PersistedPlatformPackage) -> Seq<
    PersistedPlatformPackage,
> {
    match record_index(ps, record.platform_id@, 0) {
        Some(k) => ps.update(k, record),
        None => ps.push(record),
    }
}

/// The record of a platform, if the registry holds one.
pub open spec fn lookup(ps: Seq<PersistedPlatformPackage>, id: Seq<char>) -> Option<PersistedPlatformPackage> {
    match record_index(ps, id, 0) {
        Some(k) => Some(ps[k]),
        None => None,
    }
}

/// The position of the first record of a platform.
fn find_record_index(ps: &Vec<PersistedPlatformPackage>, platform_id: &str) -> (r: Option<usize>)
    ensures
        match r {
            Some(i) => record_index(ps@, platform_id@, 0) == Some(i as int) && i < ps@.len(),
            None => record_index(ps@, platform_id@, 0) is None,
        },
{
    let mut i: usize = 0;
    while i < ps.len()
        invariant
            i <= ps@.len(),
            record_index(ps@, platform_id@, 0) == record_index(ps@, platform_id@, i as int),
        decreases ps@.len() - i,
    {
        if crate::text::str_eq(ps[i].platform_id.as_str(), platform_id) {
            assert(record_index(ps@, platform_id@, i as int) == Some(i as int));
            return Some(i);
        }
        i += 1;
    }
    None
}

/// `upsert_record`: stores the record of a platform, replacing its earlier one.
pub fn upsert_record(registry: &mut PlatformPackageRegistry, record: PersistedPlatformPackage)
    ensures
        final(registry).packages@ == upserted(old(registry).packages@, record),
{
    match find_record_index(&registry.packages, record.platform_id.as_str()) {
        Some(i) => {
            registry.packages.set(i, record);
        },
        None => {
            registry.packages.push(record);
        },
    }
}

/// `get_record`: the record of a platform, if the registry holds one.
pub fn get_record<'a>(registry: &'a PlatformPackageRegistry, platform_id: &str) -> (r: Option<
    &'a PersistedPlatformPackage,
>)
    ensures
        match lookup(registry.packages@, platform_id@) {
            Some(p) => r == Some(&p),
            None => r is None,
        },
{
    match find_record_index(&registry.packages, platform_id) {
        Some(i) => Some(&registry.packages[i]),
        None => None,
    }
}

/// Positions before `i` hold no record of `id`: the search from `j <= i`
/// gives what the search from `i` gives.
proof fn lemma_record_index_skip(ps: Seq<PersistedPlatformPackage>, id: Seq<char>, j: int, i: int)
    requires
        0 <= j <= i,
        forall|k: int| j <= k < i && k < ps.len() ==> ps[k].platform_id@ != id,
    ensures
        record_index(ps, id, j) == record_index(ps, id, i),
    decreases i - j,
{
    if j < i {
        lemma_record_index_skip(ps, id, j + 1, i);
    }
}

/// The search from `i` finds the first position at or after `i` with the id.
proof fn lemma_record_index_found(ps: Seq<PersistedPlatformPackage>, id: Seq<char>, i: int)
    requires
        0 <= i,
    ensures
        match record_index(ps, id, i) {
            Some(k) => i <= k < ps.len() && ps[k].platform_id@ == id && forall|m: int|
                i <= m < k ==> ps[m].platform_id@ != id,
            None => forall|m: int| i <= m < ps.len() ==> ps[m].platform_id@ != id,
        },
    decreases ps.len() - i,
{
    if i < ps.len() && ps[i].platform_id@ != id {
        lemma_record_index_found(ps, id, i + 1);
    }
}

/// After a record is stored, looking up its platform gives that record, and
/// looking up any other platform gives what it gave before.
pub proof fn law_upsert_then_lookup(
    ps: Seq<PersistedPlatformPackage>,
    record: PersistedPlatformPackage,
    other: Seq<char>,
)
    requires
        other != record.platform_id@,
    ensures
        lookup(upserted(ps, record), record.platform_id@) == Some(record),
        lookup(upserted(ps, record), other) == lookup(ps, other),
{
    let id = record.platform_id@;
    let qs = upserted(ps, record);
    lemma_record_index_found(ps, id, 0);
    lemma_record_index_found(ps, other, 0);
    lemma_record_index_found(qs, id, 0);
    lemma_record_index_found(qs, other, 0);
    match record_index(ps, id, 0) {
        Some(k) => {
            assert(qs[k].platform_id@ == id);
            match record_index(qs, id, 0) {
                Some(j) => {
                    if j < k {
                        assert(qs[j] == ps[j]);
                    }
                },
                None => {},
            }
            match record_index(ps, other, 0) {
                Some(j) => {
                    assert(j != k);
                    assert(qs[j] == ps[j]);
                    match record_index(qs, other, 0) {
                        Some(m) => {
                            if m < j {
                                assert(qs[m] == ps[m] || m == k);
                            }
                        },
                        None => {},
                    }
                },
                None => {
                    match record_index(qs, other, 0) {
                        Some(m) => {
                            assert(qs[m] == ps[m] || m == k);
                        },
                        None => {},
                    }
                },
            }
        },
        None => {
            assert(qs[ps.len() as int].platform_id@ == id);
            match record_index(qs, id, 0) {
                Some(j) => {
                    if j < ps.len() {
                        assert(qs[j] == ps[j]);
                    }
                },
                None => {},
            }
            match record_index(ps, other, 0) {
                Some(j) => {
                    assert(qs[j] == ps[j]);
                    match record_index(qs, other, 0) {
                        Some(m) => {
                            if m < j {
                                assert(qs[m] == ps[m]);
                            }
                        },
                        None => {},
                    }
                },
                None => {
                    match record_index(qs, other, 0) {
                        Some(m) => {
                            if m < ps.len() {
                                assert(qs[m] == ps[m]);
                            }
                        },
                        None => {},
                    }
                },
            }
        },
    }
}

// ---------------------------------------------------------------------------
// The state reported for a platform
// ---------------------------------------------------------------------------

/// `runtime_contract_mismatch`: whether an installed package and a source
/// package declare different runtime contracts.
pub open spec fn runtime_contract_mismatch_spec(i: PlatformPackageManifest, s: PlatformPackageManifest) -> bool {
    ||| i.api_version != s.api_version
    ||| i.install_kind@ != s.install_kind@
    ||| opt_adapter_view(i.adapter) != opt_adapter_view(s.adapter)
    ||| opt_ui_view(i.ui) != opt_ui_view(s.ui)
    ||| strs(i.capabilities@) != strs(s.capabilities@)
    ||| strs(i.contributions.native_boundaries@) != strs(s.contributions.native_boundaries@)
}

/// `runtime_contract_mismatch`.
pub fn runtime_contract_mismatch(installed: &PlatformPackageManifest, source: &PlatformPackageManifest) -> (r: bool)
    ensures
        r == runtime_contract_mismatch_spec(*installed, *source),
{
    installed.api_version != source.api_version || !crate::text::str_eq(
        installed.install_kind.as_str(),
        source.install_kind.as_str(),
    ) || !opt_adapter_eq(&installed.adapter, &source.adapter) || !opt_ui_eq(&installed.ui, &source.ui)
        || !strings_eq(&installed.capabilities, &source.capabilities) || !strings_eq(
        &installed.contributions.native_boundaries,
        &source.contributions.native_boundaries,
    )
}

/// `same_version_runtime_contract_mismatch`: same version, other contract.
pub fn same_version_runtime_contract_mismatch(
    installed: &PlatformPackageManifest,
    source: &PlatformPackageManifest,
) -> (r: bool)
    ensures
        r == (installed.version@ == source.version@ && runtime_contract_mismatch_spec(*installed, *source)),
{
    crate::text::str_eq(installed.version.as_str(), source.version.as_str()) && runtime_contract_mismatch(
        installed,
        source,
    )
}

/// The message shown when an installed package's contract disagrees with the
/// source package of the same version.
pub open spec fn contract_mismatch_message() -> Seq<char> {
    "已安装平台包与当前运行组件声明不一致，请修复或重新安装平台包"@
}

/// The contract error of an installed package against its source, if any.
pub open spec fn contract_error(
    installed: Option<PlatformPackageManifest>,
    source: Option<PlatformPackageManifest>,
) -> Option<Seq<char>> {
    match (installed, source) {
        (Some(i), Some(s)) => if i.version@ == s.version@ && runtime_contract_mismatch_spec(i, s) {
            Some(contract_mismatch_message())
        } else {
            None
        },
        _ => None,
    }
}

/// The manifest whose metadata the state shows: the installed one, else the source's.
pub open spec fn meta_manifest(
    installed: Option<PlatformPackageManifest>,
    source: Option<PlatformPackageManifest>,
) -> Option<PlatformPackageManifest> {
    or_else(installed, source)
}

/// The changelog the state shows: the source's, else the installed one's, else none.
pub open spec fn state_changelog(
    installed: Option<PlatformPackageManifest>,
    source: Option<PlatformPackageManifest>,
) -> Seq<(Seq<char>, Option<Seq<char>>, Seq<Seq<char>>, Seq<(Seq<char>, Seq<Seq<char>>)>)> {
    match source {
        Some(s) if s.changelog@.len() > 0 => changelog_view(s.changelog@),
        _ => match installed {
            Some(i) if i.changelog@.len() > 0 => changelog_view(i.changelog@),
            _ => Seq::empty(),
        },
    }
}

/// What `build_state` reports. `manifest_file_exists` says whether the
/// installed manifest file is on disk, `installed_dir_size` is the size of
/// the installed package, `dev_source_size` the size of a development
/// source package, and `local_content_error` the complaint from comparing
/// the installed files with a local source of the same version.
pub open spec fn state_matches(
    st: PlatformPackageState,
    platform_id: Seq<char>,
    record: Option<PersistedPlatformPackage>,
    installed_manifest: Option<PlatformPackageManifest>,
    source_manifest: Option<PlatformPackageManifest>,
    validation_error: Option<Seq<char>>,
    manifest_file_exists: bool,
    installed_dir_size: u64,
    dev_source_size: Option<u64>,
    local_content_error: Option<Seq<char>>,
) -> bool {
    let installed = manifest_file_exists && installed_manifest is Some;
    let latest = match source_manifest {
        Some(m) => Some(m.version@),
        None => None,
    };
    let installed_version = or_else(
        match installed_manifest {
            Some(m) => Some(m.version@),
            None => None,
        },
        match record {
            Some(r) => opt_str(r.installed_version),
            None => None,
        },
    );
    let contract = contract_error(installed_manifest, source_manifest);
    let record_ready = match record {
        Some(r) => r.runtime_ready,
        None => false,
    };
    let record_installed = match record {
        Some(r) => r.installed,
        None => false,
    };
    let ready = installed && validation_error is None && contract is None && local_content_error is None
        && record_ready;
    let first_error = or_else(
        validation_error,
        or_else(
            contract,
            or_else(
                local_content_error,
                match record {
                    Some(r) => opt_str(r.error_message),
                    None => None,
                },
            ),
        ),
    );
    let error = if installed {
        first_error
    } else if record_installed {
        or_else(first_error, Some("平台包文件缺失"@))
    } else {
        None
    };
    let has_update = installed && ready && installed_version is Some && latest is Some && installed_version
        != latest;
    let status = if (match error {
        Some(e) => contains(e, "主应用版本不兼容"@),
        None => false,
    }) {
        "incompatible"@
    } else if !installed {
        "notInstalled"@
    } else if !ready {
        "error"@
    } else if has_update {
        "updateAvailable"@
    } else {
        "installed"@
    };
    let meta = meta_manifest(installed_manifest, source_manifest);
    &&& st.platform_id@ == platform_id
    &&& st.package_mode@ == match meta {
        Some(m) => m.package_mode@,
        None => "hotUpdate"@,
    }
    &&& st.install_kind@ == match meta {
        Some(m) => m.install_kind@,
        None => "coreNativeBoundary"@,
    }
    &&& st.install_status@ == status
    &&& st.runtime_ready == ready
    &&& opt_str(st.installed_version) == if installed {
        installed_version
    } else {
        None
    }
    &&& opt_str(st.latest_version) == latest
    &&& st.download_size_bytes == or_else(
        match source_manifest {
            Some(m) => m.download_size_bytes,
            None => None,
        },
        dev_source_size,
    )
    &&& st.installed_size_bytes == if installed {
        Some(installed_dir_size)
    } else {
        None
    }
    &&& st.last_checked_at == match record {
        Some(r) => r.last_checked_at,
        None => None,
    }
    &&& opt_str(st.error_message) == error
    &&& opt_str(st.entry) == match meta {
        Some(m) => Some(m.entry@),
        None => None,
    }
    &&& opt_adapter_view(st.adapter) == match meta {
        Some(m) => opt_adapter_view(m.adapter),
        None => None,
    }
    &&& opt_ui_view(st.ui) == match meta {
        Some(m) => opt_ui_view(m.ui),
        None => None,
    }
    &&& strs(st.capabilities@) == match meta {
        Some(m) => strs(m.capabilities@),
        None => Seq::empty(),
    }
    &&& contributions_view(st.contributions) == match meta {
        Some(m) => contributions_view(m.contributions),
        None => empty_contributions_view(),
    }
    &&& changelog_view(st.changelog@) == state_changelog(installed_manifest, source_manifest)
}

/// What contributions that declare nothing hold.
pub open spec fn empty_contributions_view() -> (
    Seq<(Seq<char>, Seq<char>, Option<Seq<char>>, Option<Seq<char>>, Seq<char>)>,
    Seq<Seq<char>>,
    Seq<Seq<char>>,
    Seq<Seq<char>>,
) {
    (Seq::empty(), Seq::empty(), Seq::empty(), Seq::empty())
}

/// Contributions that declare nothing.
fn no_contributions() -> (r: PlatformPackageContributions)
    ensures
        contributions_view(r) == empty_contributions_view(),
{
    let r = PlatformPackageContributions {
        platforms: Vec::new(),
        data_paths: Vec::new(),
        local_storage_keys: Vec::new(),
        native_boundaries: Vec::new(),
    };
    assert(contributions_view(r) =~~= empty_contributions_view());
    r
}

/// `build_state`: the state of a platform's package from its registry record,
/// its installed and source manifests, the validation error of the installed
/// one and the facts found on disk by the caller.
pub fn build_state(
    platform_id: &str,
    record: Option<&PersistedPlatformPackage>,
    installed_manifest: Option<PlatformPackageManifest>,
    source_manifest: Option<PlatformPackageManifest>,
    validation_error: Option<String>,
    manifest_file_exists: bool,
    installed_dir_size: u64,
    dev_source_size: Option<u64>,
    local_content_error: Option<String>,
) -> (r: Result<PlatformPackageState, String>)
    ensures
        !supported_platform_ids().contains(platform_id@) ==> (r matches Err(m) && m@ == unsupported_error(
            platform_id@,
        )),
        supported_platform_ids().contains(platform_id@) ==> (r matches Ok(st) && state_matches(
            st,
            platform_id@,
            match record {
                Some(p) => Some(*p),
                None => None,
            },
            installed_manifest,
            source_manifest,
            opt_str(validation_error),
            manifest_file_exists,
            installed_dir_size,
            dev_source_size,
            opt_str(local_content_error),
        )),
{
    ensure_supported_platform(platform_id)?;
    let installed = manifest_file_exists && installed_manifest.is_some();
    let latest_version = match &source_manifest {
        Some(m) => Some(m.version.clone()),
        None => None,
    };
    let record_version = match record {
        Some(p) => clone_opt_string(&p.installed_version),
        None => None,
    };
    let installed_version = match &installed_manifest {
        Some(m) => Some(m.version.clone()),
        None => record_version,
    };
    let download_size_bytes = match &source_manifest {
        Some(m) => match m.download_size_bytes {
            Some(n) => Some(n),
            None => dev_source_size,
        },
        None => dev_source_size,
    };
    let installed_size_bytes = if installed {
        Some(installed_dir_size)
    } else {
        None
    };
    let contract_mismatch = match (&installed_manifest, &source_manifest) {
        (Some(i), Some(s)) => same_version_runtime_contract_mismatch(i, s),
        _ => false,
    };
    let runtime_contract_error: Option<String> = if contract_mismatch {
        Some("已安装平台包与当前运行组件声明不一致，请修复或重新安装平台包".to_string())
    } else {
        None
    };
    let record_ready = match record {
        Some(p) => p.runtime_ready,
        None => false,
    };
    let record_installed = match record {
        Some(p) => p.installed,
        None => false,
    };
    let mut runtime_ready = installed && validation_error.is_none() && runtime_contract_error.is_none()
        && local_content_error.is_none() && record_ready;
    let record_error = match record {
        Some(p) => clone_opt_string(&p.error_message),
        None => None,
    };
    let mut error_message = match validation_error {
        Some(e) => Some(e),
        None => match runtime_contract_error {
            Some(e) => Some(e),
            None => match local_content_error {
                Some(e) => Some(e),
                None => record_error,
            },
        },
    };
    if !installed {
        runtime_ready = false;
        if record_installed {
            if error_message.is_none() {
                error_message = Some("平台包文件缺失".to_string());
            }
        } else {
            error_message = None;
        }
    }
    let meta = match &installed_manifest {
        Some(m) => Some(m),
        None => match &source_manifest {
            Some(m) => Some(m),
            None => None,
        },
    };
    let changelog = match &source_manifest {
        Some(s) if s.changelog.len() > 0 => clone_changelog(&s.changelog),
        _ => match &installed_manifest {
            Some(i) if i.changelog.len() > 0 => clone_changelog(&i.changelog),
            _ => Vec::new(),
        },
    };
    proof {
        assert(changelog_view(Seq::<PlatformPackageChangelogEntry>::empty()) =~= Seq::empty());
    }
    let has_update = installed && runtime_ready && installed_version.is_some() && latest_version.is_some()
        && !opt_string_eq(&installed_version, &latest_version);
    let incompatible = match &error_message {
        Some(e) => crate::text::contains_str(e.as_str(), "主应用版本不兼容"),
        None => false,
    };
    let install_status = if incompatible {
        "incompatible"
    } else if !installed {
        "notInstalled"
    } else if !runtime_ready {
        "error"
    } else if has_update {
        "updateAvailable"
    } else {
        "installed"
    };
    let (package_mode, install_kind, entry, adapter, ui, capabilities, contributions) = match meta {
        Some(m) => (
            m.package_mode.clone(),
            m.install_kind.clone(),
            Some(m.entry.clone()),
            clone_opt_adapter(&m.adapter),
            clone_opt_ui(&m.ui),
            clone_strings(&m.capabilities),
            clone_contributions(&m.contributions),
        ),
        None => {
            let caps: Vec<String> = Vec::new();
            proof {
                assert(strs(caps@) =~= Seq::empty());
            }
            (
                "hotUpdate".to_string(),
                "coreNativeBoundary".to_string(),
                None,
                None,
                None,
                caps,
                no_contributions(),
            )
        },
    };
    Ok(
        PlatformPackageState {
            platform_id: platform_id.to_string(),
            package_mode,
            install_kind,
            install_status: install_status.to_string(),
            runtime_ready,
            installed_version: if installed {
                installed_version
            } else {
                None
            },
            latest_version,
            download_size_bytes,
            installed_size_bytes,
            last_checked_at: match record {
                Some(p) => p.last_checked_at,
                None => None,
            },
            error_message,
            entry,
            adapter,
            ui,
            capabilities,
            contributions,
            changelog,
        },
    )
}

// ---------------------------------------------------------------------------
// Readiness
// ---------------------------------------------------------------------------

/// `is_platform_package_runtime_ready`: the registry says the package is
/// installed and ready, its installed manifest still validates
/// (`installed_manifest_valid`), and no local source package of the same
/// version differs from it (`local_content_mismatch`: `None` when there is
/// no valid local source, else whether the contents differ, a failed
/// comparison counting as a difference).
pub fn is_platform_package_runtime_ready(
    record: Option<&PersistedPlatformPackage>,
    installed_manifest_valid: bool,
    local_content_mismatch: Option<bool>,
) -> (r: bool)
    ensures
        r == (match record {
            Some(p) => p.installed && p.runtime_ready,
            None => false,
        } && installed_manifest_valid && local_content_mismatch != Some(true)),
{
    let record = match record {
        Some(p) => p,
        None => {
            return false;
        },
    };
    if !record.installed || !record.runtime_ready {
        return false;
    }
    if !installed_manifest_valid {
        return false;
    }
    match local_content_mismatch {
        Some(true) => false,
        _ => true,
    }
}

/// `is_platform_package_installed`: the same as being ready to run.
pub fn is_platform_package_installed(
    record: Option<&PersistedPlatformPackage>,
    installed_manifest_valid: bool,
    local_content_mismatch: Option<bool>,
) -> (r: bool)
    ensures
        r == (match record {
            Some(p) => p.installed && p.runtime_ready,
            None => false,
        } && installed_manifest_valid && local_content_mismatch != Some(true)),
{
    is_platform_package_runtime_ready(record, installed_manifest_valid, local_content_mismatch)
}

/// `ensure_platform_package_installed`: succeeds when the package is ready
/// (`runtime_ready`), else says it must be installed or repaired.
pub fn ensure_platform_package_installed(platform_id: &str, runtime_ready: bool) -> (r: Result<(), String>)
    ensures
        runtime_ready ==> r is Ok,
        !runtime_ready ==> (r matches Err(m) && m@ == "平台包未安装或未就绪，请先在平台管理中安装/修复: "@
            + platform_id@),
{
    if runtime_ready {
        return Ok(());
    }
    Err(crate::text::concat("平台包未安装或未就绪，请先在平台管理中安装/修复: ", platform_id))
}

/// `Path::join` of a directory and a relative path.
pub open spec fn path_join(dir: Seq<char>, rel: Seq<char>) -> Seq<char> {
    if dir.len() == 0 {
        rel
    } else if dir.last() == '/' {
        dir + rel
    } else {
        dir + seq!['/'] + rel
    }
}

/// `Path::join` of a directory and a relative path.
pub fn join_path(dir: &str, rel: &str) -> (r: String)
    ensures
        r@ == path_join(dir@, rel@),
{
    let d = crate::text::chars_of(dir);
    if d.len() == 0 {
        return rel.to_string();
    }
    if d[d.len() - 1] == '/' {
        return crate::text::concat(dir, rel);
    }
    let with_slash = crate::text::concat(dir, "/");
    proof {
        reveal_strlit("/");
    }
    crate::text::concat(with_slash.as_str(), rel)
}

/// `installed_platform_adapter`: the adapter of a ready package
/// (`runtime_ready`) whose installed manifest (already validated by the
/// caller) is `installed_manifest`, located under `current_dir`; its entry
/// for `os` must be a file there (`entry_is_file`).
pub fn installed_platform_adapter(
    platform_id: &str,
    runtime_ready: bool,
    current_dir: &str,
    installed_manifest: Option<&PlatformPackageManifest>,
    os: &str,
    entry_is_file: bool,
) -> (r: Result<InstalledPlatformAdapter, String>)
    ensures
        !runtime_ready ==> (r matches Err(m) && m@ == "平台包未安装或未就绪，请先在平台管理中安装/修复: "@
            + platform_id@),
        runtime_ready ==> match installed_manifest {
            None => r matches Err(m) && m@ == "平台包未安装: "@ + platform_id@,
            Some(mf) => match mf.adapter {
                None => r matches Err(m) && m@ == "平台包缺少 adapter 声明: "@ + platform_id@,
                Some(a) => {
                    let entry = selected_entry_spec(a, os@);
                    match path_error(entry, "平台包 adapter entry"@) {
                        Some(e) => r matches Err(m) && m@ == e,
                        None => if !entry_is_file {
                            r matches Err(m) && m@ == "平台包 adapter entry 不存在: "@ + entry
                        } else {
                            r matches Ok(ia) && ia.current_dir@ == current_dir@ && adapter_view(ia.adapter)
                                == adapter_view(a) && ia.executable_path@ == path_join(current_dir@, trim(entry))
                        },
                    }
                },
            },
        },
{
    ensure_platform_package_installed(platform_id, runtime_ready)?;
    let manifest = match installed_manifest {
        Some(m) => m,
        None => {
            return Err(crate::text::concat("平台包未安装: ", platform_id));
        },
    };
    let adapter = match clone_opt_adapter(&manifest.adapter) {
        Some(a) => a,
        None => {
            return Err(crate::text::concat("平台包缺少 adapter 声明: ", platform_id));
        },
    };
    let entry = selected_adapter_entry(&adapter, os);
    let entry_path = safe_relative_path(entry, "平台包 adapter entry")?;
    if !entry_is_file {
        return Err(crate::text::concat("平台包 adapter entry 不存在: ", entry));
    }
    let executable_path = join_path(current_dir, entry_path.as_str());
    Ok(InstalledPlatformAdapter { current_dir: current_dir.to_string(), adapter, executable_path })
}

/// `s` without the characters `c` at its start.
pub open spec fn strip_start_char(s: Seq<char>, c: char) -> Seq<char>
    decreases s.len(),
{
    if s.len() > 0 && s[0] == c {
        strip_start_char(s.drop_first(), c)
    } else {
        s
    }
}

/// `trim_start_matches(c)`.
pub fn strip_start_char_exec(v: &[char], c: char) -> (r: Vec<char>)
    ensures
        r@ == strip_start_char(v@, c),
{
    let mut i: usize = 0;
    assert(v@.skip(0) =~= v@);
    while i < v.len() && v[i] == c
        invariant
            i <= v.len(),
            strip_start_char(v@, c) == strip_start_char(v@.skip(i as int), c),
        decreases v.len() - i,
    {
        assert(v@.skip(i as int).drop_first() =~= v@.skip(i + 1));
        i += 1;
    }
    let r = crate::text::slice_range(v, i, v.len());
    assert(r@ =~= v@.skip(i as int));
    r
}

/// The registry update after reading an installed manifest, at time
/// `now_ms`, once the installed manifest was validated (its version, or why
/// it is invalid): a valid package is recorded installed and ready with its
/// version; an invalid one installed but not ready, with the error and the
/// version recorded before.
pub fn record_installed_validation(
    registry: &mut PlatformPackageRegistry,
    platform_id: &str,
    validation: Result<String, String>,
    now_ms: i64,
)
    ensures
        ({
            let previous_version = match lookup(old(registry).packages@, platform_id@) {
                Some(p) => p.installed_version,
                None => None,
            };
            exists|rec: PersistedPlatformPackage|
                final(registry).packages@ == upserted(old(registry).packages@, rec) && rec.platform_id@ == platform_id@
                    && rec.installed && rec.last_checked_at == Some(now_ms) && match validation {
                    Ok(v) => rec.runtime_ready && opt_str(rec.installed_version) == Some(v@) && rec.error_message is None,
                    Err(e) => !rec.runtime_ready && opt_str(rec.installed_version) == opt_str(previous_version)
                        && opt_str(rec.error_message) == Some(e@),
                }
        }),
{
    let record = match validation {
        Ok(version) => PersistedPlatformPackage {
            platform_id: platform_id.to_string(),
            installed: true,
            runtime_ready: true,
            installed_version: Some(version),
            last_checked_at: Some(now_ms),
            error_message: None,
        },
        Err(error) => {
            let installed_version = match get_record(registry, platform_id) {
                Some(item) => clone_opt_string(&item.installed_version),
                None => None,
            };
            PersistedPlatformPackage {
                platform_id: platform_id.to_string(),
                installed: true,
                runtime_ready: false,
                installed_version,
                last_checked_at: Some(now_ms),
                error_message: Some(error),
            }
        },
    };
    upsert_record(registry, record);
}

} // verus!
