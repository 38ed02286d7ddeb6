//! Where platform packages are listed, how long a fetched list is trusted,
//! and the fingerprint of an installed package directory.
use vstd::prelude::*;
use crate::external::{sha256_of_text, sha256_text};
use crate::startup::{env_flag, flag_on};
use crate::text::{hex_text, nat_digits, trim};

verus! {

broadcast use vstd::string::group_string_axioms;

/// How long a fetched package index is trusted, in milliseconds.
pub open spec fn index_cache_ttl_ms() -> int {
    1_800_000int
}

/// The cached remote index is used while it is at most half an
/// hour old (`now - time`, stopping at the lowest `i64`).
pub fn index_cache_is_fresh(now_ms: i64, cache_time_ms: i64) -> (r: bool)
    ensures
        r == ((if now_ms - cache_time_ms < i64::MIN {
            i64::MIN as int
        } else if now_ms - cache_time_ms > i64::MAX {
            i64::MAX as int
        } else {
            now_ms - cache_time_ms
        }) <= index_cache_ttl_ms()),
{
    let d: i128 = now_ms as i128 - cache_time_ms as i128;
    let age: i128 = if d < i64::MIN as i128 {
        i64::MIN as i128
    } else if d > i64::MAX as i128 {
        i64::MAX as i128
    } else {
        d
    };
    age <= 1_800_000
}

/// `platform_package_index_url`: the configured address (from the
/// environment, else from the build), trimmed, else the default list of
/// the release or, for the test profile, of the test channel.
pub fn platform_package_index_url(env_value: Option<&str>, build_value: Option<&str>, test_profile: bool) -> (r: String)
    ensures
        r@ == match (match env_value {
            Some(v) => Some(v@),
            None => match build_value {
                Some(b) => Some(b@),
                None => None,
            },
        }) {
            Some(v) if trim(v).len() > 0 => trim(v),
            _ => if test_profile {
                "https://raw.githubusercontent.com/jlcodes99/cockpit-tools/platform-test/platform-packages/test/index.json"@
            } else {
                "https://raw.githubusercontent.com/jlcodes99/cockpit-tools/main/platform-packages/index.json"@
            },
        },
{
    let chosen = match env_value {
        Some(v) => Some(v),
        None => build_value,
    };
    match chosen {
        Some(v) => {
            let t = crate::text::trimmed(v);
            if t.len() > 0 {
                return crate::text::string_of(&t);
            }
        },
        None => {},
    }
    if test_profile {
        "https://raw.githubusercontent.com/jlcodes99/cockpit-tools/platform-test/platform-packages/test/index.json".to_string()
    } else {
        "https://raw.githubusercontent.com/jlcodes99/cockpit-tools/main/platform-packages/index.json".to_string()
    }
}

/// `strict_local_source_validation_enabled`: in debug builds, or when the
/// environment switch is on.
pub fn strict_local_source_validation_enabled(debug_build: bool, env_value: Option<&str>) -> (r: bool)
    ensures
        r == (debug_build || flag_on(
            match env_value {
                Some(v) => Some(v@),
                None => None,
            },
        )),
{
    debug_build || env_flag(env_value)
}

/// `normalized_relative_path`: the components of a path below the package
/// root, joined with `/`.
pub open spec fn joined_path(components: Seq<Seq<char>>) -> Seq<char>
    decreases components.len(),
{
    if components.len() == 0 {
        Seq::empty()
    } else if components.len() == 1 {
        components[0]
    } else {
        joined_path(components.drop_last()) + "/"@ + components.last()
    }
}

/// `normalized_relative_path`, from the components below the root.
pub fn normalized_relative_path(components: &Vec<String>) -> (r: String)
    ensures
        r@ == joined_path(components@.map_values(|c: String| c@)),
{
    let ghost cs = components@.map_values(|c: String| c@);
    let mut r = String::new();
    let mut i: usize = 0;
    while i < components.len()
        invariant
            i <= components@.len(),
            cs == components@.map_values(|c: String| c@),
            r@ == joined_path(cs.take(i as int)),
        decreases components.len() - i,
    {
        assert(cs.take(i + 1).drop_last() =~= cs.take(i as int));
        assert(cs.take(i + 1).last() == components@[i as int]@);
        if i == 0 {
            r = components[i].clone();
        } else {
            let a = crate::text::concat(r.as_str(), "/");
            r = crate::text::concat(a.as_str(), components[i].as_str());
        }
        i += 1;
    }
    assert(cs.take(components@.len() as int) =~= cs);
    r
}

/// One line of a package's file list: its relative path, size and SHA-256.
pub open spec fn fingerprint_line(relative: Seq<char>, len: u64, sha256: Seq<char>) -> Seq<char> {
    relative + "\t"@ + nat_digits(len as nat) + "\t"@ + sha256
}

/// The fingerprint line of a package file.
pub fn package_file_fingerprint_line(relative: &str, len: u64, sha256: &str) -> (r: String)
    ensures
        r@ == fingerprint_line(relative@, len, sha256@),
{
    let a = crate::text::concat(relative, "\t");
    let b = crate::text::concat(a.as_str(), crate::text::u64_text(len).as_str());
    let c = crate::text::concat(b.as_str(), "\t");
    crate::text::concat(c.as_str(), sha256)
}

/// The text that is hashed for a package: each file line followed by a
/// line break.
pub open spec fn fingerprint_text(lines: Seq<Seq<char>>) -> Seq<char>
    decreases lines.len(),
{
    if lines.len() == 0 {
        Seq::empty()
    } else {
        fingerprint_text(lines.drop_last()) + lines.last() + "\n"@
    }
}

/// `package_dir_fingerprint`, from the file lines in order: the SHA-256 in
/// hex of the lines, each followed by a line break.
pub fn package_dir_fingerprint(lines: &Vec<String>) -> (r: String)
    ensures
        r@ == hex_text(sha256_text(fingerprint_text(lines@.map_values(|l: String| l@)))),
{
    let ghost ls = lines@.map_values(|l: String| l@);
    let mut text = String::new();
    let mut i: usize = 0;
    while i < lines.len()
        invariant
            i <= lines@.len(),
            ls == lines@.map_values(|l: String| l@),
            text@ == fingerprint_text(ls.take(i as int)),
        decreases lines.len() - i,
    {
        assert(ls.take(i + 1).drop_last() =~= ls.take(i as int));
        assert(ls.take(i + 1).last() == lines@[i as int]@);
        let a = crate::text::concat(text.as_str(), lines[i].as_str());
        text = crate::text::concat(a.as_str(), "\n");
        i += 1;
    }
    assert(ls.take(lines@.len() as int) =~= ls);
    let digest = sha256_of_text(text.as_str());
    crate::text::hex_encode(digest.as_slice())
}

/// Whether an installed package's contents are checked against the local
/// source: contents are
/// compared only under strict validation, between packages of one version.
pub fn local_content_check_needed(strict: bool, installed_version: &str, source_version: &str) -> (r: bool)
    ensures
        r == (strict && installed_version@ == source_version@),
{
    strict && crate::text::str_eq(installed_version, source_version)
}

/// The mismatch between an installed and a local source package, given the fingerprints of
/// the installed and the local source package (or why one could not be
/// taken; the source's is not looked at when the installed one failed):
/// differing contents ask for a repair, a failed fingerprint is reported.
pub fn local_package_content_error(
    installed_fingerprint: Result<String, String>,
    source_fingerprint: Result<String, String>,
) -> (r: Option<String>)
    ensures
        match installed_fingerprint {
            Err(e) => r matches Some(m) && m@ == "本地平台包内容校验失败: "@ + e@,
            Ok(a) => match source_fingerprint {
                Err(e) => r matches Some(m) && m@ == "本地平台包内容校验失败: "@ + e@,
                Ok(b) => if a@ == b@ {
                    r is None
                } else {
                    r matches Some(m) && m@ == "已安装平台包与当前本地包内容不一致，请修复或重新安装平台包"@
                },
            },
        },
{
    let a = match installed_fingerprint {
        Ok(a) => a,
        Err(e) => {
            return Some(crate::text::concat("本地平台包内容校验失败: ", e.as_str()));
        },
    };
    let b = match source_fingerprint {
        Ok(b) => b,
        Err(e) => {
            return Some(crate::text::concat("本地平台包内容校验失败: ", e.as_str()));
        },
    };
    if crate::text::str_eq(a.as_str(), b.as_str()) {
        None
    } else {
        Some("已安装平台包与当前本地包内容不一致，请修复或重新安装平台包".to_string())
    }
}

} // verus!
