//! Decisions taken when the application starts: environment flags, the
//! open-file limit to ask for, and which platform adapters to restore.
use vstd::prelude::*;
use crate::text::{lower, trim};

verus! {

broadcast use vstd::string::group_string_axioms;

/// Whether an environment flag's value turns it on: `1`, `true` or `yes`,
/// trimmed and in any ASCII case.
pub open spec fn flag_on(value: Option<Seq<char>>) -> bool {
    match value {
        Some(v) => {
            let n = lower(trim(v));
            n == "1"@ || n == "true"@ || n == "yes"@
        },
        None => false,
    }
}

/// `env_flag` on the value of the variable (none when it is unset).
pub fn env_flag(value: Option<&str>) -> (r: bool)
    ensures
        r == flag_on(
            match value {
                Some(v) => Some(v@),
                None => None,
            },
        ),
{
    match value {
        Some(v) => {
            let n = crate::text::lower_chars(&crate::text::trimmed(v));
            crate::text::chars_eq_str(&n, "1") || crate::text::chars_eq_str(&n, "true")
                || crate::text::chars_eq_str(&n, "yes")
        },
        None => false,
    }
}

/// The open-file limit the application asks for.
pub const TARGET_NOFILE_LIMIT: u64 = 4096;

/// The soft open-file limit to set, from the current soft and hard limits
/// (`infinity` standing for no hard limit): the target capped by the hard
/// limit, when it raises the soft one.
pub open spec fn nofile_target(current: u64, maximum: u64, infinity: u64) -> Option<u64> {
    let target = if maximum == infinity {
        TARGET_NOFILE_LIMIT
    } else if maximum < TARGET_NOFILE_LIMIT {
        maximum
    } else {
        TARGET_NOFILE_LIMIT
    };
    if target <= current || target == 0 {
        None
    } else {
        Some(target)
    }
}

/// The decision of `raise_process_file_descriptor_limit`: the soft limit to
/// set, if any.
pub fn raise_process_file_descriptor_limit(current: u64, maximum: u64, infinity: u64) -> (r: Option<u64>)
    ensures
        r == nofile_target(current, maximum, infinity),
{
    let target = if maximum == infinity {
        TARGET_NOFILE_LIMIT
    } else if maximum < TARGET_NOFILE_LIMIT {
        maximum
    } else {
        TARGET_NOFILE_LIMIT
    };
    if target <= current || target == 0 {
        None
    } else {
        Some(target)
    }
}

/// The platforms whose adapters are restored at start-up, in order.
pub open spec fn startup_platforms() -> Seq<Seq<char>> {
    seq![
        "codex"@,
        "zed"@,
        "kiro"@,
        "github-copilot"@,
        "windsurf"@,
        "cursor"@,
        "gemini"@,
        "trae"@,
        "qoder"@,
        "codebuddy"@,
        "codebuddy_cn"@,
        "workbuddy"@,
        "antigravity"@,
        "antigravity_ide"@,
    ]
}

/// The platforms whose adapters are restored at start-up, in order.
pub fn startup_restore_platforms() -> (r: Vec<String>)
    ensures
        crate::strings::strs(r@) == startup_platforms(),
{
    let ids: [&str; 14] = [
        "codex",
        "zed",
        "kiro",
        "github-copilot",
        "windsurf",
        "cursor",
        "gemini",
        "trae",
        "qoder",
        "codebuddy",
        "codebuddy_cn",
        "workbuddy",
        "antigravity",
        "antigravity_ide",
    ];
    let ghost all = startup_platforms();
    assert(ids@.map_values(|s: &str| s@) =~= all);
    let mut r: Vec<String> = Vec::new();
    let mut i: usize = 0;
    while i < 14
        invariant
            i <= 14,
            ids@.map_values(|s: &str| s@) == all,
            crate::strings::strs(r@) == all.take(i as int),
        decreases 14 - i,
    {
        assert(ids@.map_values(|s: &str| s@)[i as int] == ids@[i as int]@);
        let ghost before = crate::strings::strs(r@);
        r.push(ids[i].to_string());
        assert(crate::strings::strs(r@) =~= before.push(ids@[i as int]@));
        assert(all.take(i + 1) =~= all.take(i as int).push(all[i as int]));
        i += 1;
    }
    assert(all.take(14) =~= all);
    r
}

/// `restore_startup_platform_adapter_if_installed`: an installed platform's
/// adapter is restored and recorded in `restored`. Returns whether to restore.
pub fn restore_startup_platform_adapter_if_installed(platform_id: &str, installed: bool, restored: &mut Vec<String>) -> (r: bool)
    ensures
        r == installed,
        installed ==> crate::strings::strs(final(restored)@) == crate::strings::strs(old(restored)@).push(platform_id@),
        !installed ==> final(restored)@ == old(restored)@,
{
    if !installed {
        return false;
    }
    let ghost before = crate::strings::strs(restored@);
    restored.push(platform_id.to_string());
    assert(crate::strings::strs(restored@) =~= before.push(platform_id@));
    true
}

} // verus!
