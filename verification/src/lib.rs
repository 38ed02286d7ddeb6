use vstd::prelude::*;

pub mod text;
pub mod cron;
pub mod strings;
pub mod wakeup;
pub mod keyed;
pub mod scheduler;
pub mod quota_reset;
pub mod platform_package;
pub mod external;
pub mod codex;
pub mod codex_profile;
pub mod codex_index;
pub mod codex_import;
pub mod codex_json_import;
pub mod codex_refresh;
pub mod codex_bundle;
pub mod codex_compat;
pub mod codex_sync;
pub mod codex_config;
pub mod codex_projection;
pub mod keeper;
pub mod startup;
pub mod package_index;
pub mod codebuddy;
pub mod opencode;
pub mod adapter;
