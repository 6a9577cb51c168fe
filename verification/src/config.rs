//! The run's configuration: dictionary language, allow/deny word lists, and
//! delivery settings. Loaded once, read-only input to every stage.

use vstd::prelude::*;

verus! {

/// A mail address with an optional display name.
pub struct EmailAddr {
    pub name: Option<String>,
    pub address: String,
}

/// Delivery settings: recipients, envelope return path, the input size cap
/// and the dry-run switch.
pub struct EmailConfig {
    pub max_size_kb: Option<u64>,
    pub to: EmailAddr,
    pub from: EmailAddr,
    pub return_path: String,
    pub dry_run: bool,
}

/// The whole configuration: dictionary language, word lists, delivery.
pub struct Config {
    pub lang: String,
    pub allow: Vec<String>,
    pub deny: Vec<String>,
    pub email: EmailConfig,
}

/// The default input cap, in KiB, when the configuration names none.
pub const DEFAULT_MAX_SIZE_KB: u64 = 128;

/// The byte cap applied to the raw input stream: `max_size_kb` KiB (default
/// 128 KiB), saturating at the machine limit.
pub open spec fn input_cap_spec(max_kb: Option<u64>) -> int {
    let kb: int = match max_kb {
        Some(k) => k as int,
        None => DEFAULT_MAX_SIZE_KB as int,
    };
    if kb * 1024 <= u64::MAX {
        kb * 1024
    } else {
        u64::MAX as int
    }
}

/// Compute the input byte cap, as [`input_cap_spec`] describes.
pub fn input_cap_bytes(max_kb: &Option<u64>) -> (r: u64)
    ensures
        r as int == input_cap_spec(*max_kb),
{
    let kb: u64 = match max_kb {
        Some(k) => *k,
        None => DEFAULT_MAX_SIZE_KB,
    };
    if kb > u64::MAX / 1024 {
        u64::MAX
    } else {
        kb * 1024
    }
}

} // verus!
