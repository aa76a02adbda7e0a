//! GPU adapter selection.
//!
//! Resolution order for the adapter used by both the windowed and headless
//! contexts:
//!
//! 1. A name set programmatically via [`set_gpu_override`] (the `--gpu` CLI
//!    flag on `play` / `render`).
//! 2. `WGPU_ADAPTER_NAME`: case-insensitive substring match against the
//!    adapter name (e.g. `NVIDIA`, `Intel`).
//! 3. `WGPU_POWER_PREF`: `high`, `low`, or `none`.
//! 4. Default: high performance, so dual-GPU laptops pick the discrete card.
//!
//! The process-wide override slot itself is held by the caller; the functions
//! here decide what it holds and which filter applies.

use vstd::prelude::*;
use vstd::string::StrSliceExecFns;

verus! {

/// Unicode `White_Space`, the property `char::is_whitespace` and `str::trim` use.
pub open spec fn is_white_space(c: char) -> bool {
    let u = c as u32;
    (0x09 <= u <= 0x0D) || u == 0x20 || u == 0x85 || u == 0xA0 || u == 0x1680 || (0x2000 <= u
        <= 0x200A) || u == 0x2028 || u == 0x2029 || u == 0x202F || u == 0x205F || u == 0x3000
}

/// A text is blank when trimming whitespace leaves nothing.
pub open spec fn is_blank_text(s: Seq<char>) -> bool {
    forall|i: int| 0 <= i < s.len() ==> is_white_space(#[trigger] s[i])
}

/// The override that `set_gpu_override` stores for a requested name: blank
/// names clear it.
pub open spec fn override_for(name: Option<Seq<char>>) -> Option<Seq<char>> {
    match name {
        Some(s) => if is_blank_text(s) {
            None
        } else {
            Some(s)
        },
        None => None,
    }
}

/// The view of an optional string.
pub open spec fn opt_view(s: Option<String>) -> Option<Seq<char>> {
    match s {
        Some(x) => Some(x@),
        None => None,
    }
}

/// The adapter-name filter: the override if set, else the environment's
/// adapter name if it is non-empty.
pub open spec fn filter_for(override_name: Option<Seq<char>>, env_name: Option<Seq<char>>) -> Option<
    Seq<char>,
> {
    match override_name {
        Some(o) => Some(o),
        None => match env_name {
            Some(e) => if e.len() > 0 {
                Some(e)
            } else {
                None
            },
            None => None,
        },
    }
}

fn is_white_space_char(c: char) -> (r: bool)
    ensures
        r == is_white_space(c),
{
    let u = c as u32;
    (0x09 <= u && u <= 0x0D) || u == 0x20 || u == 0x85 || u == 0xA0 || u == 0x1680 || (0x2000 <= u
        && u <= 0x200A) || u == 0x2028 || u == 0x2029 || u == 0x202F || u == 0x205F || u == 0x3000
}

/// Whether `s.trim()` is empty.
pub fn is_blank(s: &str) -> (r: bool)
    ensures
        r == is_blank_text(s@),
{
    let n = s.unicode_len();
    let mut i: usize = 0;
    while i < n
        invariant
            n == s@.len(),
            i <= n,
            forall|j: int| 0 <= j < i ==> is_white_space(#[trigger] s@[j]),
        decreases n - i,
    {
        let c = s.get_char(i);
        if !is_white_space_char(c) {
            return false;
        }
        i = i + 1;
    }
    true
}

/// Set the process-wide adapter name filter held in `slot` (substring,
/// case-insensitive). Blank names clear the filter.
pub fn set_gpu_override(slot: &mut Option<String>, name: Option<String>)
    ensures
        opt_view(*final(slot)) == override_for(opt_view(name)),
{
    *slot = match name {
        Some(s) => if is_blank(s.as_str()) {
            None
        } else {
            Some(s)
        },
        None => None,
    };
}

/// A copy of the adapter name filter held in `slot`.
pub fn gpu_override(slot: &Option<String>) -> (r: Option<String>)
    ensures
        opt_view(r) == opt_view(*slot),
{
    match slot {
        Some(s) => Some(s.clone()),
        None => None,
    }
}

/// The name filter in force: the override from `slot` if set, else the
/// `WGPU_ADAPTER_NAME` value `env_name` if it is non-empty.
pub fn name_filter(slot: &Option<String>, env_name: Option<String>) -> (r: Option<String>)
    ensures
        opt_view(r) == filter_for(opt_view(*slot), opt_view(env_name)),
{
    match gpu_override(slot) {
        Some(o) => Some(o),
        None => match env_name {
            Some(e) => if e.unicode_len() > 0 {
                Some(e)
            } else {
                None
            },
            None => None,
        },
    }
}

/// What is set is what is read back, unless it was blank; a blank name clears
/// the override, so the environment decides again.
pub proof fn law_override_roundtrip(name: Option<Seq<char>>, env_name: Option<Seq<char>>)
    ensures
        override_for(name) is Some ==> filter_for(override_for(name), env_name) == name,
        override_for(name) is None ==> filter_for(override_for(name), env_name) == filter_for(
            None,
            env_name,
        ),
        override_for(override_for(name)) == override_for(name),
{
}

} // verus!
