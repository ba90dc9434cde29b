//! Names that the whole engine agrees on.

use vstd::prelude::*;

verus! {

/// The key under which the end of a serial batch is reported.
pub const SYS_KEY_SERIAL: &'static str = "/serial";

/// How many tasks a channel holds unless configured otherwise.
pub const TASK_CHANNEL_CAP: usize = 1024;

/// After how many seconds a remote converter is given up unless configured
/// otherwise.
pub const CONVERT_TIMEOUT_SEC: u32 = 30;

/// For how many seconds a cached meta or relation is trusted unless
/// configured otherwise.
pub const CACHE_TTL_SEC: u32 = 3600;

} // verus!
