//! Names and addresses of the application.
use vstd::prelude::*;

verus! {

/// User-visible application name (window title, task manager, title bar).
pub const APP_NAME: &'static str = "Memory Cleaner";

/// Executable base name without `.exe`, used for process exclusion matching.
pub const PROCESS_BASE_NAME: &'static str = "MemoryCleanr";

/// Application version.
pub const VERSION: &'static str = "0.1.0";

/// Source repository opened from the version link in settings.
pub const REPO_URL: &'static str = "https://github.com/Y-ASLant/MemoryCleanr";

} // verus!
