//! Platform window configuration defaults.

use vstd::prelude::*;

verus! {

/// Window title and initial size the host applies when creating the window.
#[derive(Debug, Clone)]
pub struct PlatformConfig {
    pub title: String,
    pub width: u32,
    pub height: u32,
}

impl Default for PlatformConfig {
    /// A 1280x720 window under the engine's name.
    fn default() -> (r: Self)
        ensures
            r.title@ == "Saturday Morning Engine"@,
            r.width == 1280,
            r.height == 720,
    {
        PlatformConfig { title: "Saturday Morning Engine".to_owned(), width: 1280, height: 720 }
    }
}

} // verus!
