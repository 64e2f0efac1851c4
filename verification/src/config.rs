//! User settings.
use vstd::prelude::*;

verus! {

/// The image protocol the user asked for.
#[derive(Debug, Clone, Copy, PartialEq, Eq, Structural)]
pub enum ImageProtocol {
    Auto,
    Kitty,
    Halfblocks,
    Off,
}

/// Settings of the `[general]` table.
#[derive(Debug, Clone, Copy, PartialEq, Eq, Structural)]
pub struct GeneralConfig {
    /// The "liked" list cannot be edited from the lists viewer.
    pub liked_readonly: bool,
    /// The last session's tabs are reopened at start.
    pub auto_restore_session: bool,
}

/// The whole configuration file.
#[derive(Debug, Clone, Copy, PartialEq, Eq, Structural)]
pub struct Config {
    pub general: GeneralConfig,
}

/// The value a missing `liked_readonly` key takes.
pub fn default_true() -> (r: bool)
    ensures
        r,
{
    true
}

impl Default for GeneralConfig {
    fn default() -> (r: Self)
        ensures
            r.liked_readonly,
            !r.auto_restore_session,
    {
        GeneralConfig { liked_readonly: default_true(), auto_restore_session: false }
    }
}

impl Default for Config {
    fn default() -> (r: Self)
        ensures
            r.general.liked_readonly,
            !r.general.auto_restore_session,
    {
        Config { general: GeneralConfig::default() }
    }
}

} // verus!
