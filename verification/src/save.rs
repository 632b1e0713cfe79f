//! Versioned save-data shell for persistence integration.

use vstd::prelude::*;

use crate::text::{decimal, owned, push_decimal, push_str};

verus! {

/// Current supported top-level save schema version.
pub const CURRENT_SAVE_VERSION: u32 = 1;

/// Save load/validation failure.
#[derive(Debug, Clone, PartialEq, Eq, Structural)]
pub enum SaveError {
    UnsupportedVersion { found: u32, supported: u32 },
}

impl SaveError {
    /// The error as a message.
    pub fn to_string(&self) -> (r: String)
        ensures
            r@ == match *self {
                SaveError::UnsupportedVersion { found, supported } => "unsupported save version "@ + decimal(found as u64)
                    + "; supported version is "@ + decimal(supported as u64),
            },
    {
        match self {
            SaveError::UnsupportedVersion { found, supported } => {
                let mut out = owned("unsupported save version ");
                push_decimal(&mut out, *found as u64);
                push_str(&mut out, "; supported version is ");
                push_decimal(&mut out, *supported as u64);
                out
            },
        }
    }
}

/// Minimal top-level save container.
#[derive(Debug, Clone, PartialEq, Eq)]
pub struct SaveData {
    version: u32,
    world_seed_label: String,
}

impl SaveData {
    /// The schema version the data claims.
    pub closed spec fn version_spec(&self) -> u32 {
        self.version
    }

    /// The label of the world seed.
    pub closed spec fn label(&self) -> Seq<char> {
        self.world_seed_label@
    }

    /// New save data at the current schema version.
    pub fn new(world_seed_label: &str) -> (r: Self)
        ensures
            r.version_spec() == CURRENT_SAVE_VERSION,
            r.label() == world_seed_label@,
    {
        SaveData { version: CURRENT_SAVE_VERSION, world_seed_label: owned(world_seed_label) }
    }

    /// Save data claiming an arbitrary schema version.
    pub fn with_version_for_testing(version: u32, world_seed_label: &str) -> (r: Self)
        ensures
            r.version_spec() == version,
            r.label() == world_seed_label@,
    {
        SaveData { version, world_seed_label: owned(world_seed_label) }
    }

    pub fn version(&self) -> (r: u32)
        ensures
            r == self.version_spec(),
    {
        self.version
    }

    pub fn world_seed_label(&self) -> (r: &str)
        ensures
            r@ == self.label(),
    {
        self.world_seed_label.as_str()
    }

    /// Accepts exactly the current schema version.
    pub fn validate_version(&self) -> (r: Result<(), SaveError>)
        ensures
            self.version_spec() == CURRENT_SAVE_VERSION ==> r is Ok,
            self.version_spec() != CURRENT_SAVE_VERSION ==> r == Err::<(), SaveError>(SaveError::UnsupportedVersion {
                found: self.version_spec(),
                supported: CURRENT_SAVE_VERSION,
            }),
    {
        if self.version != CURRENT_SAVE_VERSION {
            return Err(SaveError::UnsupportedVersion { found: self.version, supported: CURRENT_SAVE_VERSION });
        }
        Ok(())
    }
}

} // verus!
