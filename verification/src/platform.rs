//! The install target: an operating system and a CPU architecture.

use vstd::prelude::*;

verus! {

/// Operating systems for which a build may exist. Anything beyond the three
/// named systems is carried as `Other` and is never installable.
#[derive(Clone, Copy, Debug, PartialEq, Eq, Structural)]
pub enum Os {
    Linux,
    MacOs,
    Windows,
    Other,
}

/// CPU architectures that the distribution archive distinguishes. Anything
/// beyond the five named architectures is carried as `Other` and is never
/// installable.
#[derive(Clone, Copy, Debug, PartialEq, Eq, Structural)]
pub enum Arch {
    X86,
    X64,
    Arm,
    Arm64,
    Riscv64,
    Other,
}

impl Os {
    /// Whether any build at all exists for this operating system.
    pub fn is_supported(&self) -> (r: bool)
        ensures
            r == self.spec_supported(),
    {
        match self {
            Os::Linux => true,
            Os::MacOs => true,
            Os::Windows => true,
            Os::Other => false,
        }
    }

    pub open spec fn spec_supported(&self) -> bool {
        !(self is Other)
    }
}

} // verus!
