//! The historical compatibility matrix: per operating system and
//! architecture, the window of versions that ever had a published build.

use vstd::prelude::*;

use crate::error::Failure;
use crate::error::FailureView;
use crate::platform::Arch;
use crate::platform::Os;
use crate::version::version_lt;
use crate::version::wf_version;
use crate::version::PreId;
use crate::version::PreIdView;
use crate::version::Version;
use crate::version::VersionView;
use crate::version_spec::ReqOp;

verus! {

/// A release version as a model value.
pub open spec fn vnum(major: int, minor: int, patch: int) -> VersionView {
    VersionView { major, minor, patch, pre: Seq::<PreIdView>::empty() }
}

pub open spec fn beta_chars() -> Seq<char> {
    seq!['b', 'e', 't', 'a']
}

/// The first riscv64 pre-release build on linux.
pub open spec fn riscv64_beta_floor() -> VersionView {
    VersionView {
        major: 3,
        minor: 0,
        patch: 0,
        pre: seq![PreIdView::Num(290), PreIdView::Num(2), PreIdView::Alpha(beta_chars())],
    }
}

/// The first arm64 pre-release build on windows.
pub open spec fn windows_arm64_beta_floor() -> VersionView {
    VersionView {
        major: 3,
        minor: 2,
        patch: 0,
        pre: seq![PreIdView::Num(42), PreIdView::Num(2), PreIdView::Alpha(beta_chars())],
    }
}

/// The required window on a blocked target: the operator and boundary of the
/// range inside which the version would have been installable. `None` means
/// no rule blocks the version.
pub open spec fn spec_blocked(os: Os, arch: Arch, v: VersionView) -> Option<(ReqOp, VersionView)> {
    match os {
        Os::Linux => match arch {
            Arch::X86 => if !version_lt(v, vnum(3, 8, 0)) {
                Some((ReqOp::Lt, vnum(3, 8, 0)))
            } else {
                None
            },
            Arch::Arm => if version_lt(v, vnum(1, 12, 0)) {
                Some((ReqOp::Ge, vnum(1, 12, 0)))
            } else {
                None
            },
            Arch::Arm64 => if version_lt(v, vnum(1, 23, 0)) {
                Some((ReqOp::Ge, vnum(1, 23, 0)))
            } else {
                None
            },
            Arch::Riscv64 => if v.pre.len() > 0 && version_lt(v, riscv64_beta_floor()) {
                Some((ReqOp::Ge, riscv64_beta_floor()))
            } else if v.pre.len() == 0 && version_lt(v, vnum(3, 3, 0)) {
                Some((ReqOp::Ge, vnum(3, 3, 0)))
            } else {
                None
            },
            _ => None,
        },
        Os::MacOs => match arch {
            Arch::X86 => if version_lt(vnum(2, 7, 0), v) {
                Some((ReqOp::Lt, vnum(2, 8, 0)))
            } else {
                None
            },
            Arch::Arm64 => if version_lt(v, vnum(2, 14, 1)) {
                Some((ReqOp::Ge, vnum(2, 14, 1)))
            } else {
                None
            },
            _ => None,
        },
        Os::Windows => match arch {
            Arch::X86 => if version_lt(vnum(2, 7, 0), v) {
                Some((ReqOp::Lt, vnum(2, 8, 0)))
            } else {
                None
            },
            Arch::Arm64 => if v.pre.len() > 0 && version_lt(v, windows_arm64_beta_floor()) {
                Some((ReqOp::Ge, windows_arm64_beta_floor()))
            } else if v.pre.len() == 0 && version_lt(v, vnum(3, 3, 0)) {
                Some((ReqOp::Ge, vnum(3, 3, 0)))
            } else {
                None
            },
            _ => None,
        },
        Os::Other => None,
    }
}

/// The whole decision for one target and version: `None` means installable,
/// otherwise exactly the failure that is reported. An unknown operating
/// system is refused as such; an architecture outside the table on a known
/// system is unconditionally blocked as an unsupported target; everything
/// else goes by the range rules. The decision is a pure function of the
/// target and the version alone.
pub open spec fn spec_check(os: Os, arch: Arch, v: VersionView) -> Option<FailureView> {
    if os is Other {
        Some(FailureView::UnsupportedOs { os })
    } else if arch is Other {
        Some(FailureView::UnsupportedTarget { os, arch })
    } else {
        match spec_blocked(os, arch, v) {
            Option::Some((op, bound)) => Some(
                FailureView::IncompatibleVersion { os, arch, version: v, op, bound },
            ),
            Option::None => None,
        }
    }
}

/// The boundary version of the riscv64 pre-release window.
fn riscv64_beta_floor_exec() -> (r: Version)
    ensures
        r@ == riscv64_beta_floor(),
        wf_version(r@),
{
    let mut pre: Vec<PreId> = Vec::new();
    pre.push(PreId::Num(290));
    pre.push(PreId::Num(2));
    pre.push(PreId::Alpha(String::from_str("beta")));
    let r = Version { major: 3, minor: 0, patch: 0, pre };
    proof {
        reveal_strlit("beta");
        assert("beta"@ =~= beta_chars());
        assert(r@.pre =~= riscv64_beta_floor().pre);
    }
    r
}

/// The boundary version of the windows arm64 pre-release window.
fn windows_arm64_beta_floor_exec() -> (r: Version)
    ensures
        r@ == windows_arm64_beta_floor(),
        wf_version(r@),
{
    let mut pre: Vec<PreId> = Vec::new();
    pre.push(PreId::Num(42));
    pre.push(PreId::Num(2));
    pre.push(PreId::Alpha(String::from_str("beta")));
    let r = Version { major: 3, minor: 2, patch: 0, pre };
    proof {
        reveal_strlit("beta");
        assert("beta"@ =~= beta_chars());
        assert(r@.pre =~= windows_arm64_beta_floor().pre);
    }
    r
}

/// Decide whether `version` ever had a build for the target, reporting on a
/// block the window inside which it would have been installable.
pub fn check_version_for_os_and_arch(os: Os, arch: Arch, version: &Version) -> (r: Result<
    (),
    Failure,
>)
    ensures
        match r {
            Result::Ok(()) => spec_check(os, arch, version@) is None,
            Result::Err(f) => spec_check(os, arch, version@) == Some(f@),
        },
{
    if let Os::Other = os {
        return Err(Failure::UnsupportedOs { os });
    }
    if let Arch::Other = arch {
        return Err(Failure::UnsupportedTarget { os, arch });
    }
    let blocked: Option<(ReqOp, Version)> = match os {
        Os::Linux => match arch {
            Arch::X86 => {
                let b = Version::new(3, 8, 0);
                if !version.lt_version(&b) {
                    Some((ReqOp::Lt, b))
                } else {
                    None
                }
            },
            Arch::Arm => {
                let b = Version::new(1, 12, 0);
                if version.lt_version(&b) {
                    Some((ReqOp::Ge, b))
                } else {
                    None
                }
            },
            Arch::Arm64 => {
                let b = Version::new(1, 23, 0);
                if version.lt_version(&b) {
                    Some((ReqOp::Ge, b))
                } else {
                    None
                }
            },
            Arch::Riscv64 => {
                if version.is_prerelease() {
                    let b = riscv64_beta_floor_exec();
                    if version.lt_version(&b) {
                        Some((ReqOp::Ge, b))
                    } else {
                        None
                    }
                } else {
                    let b = Version::new(3, 3, 0);
                    if version.lt_version(&b) {
                        Some((ReqOp::Ge, b))
                    } else {
                        None
                    }
                }
            },
            _ => None,
        },
        Os::MacOs => match arch {
            Arch::X86 => {
                let prior = Version::new(2, 7, 0);
                if prior.lt_version(version) {
                    Some((ReqOp::Lt, Version::new(2, 8, 0)))
                } else {
                    None
                }
            },
            Arch::Arm64 => {
                let b = Version::new(2, 14, 1);
                if version.lt_version(&b) {
                    Some((ReqOp::Ge, b))
                } else {
                    None
                }
            },
            _ => None,
        },
        Os::Windows => match arch {
            Arch::X86 => {
                let prior = Version::new(2, 7, 0);
                if prior.lt_version(version) {
                    Some((ReqOp::Lt, Version::new(2, 8, 0)))
                } else {
                    None
                }
            },
            Arch::Arm64 => {
                if version.is_prerelease() {
                    let b = windows_arm64_beta_floor_exec();
                    if version.lt_version(&b) {
                        Some((ReqOp::Ge, b))
                    } else {
                        None
                    }
                } else {
                    let b = Version::new(3, 3, 0);
                    if version.lt_version(&b) {
                        Some((ReqOp::Ge, b))
                    } else {
                        None
                    }
                }
            },
            _ => None,
        },
        Os::Other => None,
    };
    match blocked {
        Option::Some((op, bound)) => Err(
            Failure::IncompatibleVersion {
                os,
                arch,
                version: version.clone_version(),
                op,
                bound,
            },
        ),
        Option::None => Ok(()),
    }
}

/// Boundary exactness of every row of the matrix: on each constrained
/// target the decision flips exactly at the historical cutover version.
pub proof fn lemma_matrix_boundaries(v: VersionView)
    ensures
        spec_check(Os::Linux, Arch::X86, v) is None <==> version_lt(v, vnum(3, 8, 0)),
        spec_check(Os::Linux, Arch::Arm, v) is None <==> !version_lt(v, vnum(1, 12, 0)),
        spec_check(Os::Linux, Arch::Arm64, v) is None <==> !version_lt(v, vnum(1, 23, 0)),
        v.pre.len() > 0 ==> (spec_check(Os::Linux, Arch::Riscv64, v) is None <==> !version_lt(
            v,
            riscv64_beta_floor(),
        )),
        v.pre.len() == 0 ==> (spec_check(Os::Linux, Arch::Riscv64, v) is None <==> !version_lt(
            v,
            vnum(3, 3, 0),
        )),
        spec_check(Os::MacOs, Arch::X86, v) is None <==> !version_lt(vnum(2, 7, 0), v),
        spec_check(Os::MacOs, Arch::Arm64, v) is None <==> !version_lt(v, vnum(2, 14, 1)),
        spec_check(Os::Windows, Arch::X86, v) is None <==> !version_lt(vnum(2, 7, 0), v),
        v.pre.len() > 0 ==> (spec_check(Os::Windows, Arch::Arm64, v) is None <==> !version_lt(
            v,
            windows_arm64_beta_floor(),
        )),
        v.pre.len() == 0 ==> (spec_check(Os::Windows, Arch::Arm64, v) is None <==> !version_lt(
            v,
            vnum(3, 3, 0),
        )),
{
}

/// An unknown operating system is refused outright, whatever the
/// architecture and version.
pub proof fn lemma_unsupported_os(arch: Arch, v: VersionView)
    ensures
        spec_check(Os::Other, arch, v) == Some(FailureView::UnsupportedOs { os: Os::Other }),
{
}

/// An architecture outside the table is refused outright on every known
/// operating system, whatever the version.
pub proof fn lemma_unsupported_target(os: Os, v: VersionView)
    requires
        !(os is Other),
    ensures
        spec_check(os, Arch::Other, v) == Some(
            FailureView::UnsupportedTarget { os, arch: Arch::Other },
        ),
{
}

} // verus!
