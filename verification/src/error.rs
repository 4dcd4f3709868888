//! Failures the engine can report. Each is terminal and surfaced to the
//! caller unchanged; none is retried here.

use vstd::prelude::*;

use crate::platform::Arch;
use crate::platform::Os;
use crate::render::render_version;
use crate::version::Version;
use crate::version::VersionView;
use crate::version_spec::ReqOp;

verus! {

/// A failure of the engine.
///
/// `Parse` covers text that fits no recognized grammar. `UnsupportedOs`
/// means no build at all exists for the operating system; `UnsupportedTarget`
/// means the system is known but the architecture never had a build.
/// `IncompatibleVersion` means the version lies outside the historical
/// support window for the target and carries that window's boundary.
/// `CanaryUnsupported` rejects the canary stream. `Transport` stands for a
/// failed remote fetch and is raised only by the surrounding host, never by
/// the engine itself.
#[derive(Clone, Debug)]
pub enum Failure {
    Parse,
    UnsupportedOs { os: Os },
    UnsupportedTarget { os: Os, arch: Arch },
    IncompatibleVersion { os: Os, arch: Arch, version: Version, op: ReqOp, bound: Version },
    CanaryUnsupported,
    Transport,
}

/// Mathematical model of a failure.
pub ghost enum FailureView {
    Parse,
    UnsupportedOs { os: Os },
    UnsupportedTarget { os: Os, arch: Arch },
    IncompatibleVersion { os: Os, arch: Arch, version: VersionView, op: ReqOp, bound: VersionView },
    CanaryUnsupported,
    Transport,
}

impl View for Failure {
    type V = FailureView;

    open spec fn view(&self) -> FailureView {
        match self {
            Failure::Parse => FailureView::Parse,
            Failure::UnsupportedOs { os } => FailureView::UnsupportedOs { os: *os },
            Failure::UnsupportedTarget { os, arch } => FailureView::UnsupportedTarget {
                os: *os,
                arch: *arch,
            },
            Failure::IncompatibleVersion { os, arch, version, op, bound } =>
                FailureView::IncompatibleVersion {
                os: *os,
                arch: *arch,
                version: version@,
                op: *op,
                bound: bound@,
            },
            Failure::CanaryUnsupported => FailureView::CanaryUnsupported,
            Failure::Transport => FailureView::Transport,
        }
    }
}

/// The name of an operating system as messages write it.
pub open spec fn os_name_chars(os: Os) -> Seq<char> {
    match os {
        Os::Linux => "linux"@,
        Os::MacOs => "macos"@,
        Os::Windows => "windows"@,
        Os::Other => "unknown"@,
    }
}

/// The name of an architecture as messages write it.
pub open spec fn arch_name_chars(arch: Arch) -> Seq<char> {
    match arch {
        Arch::X86 => "x86"@,
        Arch::X64 => "x64"@,
        Arch::Arm => "arm"@,
        Arch::Arm64 => "arm64"@,
        Arch::Riscv64 => "riscv64"@,
        Arch::Other => "unknown"@,
    }
}

/// The written form of a requirement operator.
pub open spec fn op_chars(op: ReqOp) -> Seq<char> {
    match op {
        ReqOp::Lt => "<"@,
        ReqOp::Le => "<="@,
        ReqOp::Gt => ">"@,
        ReqOp::Ge => ">="@,
        ReqOp::Eq => "="@,
    }
}

/// The written form of a requirement: the operator before its boundary.
pub open spec fn req_chars(op: ReqOp, bound: VersionView) -> Seq<char> {
    op_chars(op) + render_version(bound)
}

/// The sentence a failure surfaces to the user, range included verbatim.
pub open spec fn spec_message(f: FailureView) -> Seq<char> {
    match f {
        FailureView::Parse => "Unable to parse the version or constraint"@,
        FailureView::UnsupportedOs { os } => "Unable to install Dart, unsupported OS "@
            + os_name_chars(os) + "."@,
        FailureView::UnsupportedTarget { os, arch } =>
            "Unable to install Dart, unsupported architecture "@ + arch_name_chars(arch)
            + " for "@ + os_name_chars(os) + "."@,
        FailureView::IncompatibleVersion { os, arch, version, op, bound } =>
            "Unable to install Dart@"@ + render_version(version)
            + " for the current architecture "@ + arch_name_chars(arch) + " and os. Require "@
            + req_chars(op, bound),
        FailureView::CanaryUnsupported =>
            "Dart does not support canary/nightly versions. Please use `proto install dart beta` instead"@,
        FailureView::Transport => "Unable to fetch the remote listing"@,
    }
}

fn os_name(os: Os) -> (r: &'static str)
    ensures
        r@ == os_name_chars(os),
{
    match os {
        Os::Linux => "linux",
        Os::MacOs => "macos",
        Os::Windows => "windows",
        Os::Other => "unknown",
    }
}

fn arch_name(arch: Arch) -> (r: &'static str)
    ensures
        r@ == arch_name_chars(arch),
{
    match arch {
        Arch::X86 => "x86",
        Arch::X64 => "x64",
        Arch::Arm => "arm",
        Arch::Arm64 => "arm64",
        Arch::Riscv64 => "riscv64",
        Arch::Other => "unknown",
    }
}

fn op_str(op: ReqOp) -> (r: &'static str)
    ensures
        r@ == op_chars(op),
{
    match op {
        ReqOp::Lt => "<",
        ReqOp::Le => "<=",
        ReqOp::Gt => ">",
        ReqOp::Ge => ">=",
        ReqOp::Eq => "=",
    }
}

impl Failure {
    /// The sentence this failure surfaces to the user.
    pub fn message(&self) -> (r: String)
        ensures
            r@ == spec_message(self@),
    {
        match self {
            Failure::Parse => String::from_str("Unable to parse the version or constraint"),
            Failure::UnsupportedOs { os } => {
                let mut out = String::from_str("Unable to install Dart, unsupported OS ");
                out.append(os_name(*os));
                out.append(".");
                proof {
                    assert(out@ =~= spec_message(self@));
                }
                out
            },
            Failure::UnsupportedTarget { os, arch } => {
                let mut out = String::from_str(
                    "Unable to install Dart, unsupported architecture ",
                );
                out.append(arch_name(*arch));
                out.append(" for ");
                out.append(os_name(*os));
                out.append(".");
                proof {
                    assert(out@ =~= spec_message(self@));
                }
                out
            },
            Failure::IncompatibleVersion { os: _, arch, version, op, bound } => {
                let mut out = String::from_str("Unable to install Dart@");
                let version_text = version.to_version_string();
                out.append(version_text.as_str());
                out.append(" for the current architecture ");
                out.append(arch_name(*arch));
                out.append(" and os. Require ");
                out.append(op_str(*op));
                let bound_text = bound.to_version_string();
                out.append(bound_text.as_str());
                proof {
                    assert(out@ =~= spec_message(self@));
                }
                out
            },
            Failure::CanaryUnsupported => String::from_str(
                "Dart does not support canary/nightly versions. Please use `proto install dart beta` instead",
            ),
            Failure::Transport => String::from_str("Unable to fetch the remote listing"),
        }
    }
}

} // verus!
