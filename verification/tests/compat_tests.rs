use dart_dist::compat::check_version_for_os_and_arch;
use dart_dist::error::Failure;
use dart_dist::platform::Arch;
use dart_dist::platform::Os;
use dart_dist::version::Version;
use dart_dist::version_spec::ReqOp;

fn ver(s: &str) -> Version {
    Version::parse(s).unwrap()
}

fn blocked(os: Os, arch: Arch, s: &str) -> bool {
    check_version_for_os_and_arch(os, arch, &ver(s)).is_err()
}

#[test]
fn check_versions_linux_x86() {
    let r = check_version_for_os_and_arch(Os::Linux, Arch::X86, &ver("3.8.0"));
    match r {
        Err(Failure::IncompatibleVersion { os, arch, version, op, bound }) => {
            assert_eq!(os, Os::Linux);
            assert_eq!(arch, Arch::X86);
            assert!(version.eq_version(&ver("3.8.0")));
            assert_eq!(op, ReqOp::Lt);
            assert!(bound.eq_version(&ver("3.8.0")));
        },
        _ => panic!("3.8.0 must be blocked on linux x86"),
    }
}

#[test]
fn linux_x86_boundary() {
    assert!(blocked(Os::Linux, Arch::X86, "3.8.0"));
    assert!(blocked(Os::Linux, Arch::X86, "3.8.1"));
    assert!(!blocked(Os::Linux, Arch::X86, "3.7.3"));
    // A pre-release of the cutover still lies below it.
    assert!(!blocked(Os::Linux, Arch::X86, "3.8.0-1.beta"));
}

#[test]
fn check_versions_linux_arm() {
    let r = check_version_for_os_and_arch(Os::Linux, Arch::Arm, &ver("1.11.0"));
    match r {
        Err(Failure::IncompatibleVersion { op, bound, .. }) => {
            assert_eq!(op, ReqOp::Ge);
            assert!(bound.eq_version(&ver("1.12.0")));
        },
        _ => panic!("1.11.0 must be blocked on linux arm"),
    }
}

#[test]
fn linux_arm_boundary() {
    assert!(blocked(Os::Linux, Arch::Arm, "1.11.0"));
    assert!(!blocked(Os::Linux, Arch::Arm, "1.12.0"));
    assert!(!blocked(Os::Linux, Arch::Arm, "1.13.0"));
}

#[test]
fn check_versions_linux_arm64() {
    assert!(blocked(Os::Linux, Arch::Arm64, "1.22.0"));
    assert!(!blocked(Os::Linux, Arch::Arm64, "1.23.0"));
    assert!(!blocked(Os::Linux, Arch::Arm64, "1.24.0"));
}

#[test]
fn check_versions_linux_riscv64() {
    assert!(blocked(Os::Linux, Arch::Riscv64, "3.2.0"));
    assert!(!blocked(Os::Linux, Arch::Riscv64, "3.3.0"));
    assert!(!blocked(Os::Linux, Arch::Riscv64, "3.4.0"));
}

#[test]
fn check_versions_linux_riscv64_beta() {
    assert!(blocked(Os::Linux, Arch::Riscv64, "3.0.0-290.1.beta"));
    assert!(!blocked(Os::Linux, Arch::Riscv64, "3.0.0-290.2.beta"));
    assert!(!blocked(Os::Linux, Arch::Riscv64, "3.0.0-290.3.beta"));
}

#[test]
fn check_versions_macos_x86() {
    assert!(blocked(Os::MacOs, Arch::X86, "2.8.0"));
    assert!(!blocked(Os::MacOs, Arch::X86, "2.7.0"));
    assert!(blocked(Os::MacOs, Arch::X86, "2.7.1"));
    let r = check_version_for_os_and_arch(Os::MacOs, Arch::X86, &ver("2.8.0"));
    match r {
        Err(Failure::IncompatibleVersion { op, bound, .. }) => {
            assert_eq!(op, ReqOp::Lt);
            assert!(bound.eq_version(&ver("2.8.0")));
        },
        _ => panic!("2.8.0 must be blocked on macos x86"),
    }
}

#[test]
fn check_versions_macos_arm64() {
    assert!(blocked(Os::MacOs, Arch::Arm64, "2.14.0"));
    assert!(!blocked(Os::MacOs, Arch::Arm64, "2.14.1"));
    assert!(!blocked(Os::MacOs, Arch::Arm64, "2.15.0"));
}

#[test]
fn check_versions_windows_x86() {
    assert!(blocked(Os::Windows, Arch::X86, "2.8.0"));
    assert!(!blocked(Os::Windows, Arch::X86, "2.7.0"));
    assert!(blocked(Os::Windows, Arch::X86, "2.7.1"));
}

#[test]
fn check_versions_windows_arm64() {
    assert!(blocked(Os::Windows, Arch::Arm64, "3.2.0"));
    assert!(!blocked(Os::Windows, Arch::Arm64, "3.3.0"));
    assert!(!blocked(Os::Windows, Arch::Arm64, "3.4.0"));
}

#[test]
fn check_versions_windows_arm64_beta() {
    assert!(blocked(Os::Windows, Arch::Arm64, "3.2.0-42.1.beta"));
    assert!(!blocked(Os::Windows, Arch::Arm64, "3.2.0-42.2.beta"));
    assert!(!blocked(Os::Windows, Arch::Arm64, "3.2.0-42.3.beta"));
}

#[test]
fn unsupported_os_is_its_own_failure() {
    let r = check_version_for_os_and_arch(Os::Other, Arch::X64, &ver("3.7.1"));
    assert!(matches!(r, Err(Failure::UnsupportedOs { os: Os::Other })));
}

#[test]
fn unconstrained_targets_accept_everything() {
    assert!(!blocked(Os::Linux, Arch::X64, "0.0.1"));
    assert!(!blocked(Os::MacOs, Arch::X64, "0.0.1"));
    assert!(!blocked(Os::Windows, Arch::X64, "0.0.1"));
}

#[test]
fn unknown_arch_on_known_os_is_unsupported_target() {
    for os in [Os::Linux, Os::MacOs, Os::Windows] {
        let r = check_version_for_os_and_arch(os, Arch::Other, &ver("3.7.1"));
        match r {
            Err(Failure::UnsupportedTarget { os: ros, arch }) => {
                assert_eq!(ros, os);
                assert_eq!(arch, Arch::Other);
            },
            _ => panic!("an architecture outside the table must be refused"),
        }
    }
}

#[test]
fn check_is_deterministic() {
    let a = check_version_for_os_and_arch(Os::Linux, Arch::Arm, &ver("1.11.0"));
    let b = check_version_for_os_and_arch(Os::Linux, Arch::Arm, &ver("1.11.0"));
    assert_eq!(a.is_err(), b.is_err());
    match (a, b) {
        (
            Err(Failure::IncompatibleVersion { op: opa, bound: ba, .. }),
            Err(Failure::IncompatibleVersion { op: opb, bound: bb, .. }),
        ) => {
            assert_eq!(opa, opb);
            assert!(ba.eq_version(&bb));
        },
        _ => panic!("both runs must block identically"),
    }
}

#[test]
fn incompatible_message_carries_range() {
    let r = check_version_for_os_and_arch(Os::Linux, Arch::Arm, &ver("1.11.0"));
    let f = r.err().unwrap();
    assert_eq!(
        f.message(),
        "Unable to install Dart@1.11.0 for the current architecture arm and os. Require >=1.12.0"
    );
}

#[test]
fn unsupported_os_message() {
    let f = Failure::UnsupportedOs { os: Os::Other };
    assert_eq!(f.message(), "Unable to install Dart, unsupported OS unknown.");
}
