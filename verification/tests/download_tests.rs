use dart_dist::config::DartPluginConfig;
use dart_dist::download::resolve_download_urls;
use dart_dist::error::Failure;
use dart_dist::platform::Arch;
use dart_dist::platform::Os;
use dart_dist::version::Version;
use dart_dist::version_spec::UnresolvedSpec;
use dart_dist::version_spec::VersionSpec;

fn resolved(s: &str) -> VersionSpec {
    VersionSpec::Resolved(Version::parse(s).unwrap())
}

#[test]
fn supports_macos_arm64() {
    let config = DartPluginConfig::default();
    let r = resolve_download_urls(
        &resolved("3.7.1"),
        Os::MacOs,
        Arch::Arm64,
        config.dist_url.as_str(),
    )
    .unwrap();
    assert_eq!(
        r.0,
        "https://storage.googleapis.com/dart-archive/channels/stable/release/3.7.1/sdk/dartsdk-macos-arm64-release.zip"
    );
    assert_eq!(
        r.1,
        "https://storage.googleapis.com/dart-archive/channels/stable/release/3.7.1/sdk/dartsdk-macos-arm64-release.zip.sha256sum"
    );
}

#[test]
fn prerelease_always_resolves_to_beta_channel() {
    let r = resolve_download_urls(
        &resolved("3.0.0-290.2.beta"),
        Os::Linux,
        Arch::Riscv64,
        "{channel}",
    )
    .unwrap();
    assert_eq!(r.0, "beta");
}

#[test]
fn release_always_resolves_to_stable_channel() {
    let r = resolve_download_urls(&resolved("3.7.1"), Os::Windows, Arch::X64, "{channel}")
        .unwrap();
    assert_eq!(r.0, "stable");
}

#[test]
fn canary_is_rejected_before_any_url() {
    let spec = VersionSpec::Unresolved(UnresolvedSpec::Canary);
    let r = resolve_download_urls(&spec, Os::Linux, Arch::X64, "{channel}");
    assert!(matches!(r, Err(Failure::CanaryUnsupported)));
}

#[test]
fn canary_message_points_at_beta() {
    let spec = VersionSpec::Unresolved(UnresolvedSpec::Canary);
    let f = resolve_download_urls(&spec, Os::Linux, Arch::X64, "{channel}").err().unwrap();
    assert_eq!(
        f.message(),
        "Dart does not support canary/nightly versions. Please use `proto install dart beta` instead"
    );
}

#[test]
fn incompatible_version_fails_before_substitution() {
    let r = resolve_download_urls(&resolved("3.8.0"), Os::Linux, Arch::X86, "{channel}");
    assert!(matches!(r, Err(Failure::IncompatibleVersion { .. })));
}

#[test]
fn unknown_arch_is_unsupported_target() {
    let r = resolve_download_urls(&resolved("3.7.1"), Os::Linux, Arch::Other, "{channel}");
    match r {
        Err(Failure::UnsupportedTarget { os, arch }) => {
            assert_eq!(os, Os::Linux);
            assert_eq!(arch, Arch::Other);
        },
        _ => panic!("an unknown architecture must be refused"),
    }
}

#[test]
fn unknown_os_is_unsupported_os() {
    let r = resolve_download_urls(&resolved("3.7.1"), Os::Other, Arch::X64, "{channel}");
    assert!(matches!(r, Err(Failure::UnsupportedOs { os: Os::Other })));
}

#[test]
fn x86_token_is_ia32() {
    let config = DartPluginConfig::default();
    let r = resolve_download_urls(
        &resolved("2.7.0"),
        Os::Windows,
        Arch::X86,
        config.dist_url.as_str(),
    )
    .unwrap();
    assert_eq!(
        r.0,
        "https://storage.googleapis.com/dart-archive/channels/stable/release/2.7.0/sdk/dartsdk-windows-ia32-release.zip"
    );
}

#[test]
fn default_template_is_the_public_archive() {
    let config = DartPluginConfig::default();
    assert_eq!(
        config.dist_url,
        "https://storage.googleapis.com/dart-archive/channels/{channel}/release/{version}/sdk/dartsdk-{platform}-{arch}-release.zip"
    );
}

#[test]
fn repeated_placeholders_are_all_substituted() {
    let r = resolve_download_urls(
        &resolved("1.2.3"),
        Os::Linux,
        Arch::X64,
        "{arch}/{arch}-{platform}-{version}-{channel}",
    )
    .unwrap();
    assert_eq!(r.0, "x64/x64-linux-1.2.3-stable");
}
