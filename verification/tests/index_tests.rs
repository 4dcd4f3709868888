use dart_dist::channel::add_versions_for_channel;
use dart_dist::channel::last_segment_exec;
use dart_dist::channel::latest_url;
use dart_dist::channel::listing_url;
use dart_dist::channel::load_versions;
use dart_dist::channel::Channel;
use dart_dist::channel::DartLatest;
use dart_dist::channel::DartPrefixes;
use dart_dist::channel::VersionIndex;
use dart_dist::platform::Arch;
use dart_dist::platform::Os;
use dart_dist::version::Version;

fn latest(s: &str) -> DartLatest {
    DartLatest { version: s.to_string() }
}

fn prefixes(items: &[&str]) -> DartPrefixes {
    DartPrefixes { prefixes: items.iter().map(|s| s.to_string()).collect() }
}

fn names(ix: &VersionIndex) -> Vec<String> {
    ix.versions.iter().map(|v| v.to_version_string()).collect()
}

#[test]
fn extracts_trailing_segment() {
    assert_eq!(last_segment_exec("channels/stable/release/3.7.1/"), "3.7.1");
    assert_eq!(last_segment_exec("channels/stable/release/3.7.1///"), "3.7.1");
    assert_eq!(last_segment_exec("3.7.1"), "3.7.1");
    assert_eq!(last_segment_exec(""), "");
    assert_eq!(last_segment_exec("///"), "");
}

#[test]
fn loads_versions_from_dist_url() {
    let ix = load_versions(
        &latest("3.7.1"),
        &prefixes(&[
            "channels/stable/release/3.6.0/",
            "channels/stable/release/3.7.1/",
        ]),
        &latest("3.8.0-171.2.beta"),
        &prefixes(&["channels/beta/release/3.8.0-171.2.beta/"]),
        Os::Linux,
        Arch::X64,
    );
    assert!(!ix.versions.is_empty());
    assert_eq!(names(&ix), vec!["3.6.0", "3.7.1", "3.8.0-171.2.beta"]);
}

#[test]
fn sets_latest_stable_beta_alias() {
    let ix = load_versions(
        &latest("3.7.1"),
        &prefixes(&[
            "channels/stable/release/3.6.0/",
            "channels/stable/release/3.7.1/",
        ]),
        &latest("3.8.0-171.2.beta"),
        &prefixes(&["channels/beta/release/3.8.0-171.2.beta/"]),
        Os::MacOs,
        Arch::Arm64,
    );
    let stable = ix.stable_alias.as_ref().expect("stable alias is recorded");
    let beta = ix.beta_alias.as_ref().expect("beta alias is recorded");
    let top = ix.latest.as_ref().expect("latest is recorded");
    assert_eq!(stable.to_version_string(), "3.7.1");
    assert_eq!(beta.to_version_string(), "3.8.0-171.2.beta");
    assert_eq!(top.to_version_string(), "3.7.1");
    assert!(top.eq_version(stable));
}

#[test]
fn beta_alias_never_overwrites_latest() {
    let mut ix = VersionIndex::new();
    add_versions_for_channel(
        Channel::Stable,
        &latest("3.7.1"),
        &prefixes(&["channels/stable/release/3.7.1/"]),
        Os::Linux,
        Arch::X64,
        &mut ix,
    );
    let latest_before = ix.latest.as_ref().unwrap().to_version_string();
    add_versions_for_channel(
        Channel::Beta,
        &latest("3.8.0-171.2.beta"),
        &prefixes(&["channels/beta/release/3.8.0-171.2.beta/"]),
        Os::Linux,
        Arch::X64,
        &mut ix,
    );
    assert_eq!(ix.latest.as_ref().unwrap().to_version_string(), latest_before);
    assert_eq!(ix.stable_alias.as_ref().unwrap().to_version_string(), "3.7.1");
}

#[test]
fn merged_index_holds_each_version_once() {
    let ix = load_versions(
        &latest("3.7.1"),
        &prefixes(&[
            "channels/stable/release/3.7.1/",
            "channels/stable/release/3.7.1/",
            "channels/stable/release/3.6.0/",
        ]),
        &latest("3.7.1"),
        &prefixes(&["channels/beta/release/3.7.1/"]),
        Os::Linux,
        Arch::X64,
    );
    assert_eq!(names(&ix), vec!["3.7.1", "3.6.0"]);
}

#[test]
fn malformed_entries_are_skipped_not_fatal() {
    let ix = load_versions(
        &latest("3.7.1"),
        &prefixes(&[
            "channels/stable/release/latest/",
            "channels/stable/release/not a version/",
            "channels/stable/release/canary/",
            "channels/stable/release/3.7.1/",
        ]),
        &latest(""),
        &prefixes(&[]),
        Os::Linux,
        Arch::X64,
    );
    assert_eq!(names(&ix), vec!["3.7.1"]);
}

#[test]
fn incompatible_versions_are_filtered_at_listing_time() {
    let ix = load_versions(
        &latest("3.8.0"),
        &prefixes(&[
            "channels/stable/release/3.7.3/",
            "channels/stable/release/3.8.0/",
        ]),
        &latest(""),
        &prefixes(&[]),
        Os::Linux,
        Arch::X86,
    );
    assert_eq!(names(&ix), vec!["3.7.3"]);
    // The pointer names a filtered version, so no alias is recorded.
    assert!(ix.stable_alias.is_none());
    assert!(ix.latest.is_none());
}

#[test]
fn unknown_arch_host_lists_nothing() {
    let ix = load_versions(
        &latest("3.7.1"),
        &prefixes(&["channels/stable/release/3.7.1/"]),
        &latest(""),
        &prefixes(&[]),
        Os::Linux,
        Arch::Other,
    );
    assert!(ix.versions.is_empty());
    assert!(ix.latest.is_none());
}

#[test]
fn fetch_addresses_follow_the_archive_layout() {
    assert_eq!(
        latest_url(Channel::Stable),
        "https://storage.googleapis.com/dart-archive/channels/stable/release/latest/VERSION"
    );
    assert_eq!(
        latest_url(Channel::Beta),
        "https://storage.googleapis.com/dart-archive/channels/beta/release/latest/VERSION"
    );
    assert_eq!(
        listing_url(Channel::Stable),
        "https://storage.googleapis.com/storage/v1/b/dart-archive/o?delimiter=%2F&prefix=channels%2Fstable%2Frelease%2F&alt=json"
    );
    assert_eq!(
        listing_url(Channel::Beta),
        "https://storage.googleapis.com/storage/v1/b/dart-archive/o?delimiter=%2F&prefix=channels%2Fbeta%2Frelease%2F&alt=json"
    );
}

#[test]
fn listing_order_is_kept() {
    let mut ix = VersionIndex::new();
    add_versions_for_channel(
        Channel::Stable,
        &latest("2.0.0"),
        &prefixes(&[
            "channels/stable/release/3.0.0/",
            "channels/stable/release/1.0.0/",
            "channels/stable/release/2.0.0/",
        ]),
        Os::Linux,
        Arch::X64,
        &mut ix,
    );
    assert_eq!(names(&ix), vec!["3.0.0", "1.0.0", "2.0.0"]);
    assert!(ix.stable_alias.as_ref().unwrap().eq_version(&Version::parse("2.0.0").unwrap()));
}
