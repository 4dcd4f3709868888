use dart_dist::error::Failure;
use dart_dist::manifest::parse_version_file;
use dart_dist::version::Version;
use dart_dist::version_spec::ReqOp;
use dart_dist::version_spec::UnresolvedSpec;
use dart_dist::version_spec::VersionSpec;

#[test]
fn parses_pubspec() {
    let content = "\nname: \"My name\"\nenvironment:\n  sdk: \"<=3.6.0\"\n                    ";
    let r = parse_version_file("pubspec.yaml", content).unwrap();
    match r {
        Some(VersionSpec::Unresolved(UnresolvedSpec::Req(op, b))) => {
            assert_eq!(op, ReqOp::Le);
            assert!(b.eq_version(&Version::parse("3.6.0").unwrap()));
        },
        _ => panic!("expected the <=3.6.0 constraint"),
    }
}

#[test]
fn missing_environment_is_no_constraint() {
    let r = parse_version_file("pubspec.yaml", "name: demo\n").unwrap();
    assert!(r.is_none());
}

#[test]
fn missing_sdk_field_is_no_constraint() {
    let r = parse_version_file("pubspec.yaml", "name: demo\nenvironment:\n  flutter: \"1.0.0\"\n")
        .unwrap();
    assert!(r.is_none());
}

#[test]
fn other_files_are_ignored() {
    let r = parse_version_file("package.json", "not yaml at all: [").unwrap();
    assert!(r.is_none());
}

#[test]
fn pubspec_yml_prefix_also_matches() {
    let r = parse_version_file("pubspec.yml", "name: demo\nenvironment:\n  sdk: \">=1.12.0\"\n")
        .unwrap();
    match r {
        Some(VersionSpec::Unresolved(UnresolvedSpec::Req(op, b))) => {
            assert_eq!(op, ReqOp::Ge);
            assert!(b.eq_version(&Version::parse("1.12.0").unwrap()));
        },
        _ => panic!("expected the >=1.12.0 constraint"),
    }
}

#[test]
fn malformed_document_is_a_parse_failure() {
    let r = parse_version_file("pubspec.yaml", "name: [unclosed\n");
    assert!(matches!(r, Err(Failure::Parse)));
}

#[test]
fn missing_name_is_a_parse_failure() {
    let r = parse_version_file("pubspec.yaml", "environment:\n  sdk: \"1.0.0\"\n");
    assert!(matches!(r, Err(Failure::Parse)));
}

#[test]
fn bad_constraint_is_a_parse_failure() {
    let r = parse_version_file("pubspec.yaml", "name: demo\nenvironment:\n  sdk: \"not/good\"\n");
    assert!(matches!(r, Err(Failure::Parse)));
}

#[test]
fn plain_version_constraint_stays_resolved() {
    let r = parse_version_file("pubspec.yaml", "name: demo\nenvironment:\n  sdk: \"3.6.0\"\n")
        .unwrap();
    match r {
        Some(VersionSpec::Resolved(v)) => {
            assert!(v.eq_version(&Version::parse("3.6.0").unwrap()))
        },
        _ => panic!("expected a resolved version"),
    }
}
