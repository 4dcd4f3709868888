use dart_dist::version::PreId;
use dart_dist::version::Version;
use dart_dist::version_spec::ReqOp;
use dart_dist::version_spec::UnresolvedSpec;
use dart_dist::version_spec::VersionSpec;

fn v(major: u64, minor: u64, patch: u64) -> Version {
    Version { major, minor, patch, pre: vec![] }
}

#[test]
fn parses_plain_version() {
    let p = Version::parse("3.7.1").unwrap();
    assert_eq!(p.major, 3);
    assert_eq!(p.minor, 7);
    assert_eq!(p.patch, 1);
    assert!(p.pre.is_empty());
}

#[test]
fn parses_prerelease_version() {
    let p = Version::parse("3.0.0-290.2.beta").unwrap();
    assert_eq!(p.major, 3);
    assert_eq!(p.minor, 0);
    assert_eq!(p.patch, 0);
    assert_eq!(p.pre.len(), 3);
    assert!(matches!(p.pre[0], PreId::Num(290)));
    assert!(matches!(p.pre[1], PreId::Num(2)));
    match &p.pre[2] {
        PreId::Alpha(s) => assert_eq!(s.as_str(), "beta"),
        PreId::Num(_) => panic!("expected a textual identifier"),
    }
}

#[test]
fn rejects_bad_versions() {
    assert!(Version::parse("").is_none());
    assert!(Version::parse("1.2").is_none());
    assert!(Version::parse("1.2.3.4").is_none());
    assert!(Version::parse("01.2.3").is_none());
    assert!(Version::parse("1.02.3").is_none());
    assert!(Version::parse("1.2.3-").is_none());
    assert!(Version::parse("1.2.3-a..b").is_none());
    assert!(Version::parse("1.2.3-01").is_none());
    assert!(Version::parse("1.2.3-be ta").is_none());
    assert!(Version::parse("latest").is_none());
    assert!(Version::parse("99999999999999999999999.0.0").is_none());
}

#[test]
fn renders_canonically() {
    assert_eq!(Version::parse("3.7.1").unwrap().to_version_string(), "3.7.1");
    assert_eq!(
        Version::parse("3.0.0-290.2.beta").unwrap().to_version_string(),
        "3.0.0-290.2.beta"
    );
    assert_eq!(v(0, 0, 0).to_version_string(), "0.0.0");
    assert_eq!(v(10, 200, 3001).to_version_string(), "10.200.3001");
}

#[test]
fn orders_by_numbers() {
    assert!(v(1, 2, 3).lt_version(&v(1, 2, 4)));
    assert!(v(1, 2, 3).lt_version(&v(1, 3, 0)));
    assert!(v(1, 2, 3).lt_version(&v(2, 0, 0)));
    assert!(!v(2, 0, 0).lt_version(&v(1, 9, 9)));
    assert!(!v(1, 2, 3).lt_version(&v(1, 2, 3)));
}

#[test]
fn prerelease_orders_below_release() {
    let rel = Version::parse("3.0.0").unwrap();
    let pre = Version::parse("3.0.0-290.2.beta").unwrap();
    assert!(pre.lt_version(&rel));
    assert!(!rel.lt_version(&pre));
}

#[test]
fn prerelease_numeric_identifiers_compare_numerically() {
    let two = Version::parse("3.0.0-290.2.beta").unwrap();
    let ten = Version::parse("3.0.0-290.10.beta").unwrap();
    assert!(two.lt_version(&ten));
    assert!(!ten.lt_version(&two));
}

#[test]
fn numeric_identifiers_order_below_textual_ones() {
    let num = Version::parse("1.0.0-2").unwrap();
    let alpha = Version::parse("1.0.0-alpha").unwrap();
    assert!(num.lt_version(&alpha));
    assert!(!alpha.lt_version(&num));
}

#[test]
fn shorter_prerelease_orders_below_extension() {
    let short = Version::parse("1.0.0-alpha").unwrap();
    let long = Version::parse("1.0.0-alpha.1").unwrap();
    assert!(short.lt_version(&long));
    assert!(!long.lt_version(&short));
}

#[test]
fn parses_canary_and_aliases() {
    assert!(matches!(
        VersionSpec::parse("canary"),
        Some(VersionSpec::Unresolved(UnresolvedSpec::Canary))
    ));
    match VersionSpec::parse("latest") {
        Some(VersionSpec::Unresolved(UnresolvedSpec::Alias(a))) => {
            assert_eq!(a.as_str(), "latest")
        },
        _ => panic!("expected an alias"),
    }
    assert!(VersionSpec::parse("<3.8.0").is_none());
    assert!(VersionSpec::parse("7up?").is_none());
}

#[test]
fn parses_constraints() {
    match VersionSpec::parse_constraint("<=3.6.0") {
        Some(VersionSpec::Unresolved(UnresolvedSpec::Req(op, b))) => {
            assert_eq!(op, ReqOp::Le);
            assert!(b.eq_version(&v(3, 6, 0)));
        },
        _ => panic!("expected a requirement"),
    }
    match VersionSpec::parse_constraint(">=1.12.0") {
        Some(VersionSpec::Unresolved(UnresolvedSpec::Req(op, b))) => {
            assert_eq!(op, ReqOp::Ge);
            assert!(b.eq_version(&v(1, 12, 0)));
        },
        _ => panic!("expected a requirement"),
    }
    assert!(matches!(
        VersionSpec::parse_constraint("3.6.0"),
        Some(VersionSpec::Resolved(_))
    ));
    assert!(VersionSpec::parse_constraint("<=x").is_none());
    assert!(VersionSpec::parse_constraint("<").is_none());
}

#[test]
fn requirement_satisfaction_follows_the_operator() {
    let b = v(3, 6, 0);
    assert!(v(3, 5, 9).satisfies(ReqOp::Le, &b));
    assert!(v(3, 6, 0).satisfies(ReqOp::Le, &b));
    assert!(!v(3, 6, 1).satisfies(ReqOp::Le, &b));
    assert!(!v(3, 6, 0).satisfies(ReqOp::Lt, &b));
    assert!(v(3, 6, 0).satisfies(ReqOp::Ge, &b));
    assert!(!v(3, 6, 0).satisfies(ReqOp::Gt, &b));
    assert!(v(3, 6, 1).satisfies(ReqOp::Gt, &b));
    assert!(v(3, 6, 0).satisfies(ReqOp::Eq, &b));
    assert!(!v(3, 6, 1).satisfies(ReqOp::Eq, &b));
    // The pre-release of a boundary lies below the boundary itself.
    assert!(Version::parse("3.6.0-1.beta").unwrap().satisfies(ReqOp::Lt, &b));
}

#[test]
fn version_equality_sees_prerelease() {
    let a = Version::parse("1.2.3-beta.1").unwrap();
    let b = Version::parse("1.2.3-beta.1").unwrap();
    let c = Version::parse("1.2.3-beta.2").unwrap();
    let d = Version::parse("1.2.3").unwrap();
    assert!(a.eq_version(&b));
    assert!(!a.eq_version(&c));
    assert!(!a.eq_version(&d));
}
