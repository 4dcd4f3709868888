//! Resolving the download location: the release channel follows from the
//! version's pre-release tag alone, the URL from a template with four
//! placeholders, and the checksum location from a fixed suffix.

use vstd::prelude::*;

use crate::compat::spec_check;
use crate::error::Failure;
use crate::error::FailureView;
use crate::platform::Arch;
use crate::platform::Os;
use crate::render::render_version;
use crate::version::VersionView;
use crate::version_spec::UnresolvedSpecView;
use crate::version_spec::VersionSpec;
use crate::version_spec::VersionSpecView;

verus! {

/// Every occurrence of `p` in `s` replaced by `t`, scanning left to right
/// without overlap.
pub open spec fn spec_replace(s: Seq<char>, p: Seq<char>, t: Seq<char>) -> Seq<char>
    decreases s.len(),
    when p.len() > 0
{
    if s.len() < p.len() {
        s
    } else if s.subrange(0, p.len() as int) == p {
        t + spec_replace(s.skip(p.len() as int), p, t)
    } else {
        seq![s[0]] + spec_replace(s.skip(1), p, t)
    }
}

/// The channel a resolved version belongs to: an empty pre-release tag means
/// `stable`, a non-empty one means `beta`, wherever the version was found.
pub open spec fn channel_token(v: VersionView) -> Seq<char> {
    if v.pre.len() == 0 {
        "stable"@
    } else {
        "beta"@
    }
}

/// The URL token of a supported operating system.
pub open spec fn os_token(os: Os) -> Seq<char> {
    match os {
        Os::Linux => "linux"@,
        Os::MacOs => "macos"@,
        Os::Windows => "windows"@,
        Os::Other => Seq::<char>::empty(),
    }
}

/// The URL token of a supported architecture, `None` where no archive was
/// ever published.
pub open spec fn arch_token(arch: Arch) -> Option<Seq<char>> {
    match arch {
        Arch::X86 => Some("ia32"@),
        Arch::X64 => Some("x64"@),
        Arch::Arm => Some("arm"@),
        Arch::Arm64 => Some("arm64"@),
        Arch::Riscv64 => Some("riscv64"@),
        Arch::Other => None,
    }
}

/// The template with all four placeholders substituted.
pub open spec fn spec_download_url(
    template: Seq<char>,
    v: VersionView,
    os: Os,
    arch: Arch,
) -> Seq<char> {
    spec_replace(
        spec_replace(
            spec_replace(
                spec_replace(template, "{channel}"@, channel_token(v)),
                "{version}"@,
                render_version(v),
            ),
            "{platform}"@,
            os_token(os),
        ),
        "{arch}"@,
        arch_token(arch)->Some_0,
    )
}

/// Whether `p` stands in `s` at position `i`.
fn match_at(s: &str, p: &str, i: usize) -> (r: bool)
    requires
        i + p@.len() <= s@.len(),
    ensures
        r == (s@.subrange(i as int, i + p@.len()) == p@),
{
    let n = s.unicode_len();
    let m = p.unicode_len();
    let mut k: usize = 0;
    while k < m
        invariant
            n == s@.len(),
            m == p@.len(),
            i + m <= n,
            0 <= k <= m,
            forall|j: int| 0 <= j < k ==> s@[i + j] == p@[j],
        decreases m - k,
    {
        if s.get_char(i + k) != p.get_char(k) {
            proof {
                assert(s@.subrange(i as int, i + p@.len())[k as int] == s@[i + k]);
            }
            return false;
        }
        k += 1;
    }
    proof {
        assert(s@.subrange(i as int, i + p@.len()) =~= p@);
    }
    true
}

/// Every occurrence of `p` in `s` replaced by `t`.
pub fn replace_all(s: &str, p: &str, t: &str) -> (r: String)
    requires
        p@.len() > 0,
    ensures
        r@ == spec_replace(s@, p@, t@),
{
    let n = s.unicode_len();
    let m = p.unicode_len();
    let mut out = String::new();
    let mut i: usize = 0;
    proof {
        assert(s@.skip(0) =~= s@);
        assert(out@ + spec_replace(s@, p@, t@) =~= spec_replace(s@, p@, t@));
    }
    while i < n
        invariant
            n == s@.len(),
            m == p@.len(),
            m > 0,
            0 <= i <= n,
            out@ + spec_replace(s@.skip(i as int), p@, t@) == spec_replace(s@, p@, t@),
        decreases n - i,
    {
        if n - i >= m && match_at(s, p, i) {
            out.append(t);
            proof {
                assert(s@.skip(i as int).subrange(0, m as int) =~= s@.subrange(
                    i as int,
                    i + m,
                ));
                assert(s@.skip(i as int).skip(m as int) =~= s@.skip(i + m));
                assert(spec_replace(s@.skip(i as int), p@, t@) == t@ + spec_replace(
                    s@.skip(i + m),
                    p@,
                    t@,
                ));
                assert(out@ + spec_replace(s@.skip(i + m), p@, t@) =~= spec_replace(
                    s@,
                    p@,
                    t@,
                ));
            }
            i += m;
        } else if n - i < m {
            out.append(s.substring_char(i, n));
            proof {
                assert(s@.skip(i as int).len() < m);
                assert(spec_replace(s@.skip(i as int), p@, t@) == s@.skip(i as int));
                assert(s@.subrange(i as int, n as int) =~= s@.skip(i as int));
                assert(s@.skip(n as int) =~= Seq::<char>::empty());
                assert(spec_replace(s@.skip(n as int), p@, t@) == s@.skip(n as int));
                assert(out@ + spec_replace(s@.skip(n as int), p@, t@) =~= spec_replace(
                    s@,
                    p@,
                    t@,
                ));
            }
            i = n;
        } else {
            out.append(s.substring_char(i, i + 1));
            proof {
                assert(s@.skip(i as int).subrange(0, m as int) =~= s@.subrange(
                    i as int,
                    i + m,
                ));
                assert(s@.skip(i as int)[0] == s@[i as int]);
                assert(s@.skip(i as int).skip(1) =~= s@.skip(i + 1));
                assert(spec_replace(s@.skip(i as int), p@, t@) == seq![s@[i as int]]
                    + spec_replace(s@.skip(i + 1), p@, t@));
                assert(s@.subrange(i as int, i + 1) =~= seq![s@[i as int]]);
                assert(out@ + spec_replace(s@.skip(i + 1), p@, t@) =~= spec_replace(
                    s@,
                    p@,
                    t@,
                ));
            }
            i += 1;
        }
    }
    proof {
        assert(s@.skip(n as int) =~= Seq::<char>::empty());
        assert(spec_replace(s@.skip(n as int), p@, t@) == s@.skip(n as int));
        assert(out@ =~= spec_replace(s@, p@, t@));
    }
    out
}

/// The resolved download and checksum locations for a version on a target.
///
/// The canary stream is refused first; then the compatibility matrix judges
/// the target and version together, refusing an unknown system, an unknown
/// architecture, and a version outside its window; only then is the
/// template substituted.
pub fn resolve_download_urls(spec: &VersionSpec, os: Os, arch: Arch, template: &str) -> (r:
    Result<(String, String), Failure>)
    requires
        spec@ is Resolved || spec@ == VersionSpecView::Unresolved(UnresolvedSpecView::Canary),
    ensures
        match r {
            Result::Ok(urls) => {
                &&& spec@ is Resolved
                &&& spec_check(os, arch, spec@->Resolved_0) is None
                &&& arch_token(arch) is Some
                &&& urls.0@ == spec_download_url(template@, spec@->Resolved_0, os, arch)
                &&& urls.1@ == urls.0@ + ".sha256sum"@
            },
            Result::Err(f) => {
                if spec@ is Resolved {
                    spec_check(os, arch, spec@->Resolved_0) is Some && f@ == spec_check(
                        os,
                        arch,
                        spec@->Resolved_0,
                    )->Some_0
                } else {
                    f@ == FailureView::CanaryUnsupported
                }
            },
        },
{
    let version = match spec.as_version() {
        Option::Some(v) => v,
        Option::None => {
            return Err(Failure::CanaryUnsupported);
        },
    };
    match crate::compat::check_version_for_os_and_arch(os, arch, version) {
        Result::Ok(()) => {},
        Result::Err(f) => {
            return Err(f);
        },
    }
    let platform: &str = match os {
        Os::Linux => "linux",
        Os::MacOs => "macos",
        Os::Windows => "windows",
        Os::Other => {
            proof {
                assert(false);
            }
            "linux"
        },
    };
    let arch_name: &str = match arch {
        Arch::X86 => "ia32",
        Arch::X64 => "x64",
        Arch::Arm => "arm",
        Arch::Arm64 => "arm64",
        Arch::Riscv64 => "riscv64",
        Arch::Other => {
            proof {
                assert(false);
            }
            "x64"
        },
    };
    let channel: &str = if version.is_prerelease() {
        "beta"
    } else {
        "stable"
    };
    let version_text = version.to_version_string();
    proof {
        reveal_strlit("{channel}");
        reveal_strlit("{version}");
        reveal_strlit("{platform}");
        reveal_strlit("{arch}");
    }
    let with_channel = replace_all(template, "{channel}", channel);
    let with_version = replace_all(with_channel.as_str(), "{version}", version_text.as_str());
    let with_platform = replace_all(with_version.as_str(), "{platform}", platform);
    let download = replace_all(with_platform.as_str(), "{arch}", arch_name);
    let mut checksum = download.clone();
    checksum.append(".sha256sum");
    Ok((download, checksum))
}

/// The channel a version resolves to never depends on where the version was
/// discovered: an empty pre-release tag always writes `stable`, and any
/// non-empty one always writes `beta`.
pub proof fn lemma_channel_from_prerelease_alone(v: VersionView)
    ensures
        v.pre.len() == 0 ==> channel_token(v) == "stable"@,
        v.pre.len() > 0 ==> channel_token(v) == "beta"@,
{
}

} // verus!
