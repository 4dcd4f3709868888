//! Building the version index from a channel's remote listing: extract each
//! entry's trailing path segment, keep what parses as a concrete version, is
//! new to the index, and is installable on the caller's target, and record
//! the channel aliases along the way.

use vstd::prelude::*;

use crate::compat::spec_check;
use crate::parse::parse_version_chars;
use crate::platform::Arch;
use crate::platform::Os;
use crate::version::Version;
use crate::version::VersionView;

verus! {

/// A release channel with its own version history.
#[derive(Clone, Copy, Debug, PartialEq, Eq, Structural)]
pub enum Channel {
    Stable,
    Beta,
}

/// The channel's latest-version pointer, as the remote archive reports it.
pub struct DartLatest {
    pub version: String,
}

/// The channel's published directory listing: remote-storage path prefixes,
/// one per published version.
pub struct DartPrefixes {
    pub prefixes: Vec<String>,
}

/// The merged output index: installable versions in listing order, one
/// recorded alias per channel, and the overall latest pointer, which always
/// follows the stable channel.
pub struct VersionIndex {
    pub versions: Vec<Version>,
    pub stable_alias: Option<Version>,
    pub beta_alias: Option<Version>,
    pub latest: Option<Version>,
}

/// Mathematical model of the index.
pub ghost struct VersionIndexView {
    pub versions: Seq<VersionView>,
    pub stable_alias: Option<VersionView>,
    pub beta_alias: Option<VersionView>,
    pub latest: Option<VersionView>,
}

impl View for VersionIndex {
    type V = VersionIndexView;

    open spec fn view(&self) -> VersionIndexView {
        VersionIndexView {
            versions: self.versions@.map_values(|v: Version| v@),
            stable_alias: match self.stable_alias {
                Option::Some(ref v) => Some(v@),
                Option::None => None,
            },
            beta_alias: match self.beta_alias {
                Option::Some(ref v) => Some(v@),
                Option::None => None,
            },
            latest: match self.latest {
                Option::Some(ref v) => Some(v@),
                Option::None => None,
            },
        }
    }
}

/// The name of a channel as the remote archive writes it.
pub open spec fn channel_name_chars(c: Channel) -> Seq<char> {
    match c {
        Channel::Stable => "stable"@,
        Channel::Beta => "beta"@,
    }
}

/// `s` without its trailing slashes.
pub open spec fn trim_end_slashes(s: Seq<char>) -> Seq<char>
    decreases s.len(),
{
    if s.len() > 0 && s.last() == '/' {
        trim_end_slashes(s.drop_last())
    } else {
        s
    }
}

/// What stands after the last slash of `s`, or all of `s` without one.
pub open spec fn suffix_after_slash(s: Seq<char>) -> Seq<char>
    decreases s.len(),
{
    if s.len() == 0 {
        Seq::<char>::empty()
    } else if s.last() == '/' {
        Seq::<char>::empty()
    } else {
        suffix_after_slash(s.drop_last()).push(s.last())
    }
}

/// The candidate version string of one listing entry: its trailing path
/// segment, trailing slashes dropped first.
pub open spec fn last_segment(s: Seq<char>) -> Seq<char> {
    suffix_after_slash(trim_end_slashes(s))
}

/// Whether a version already stands in the index.
pub open spec fn index_has(vs: Seq<VersionView>, v: VersionView) -> bool {
    exists|i: int| 0 <= i < vs.len() && vs[i] == v
}

/// One listing entry folded into the index: the entry is skipped unless its
/// segment parses as a concrete version that is new and installable; an
/// accepted version that equals the latest pointer is recorded as the
/// channel's alias, and for the stable channel also as `latest`.
pub open spec fn spec_add_entry(
    ix: VersionIndexView,
    channel: Channel,
    latest_str: Seq<char>,
    item: Seq<char>,
    os: Os,
    arch: Arch,
) -> VersionIndexView {
    let seg = last_segment(item);
    match parse_version_chars(seg) {
        Option::None => ix,
        Option::Some(v) => {
            if index_has(ix.versions, v) || !(spec_check(os, arch, v) is None) {
                ix
            } else {
                if seg == latest_str {
                    match channel {
                        Channel::Stable => VersionIndexView {
                            versions: ix.versions.push(v),
                            stable_alias: Some(v),
                            beta_alias: ix.beta_alias,
                            latest: Some(v),
                        },
                        Channel::Beta => VersionIndexView {
                            versions: ix.versions.push(v),
                            stable_alias: ix.stable_alias,
                            beta_alias: Some(v),
                            latest: ix.latest,
                        },
                    }
                } else {
                    VersionIndexView {
                        versions: ix.versions.push(v),
                        stable_alias: ix.stable_alias,
                        beta_alias: ix.beta_alias,
                        latest: ix.latest,
                    }
                }
            }
        },
    }
}

/// The first `k` listing entries folded into the index, in listing order.
pub open spec fn spec_add_upto(
    ix: VersionIndexView,
    channel: Channel,
    latest_str: Seq<char>,
    items: Seq<Seq<char>>,
    os: Os,
    arch: Arch,
    k: int,
) -> VersionIndexView
    decreases k,
{
    if k <= 0 {
        ix
    } else {
        spec_add_entry(
            spec_add_upto(ix, channel, latest_str, items, os, arch, k - 1),
            channel,
            latest_str,
            items[k - 1],
            os,
            arch,
        )
    }
}

/// The whole listing folded into the index.
pub open spec fn spec_add_versions(
    ix: VersionIndexView,
    channel: Channel,
    latest_str: Seq<char>,
    items: Seq<Seq<char>>,
    os: Os,
    arch: Arch,
) -> VersionIndexView {
    spec_add_upto(ix, channel, latest_str, items, os, arch, items.len() as int)
}

/// The model of an index with nothing in it.
pub open spec fn empty_index() -> VersionIndexView {
    VersionIndexView {
        versions: Seq::<VersionView>::empty(),
        stable_alias: None,
        beta_alias: None,
        latest: None,
    }
}

impl VersionIndex {
    /// An index with nothing in it.
    pub fn new() -> (r: VersionIndex)
        ensures
            r@ == empty_index(),
    {
        let r = VersionIndex {
            versions: Vec::new(),
            stable_alias: None,
            beta_alias: None,
            latest: None,
        };
        proof {
            assert(r@.versions =~= Seq::<VersionView>::empty());
        }
        r
    }
}

/// The address of a channel's latest-version pointer.
pub open spec fn latest_url_chars(c: Channel) -> Seq<char> {
    "https://storage.googleapis.com/dart-archive/channels/"@ + channel_name_chars(c)
        + "/release/latest/VERSION"@
}

/// The address of a channel's full directory listing.
pub open spec fn listing_url_chars(c: Channel) -> Seq<char> {
    "https://storage.googleapis.com/storage/v1/b/dart-archive/o?delimiter=%2F&prefix=channels%2F"@
        + channel_name_chars(c) + "%2Frelease%2F&alt=json"@
}

/// The name of the channel as the remote archive writes it.
pub fn channel_name(channel: Channel) -> (r: &'static str)
    ensures
        r@ == channel_name_chars(channel),
{
    match channel {
        Channel::Stable => "stable",
        Channel::Beta => "beta",
    }
}

/// Build the address of a channel's latest-version pointer.
pub fn latest_url(channel: Channel) -> (r: String)
    ensures
        r@ == latest_url_chars(channel),
{
    let mut out = String::from_str("https://storage.googleapis.com/dart-archive/channels/");
    out.append(channel_name(channel));
    out.append("/release/latest/VERSION");
    proof {
        assert(out@ =~= latest_url_chars(channel));
    }
    out
}

/// Build the address of a channel's full directory listing.
pub fn listing_url(channel: Channel) -> (r: String)
    ensures
        r@ == listing_url_chars(channel),
{
    let mut out = String::from_str(
        "https://storage.googleapis.com/storage/v1/b/dart-archive/o?delimiter=%2F&prefix=channels%2F",
    );
    out.append(channel_name(channel));
    out.append("%2Frelease%2F&alt=json");
    proof {
        assert(out@ =~= listing_url_chars(channel));
    }
    out
}

/// The trailing path segment of one listing entry.
pub fn last_segment_exec(s: &str) -> (r: &str)
    ensures
        r@ == last_segment(s@),
{
    let n = s.unicode_len();
    let mut e: usize = n;
    proof {
        assert(s@.take(n as int) =~= s@);
    }
    while e > 0 && s.get_char(e - 1) == '/'
        invariant
            0 <= e <= n,
            n == s@.len(),
            trim_end_slashes(s@) == trim_end_slashes(s@.take(e as int)),
        decreases e,
    {
        proof {
            assert(s@.take(e as int).last() == s@[e - 1]);
            assert(s@.take(e as int).drop_last() =~= s@.take(e - 1));
        }
        e -= 1;
    }
    proof {
        if e > 0 {
            assert(s@.take(e as int).last() == s@[e - 1]);
        }
        assert(trim_end_slashes(s@) == s@.take(e as int));
    }
    let ghost t = s@.take(e as int);
    let mut b: usize = e;
    proof {
        assert(t.take(e as int) =~= t);
        assert(t.skip(e as int) =~= Seq::<char>::empty());
        assert(suffix_after_slash(t) =~= suffix_after_slash(t.take(e as int)) + t.skip(e as int));
    }
    while b > 0 && s.get_char(b - 1) != '/'
        invariant
            0 <= b <= e <= n,
            n == s@.len(),
            t == s@.take(e as int),
            suffix_after_slash(t) =~= suffix_after_slash(t.take(b as int)) + t.skip(b as int),
        decreases b,
    {
        proof {
            assert(t.take(b as int).last() == t[b - 1]);
            assert(t[b - 1] == s@[b - 1]);
            assert(t.take(b as int).drop_last() =~= t.take(b - 1));
            assert(t.skip(b - 1) =~= seq![t[b - 1]] + t.skip(b as int));
            assert(suffix_after_slash(t.take(b as int)) =~= suffix_after_slash(
                t.take(b - 1),
            ).push(t[b - 1]));
            assert(suffix_after_slash(t.take(b - 1)).push(t[b - 1]) + t.skip(b as int)
                =~= suffix_after_slash(t.take(b - 1)) + t.skip(b - 1));
        }
        b -= 1;
    }
    proof {
        if b > 0 {
            assert(t.take(b as int).last() == t[b - 1]);
            assert(t[b - 1] == s@[b - 1]);
            assert(suffix_after_slash(t.take(b as int)) =~= Seq::<char>::empty());
        } else {
            assert(t.take(0) =~= Seq::<char>::empty());
            assert(suffix_after_slash(t.take(0)) =~= Seq::<char>::empty());
        }
        assert(suffix_after_slash(t) =~= t.skip(b as int));
        assert(t.skip(b as int) =~= s@.subrange(b as int, e as int));
    }
    s.substring_char(b, e)
}

/// Whether the index already holds this version.
fn contains_version(vs: &Vec<Version>, v: &Version) -> (r: bool)
    ensures
        r == index_has(vs@.map_values(|x: Version| x@), v@),
{
    let ghost m = vs@.map_values(|x: Version| x@);
    let n = vs.len();
    let mut i: usize = 0;
    while i < n
        invariant
            m == vs@.map_values(|x: Version| x@),
            n == vs@.len(),
            0 <= i <= n,
            forall|j: int| 0 <= j < i ==> #[trigger] vs@[j]@ != v@,
        decreases n - i,
    {
        proof {
            assert(m[i as int] == vs@[i as int]@);
        }
        if vs[i].eq_version(v) {
            proof {
                assert(index_has(m, v@));
            }
            return true;
        }
        i += 1;
    }
    proof {
        if index_has(m, v@) {
            let k = choose|k: int| 0 <= k < m.len() && m[k] == v@;
            assert(m[k] == vs@[k]@);
            assert(false);
        }
    }
    false
}

/// Fold one channel's fetched listing into the shared index. The latest
/// pointer and the listing come from the surrounding host; everything the
/// original sources decide from them is decided here.
pub fn add_versions_for_channel(
    channel: Channel,
    latest: &DartLatest,
    listing: &DartPrefixes,
    os: Os,
    arch: Arch,
    output: &mut VersionIndex,
)
    ensures
        final(output)@ == spec_add_versions(
            old(output)@,
            channel,
            latest.version@,
            listing.prefixes@.map_values(|s: String| s@),
            os,
            arch,
        ),
{
    let ghost items = listing.prefixes@.map_values(|s: String| s@);
    let n = listing.prefixes.len();
    let mut i: usize = 0;
    while i < n
        invariant
            n == listing.prefixes@.len(),
            items == listing.prefixes@.map_values(|s: String| s@),
            0 <= i <= n,
            output@ == spec_add_upto(old(output)@, channel, latest.version@, items, os, arch, i as int),
        decreases n - i,
    {
        let ghost before = output@;
        proof {
            assert(items[i as int] == listing.prefixes@[i as int]@);
        }
        let seg = last_segment_exec(listing.prefixes[i].as_str());
        match Version::parse(seg) {
            Option::None => {},
            Option::Some(v) => {
                let dup = contains_version(&output.versions, &v);
                let compatible = crate::compat::check_version_for_os_and_arch(
                    os,
                    arch,
                    &v,
                ).is_ok();
                if !dup && compatible {
                    let ghost gv = v@;
                    output.versions.push(v.clone_version());
                    proof {
                        assert(output@.versions =~= before.versions.push(gv));
                    }
                    if crate::version::str_eq(seg, latest.version.as_str()) {
                        match channel {
                            Channel::Stable => {
                                output.stable_alias = Some(v.clone_version());
                                output.latest = Some(v);
                            },
                            Channel::Beta => {
                                output.beta_alias = Some(v);
                            },
                        }
                    }
                }
            },
        }
        proof {
            assert(output@ == spec_add_entry(before, channel, latest.version@, items[i as int], os, arch));
        }
        i += 1;
    }
}

/// Build the whole index for one target: the stable channel's listing is
/// folded in first, the beta channel's second, into one shared index.
pub fn load_versions(
    stable_latest: &DartLatest,
    stable_listing: &DartPrefixes,
    beta_latest: &DartLatest,
    beta_listing: &DartPrefixes,
    os: Os,
    arch: Arch,
) -> (r: VersionIndex)
    ensures
        r@ == spec_add_versions(
            spec_add_versions(
                empty_index(),
                Channel::Stable,
                stable_latest.version@,
                stable_listing.prefixes@.map_values(|s: String| s@),
                os,
                arch,
            ),
            Channel::Beta,
            beta_latest.version@,
            beta_listing.prefixes@.map_values(|s: String| s@),
            os,
            arch,
        ),
{
    let mut output = VersionIndex::new();
    add_versions_for_channel(Channel::Stable, stable_latest, stable_listing, os, arch, &mut output);
    add_versions_for_channel(Channel::Beta, beta_latest, beta_listing, os, arch, &mut output);
    output
}

/// No version stands twice in the sequence.
pub open spec fn index_unique(vs: Seq<VersionView>) -> bool {
    forall|i: int, j: int| 0 <= i < j < vs.len() ==> vs[i] != vs[j]
}

proof fn lemma_entry_unique(
    ix: VersionIndexView,
    channel: Channel,
    latest_str: Seq<char>,
    item: Seq<char>,
    os: Os,
    arch: Arch,
)
    requires
        index_unique(ix.versions),
    ensures
        index_unique(spec_add_entry(ix, channel, latest_str, item, os, arch).versions),
{
    let seg = last_segment(item);
    match parse_version_chars(seg) {
        Option::None => {},
        Option::Some(v) => {
            if index_has(ix.versions, v) || !(spec_check(os, arch, v) is None) {
            } else {
                let vs2 = ix.versions.push(v);
                assert(spec_add_entry(ix, channel, latest_str, item, os, arch).versions == vs2);
                assert forall|i: int, j: int| 0 <= i < j < vs2.len() implies vs2[i] != vs2[j] by {
                    if j == ix.versions.len() {
                        assert(vs2[j] == v);
                        assert(vs2[i] == ix.versions[i]);
                        if ix.versions[i] == v {
                            assert(index_has(ix.versions, v));
                        }
                    } else {
                        assert(vs2[i] == ix.versions[i]);
                        assert(vs2[j] == ix.versions[j]);
                    }
                }
            }
        },
    }
}

proof fn lemma_upto_unique(
    ix: VersionIndexView,
    channel: Channel,
    latest_str: Seq<char>,
    items: Seq<Seq<char>>,
    os: Os,
    arch: Arch,
    k: int,
)
    requires
        index_unique(ix.versions),
    ensures
        index_unique(spec_add_upto(ix, channel, latest_str, items, os, arch, k).versions),
    decreases k,
{
    if k > 0 {
        lemma_upto_unique(ix, channel, latest_str, items, os, arch, k - 1);
        lemma_entry_unique(
            spec_add_upto(ix, channel, latest_str, items, os, arch, k - 1),
            channel,
            latest_str,
            items[k - 1],
            os,
            arch,
        );
    }
}

/// Folding a channel's listing into an index without duplicates never
/// makes a duplicate: every version stands in the merged index at most
/// once, whatever the listings held.
pub proof fn lemma_index_versions_unique(
    ix: VersionIndexView,
    channel: Channel,
    latest_str: Seq<char>,
    items: Seq<Seq<char>>,
    os: Os,
    arch: Arch,
)
    requires
        index_unique(ix.versions),
    ensures
        index_unique(spec_add_versions(ix, channel, latest_str, items, os, arch).versions),
{
    lemma_upto_unique(ix, channel, latest_str, items, os, arch, items.len() as int);
}

proof fn lemma_entry_aliases(
    ix: VersionIndexView,
    channel: Channel,
    latest_str: Seq<char>,
    item: Seq<char>,
    os: Os,
    arch: Arch,
)
    ensures
        ix.latest == ix.stable_alias ==> spec_add_entry(
            ix,
            channel,
            latest_str,
            item,
            os,
            arch,
        ).latest == spec_add_entry(ix, channel, latest_str, item, os, arch).stable_alias,
        channel is Beta ==> spec_add_entry(ix, channel, latest_str, item, os, arch).latest
            == ix.latest && spec_add_entry(ix, channel, latest_str, item, os, arch).stable_alias
            == ix.stable_alias,
{
}

proof fn lemma_upto_aliases(
    ix: VersionIndexView,
    channel: Channel,
    latest_str: Seq<char>,
    items: Seq<Seq<char>>,
    os: Os,
    arch: Arch,
    k: int,
)
    ensures
        ix.latest == ix.stable_alias ==> spec_add_upto(
            ix,
            channel,
            latest_str,
            items,
            os,
            arch,
            k,
        ).latest == spec_add_upto(ix, channel, latest_str, items, os, arch, k).stable_alias,
        channel is Beta ==> spec_add_upto(ix, channel, latest_str, items, os, arch, k).latest
            == ix.latest && spec_add_upto(ix, channel, latest_str, items, os, arch, k).stable_alias
            == ix.stable_alias,
    decreases k,
{
    if k > 0 {
        lemma_upto_aliases(ix, channel, latest_str, items, os, arch, k - 1);
        lemma_entry_aliases(
            spec_add_upto(ix, channel, latest_str, items, os, arch, k - 1),
            channel,
            latest_str,
            items[k - 1],
            os,
            arch,
        );
    }
}

/// The `latest` pointer always tracks the stable channel's alias: where the
/// two agree before a channel scan, they agree after it, on either channel.
pub proof fn lemma_latest_tracks_stable(
    ix: VersionIndexView,
    channel: Channel,
    latest_str: Seq<char>,
    items: Seq<Seq<char>>,
    os: Os,
    arch: Arch,
)
    requires
        ix.latest == ix.stable_alias,
    ensures
        spec_add_versions(ix, channel, latest_str, items, os, arch).latest == spec_add_versions(
            ix,
            channel,
            latest_str,
            items,
            os,
            arch,
        ).stable_alias,
{
    lemma_upto_aliases(ix, channel, latest_str, items, os, arch, items.len() as int);
}

/// In the index that `load_versions` builds from the two channel scans, no
/// version stands twice, wherever and however often the listings named it.
pub proof fn lemma_built_index_unique(
    stable_latest: Seq<char>,
    stable_items: Seq<Seq<char>>,
    beta_latest: Seq<char>,
    beta_items: Seq<Seq<char>>,
    os: Os,
    arch: Arch,
)
    ensures
        index_unique(
            spec_add_versions(
                spec_add_versions(empty_index(), Channel::Stable, stable_latest, stable_items, os, arch),
                Channel::Beta,
                beta_latest,
                beta_items,
                os,
                arch,
            ).versions,
        ),
{
    let after_stable = spec_add_versions(
        empty_index(),
        Channel::Stable,
        stable_latest,
        stable_items,
        os,
        arch,
    );
    lemma_index_versions_unique(empty_index(), Channel::Stable, stable_latest, stable_items, os, arch);
    lemma_index_versions_unique(after_stable, Channel::Beta, beta_latest, beta_items, os, arch);
}

/// In the index that `load_versions` builds, the `latest` pointer always
/// equals the stable channel's recorded alias, set or unset together.
pub proof fn lemma_built_index_alias_consistent(
    stable_latest: Seq<char>,
    stable_items: Seq<Seq<char>>,
    beta_latest: Seq<char>,
    beta_items: Seq<Seq<char>>,
    os: Os,
    arch: Arch,
)
    ensures
        ({
            let built = spec_add_versions(
                spec_add_versions(empty_index(), Channel::Stable, stable_latest, stable_items, os, arch),
                Channel::Beta,
                beta_latest,
                beta_items,
                os,
                arch,
            );
            built.latest == built.stable_alias
        }),
{
    let after_stable = spec_add_versions(
        empty_index(),
        Channel::Stable,
        stable_latest,
        stable_items,
        os,
        arch,
    );
    lemma_latest_tracks_stable(empty_index(), Channel::Stable, stable_latest, stable_items, os, arch);
    lemma_latest_tracks_stable(after_stable, Channel::Beta, beta_latest, beta_items, os, arch);
}

proof fn lemma_entry_alias_value(
    ix: VersionIndexView,
    channel: Channel,
    latest_str: Seq<char>,
    item: Seq<char>,
    os: Os,
    arch: Arch,
)
    ensures
        ({
            let after = spec_add_entry(ix, channel, latest_str, item, os, arch);
            let pointer = parse_version_chars(latest_str);
            &&& forall|v: VersionView|
                index_has(ix.versions, v) ==> index_has(#[trigger] after.versions, v)
            &&& (after.stable_alias != ix.stable_alias ==> channel is Stable && pointer is Some
                && after.stable_alias == Some(pointer->Some_0) && index_has(
                after.versions,
                pointer->Some_0,
            ))
            &&& (after.beta_alias != ix.beta_alias ==> channel is Beta && pointer is Some
                && after.beta_alias == Some(pointer->Some_0) && index_has(
                after.versions,
                pointer->Some_0,
            ))
            &&& (after.latest != ix.latest ==> channel is Stable && pointer is Some
                && after.latest == Some(pointer->Some_0) && index_has(
                after.versions,
                pointer->Some_0,
            ))
        }),
{
    let after = spec_add_entry(ix, channel, latest_str, item, os, arch);
    let seg = last_segment(item);
    match parse_version_chars(seg) {
        Option::None => {},
        Option::Some(v) => {
            if index_has(ix.versions, v) || !(spec_check(os, arch, v) is None) {
            } else {
                assert(after.versions == ix.versions.push(v));
                assert(after.versions[ix.versions.len() as int] == v);
                assert(index_has(after.versions, v));
                assert forall|x: VersionView|
                    index_has(ix.versions, x) implies index_has(
                    #[trigger] after.versions,
                    x,
                ) by {
                    let k = choose|k: int| 0 <= k < ix.versions.len() && ix.versions[k] == x;
                    assert(after.versions[k] == x);
                }
                if seg == latest_str {
                    assert(parse_version_chars(latest_str) == Some(v));
                }
            }
        },
    }
}

proof fn lemma_upto_alias_value(
    ix: VersionIndexView,
    channel: Channel,
    latest_str: Seq<char>,
    items: Seq<Seq<char>>,
    os: Os,
    arch: Arch,
    k: int,
)
    ensures
        ({
            let after = spec_add_upto(ix, channel, latest_str, items, os, arch, k);
            let pointer = parse_version_chars(latest_str);
            &&& forall|v: VersionView|
                index_has(ix.versions, v) ==> index_has(#[trigger] after.versions, v)
            &&& (after.stable_alias != ix.stable_alias ==> channel is Stable && pointer is Some
                && after.stable_alias == Some(pointer->Some_0) && index_has(
                after.versions,
                pointer->Some_0,
            ))
            &&& (after.beta_alias != ix.beta_alias ==> channel is Beta && pointer is Some
                && after.beta_alias == Some(pointer->Some_0) && index_has(
                after.versions,
                pointer->Some_0,
            ))
            &&& (after.latest != ix.latest ==> channel is Stable && pointer is Some
                && after.latest == Some(pointer->Some_0) && index_has(
                after.versions,
                pointer->Some_0,
            ))
        }),
    decreases k,
{
    if k > 0 {
        lemma_upto_alias_value(ix, channel, latest_str, items, os, arch, k - 1);
        let mid = spec_add_upto(ix, channel, latest_str, items, os, arch, k - 1);
        lemma_entry_alias_value(mid, channel, latest_str, items[k - 1], os, arch);
    }
}

/// Whatever alias a channel scan records or changes, the recorded value is
/// the version parsed from that channel's latest pointer, and that version
/// stands in the index: an alias always names an accepted version.
pub proof fn lemma_alias_is_pointer_version(
    ix: VersionIndexView,
    channel: Channel,
    latest_str: Seq<char>,
    items: Seq<Seq<char>>,
    os: Os,
    arch: Arch,
)
    ensures
        ({
            let after = spec_add_versions(ix, channel, latest_str, items, os, arch);
            let pointer = parse_version_chars(latest_str);
            &&& (after.stable_alias != ix.stable_alias ==> channel is Stable && pointer is Some
                && after.stable_alias == Some(pointer->Some_0) && index_has(
                after.versions,
                pointer->Some_0,
            ))
            &&& (after.beta_alias != ix.beta_alias ==> channel is Beta && pointer is Some
                && after.beta_alias == Some(pointer->Some_0) && index_has(
                after.versions,
                pointer->Some_0,
            ))
            &&& (after.latest != ix.latest ==> channel is Stable && pointer is Some
                && after.latest == Some(pointer->Some_0) && index_has(
                after.versions,
                pointer->Some_0,
            ))
        }),
{
    lemma_upto_alias_value(ix, channel, latest_str, items, os, arch, items.len() as int);
}

/// A beta channel scan never touches the `latest` pointer nor the stable
/// alias: beta never overwrites what stable recorded.
pub proof fn lemma_beta_keeps_latest(
    ix: VersionIndexView,
    latest_str: Seq<char>,
    items: Seq<Seq<char>>,
    os: Os,
    arch: Arch,
)
    ensures
        spec_add_versions(ix, Channel::Beta, latest_str, items, os, arch).latest == ix.latest,
        spec_add_versions(ix, Channel::Beta, latest_str, items, os, arch).stable_alias
            == ix.stable_alias,
{
    lemma_upto_aliases(ix, Channel::Beta, latest_str, items, os, arch, items.len() as int);
}

} // verus!
