//! Concrete semantic versions: the data model, semantic-version precedence,
//! and executable comparisons proved against it.

use vstd::prelude::*;

verus! {

/// One dot-separated pre-release identifier. A purely numeric identifier
/// compares numerically; an identifier holding any non-digit compares as
/// ASCII text, and always above every numeric identifier.
#[derive(Clone, Debug)]
pub enum PreId {
    Num(u64),
    Alpha(String),
}

/// A concrete semantic version with an optional pre-release tag. An empty
/// `pre` vector means a release; a non-empty one marks the version as a
/// pre-release, which orders below the release with the same numbers.
#[derive(Clone, Debug)]
pub struct Version {
    pub major: u64,
    pub minor: u64,
    pub patch: u64,
    pub pre: Vec<PreId>,
}

/// Mathematical model of a pre-release identifier.
pub ghost enum PreIdView {
    Num(int),
    Alpha(Seq<char>),
}

/// Mathematical model of a version.
pub ghost struct VersionView {
    pub major: int,
    pub minor: int,
    pub patch: int,
    pub pre: Seq<PreIdView>,
}

impl View for PreId {
    type V = PreIdView;

    open spec fn view(&self) -> PreIdView {
        match self {
            PreId::Num(n) => PreIdView::Num(*n as int),
            PreId::Alpha(s) => PreIdView::Alpha(s@),
        }
    }
}

impl View for Version {
    type V = VersionView;

    open spec fn view(&self) -> VersionView {
        VersionView {
            major: self.major as int,
            minor: self.minor as int,
            patch: self.patch as int,
            pre: self.pre@.map_values(|p: PreId| p@),
        }
    }
}

/// ASCII decimal digit.
pub open spec fn is_digit(c: char) -> bool {
    48 <= c as u32 <= 57
}

/// A character allowed inside a pre-release identifier.
pub open spec fn is_id_char(c: char) -> bool {
    is_digit(c) || (65 <= c as u32 <= 90) || (97 <= c as u32 <= 122) || c == '-'
}

pub open spec fn all_digits(s: Seq<char>) -> bool {
    forall|i: int| 0 <= i < s.len() ==> is_digit(#[trigger] s[i])
}

/// Well-formed pre-release identifier: a numeric one fits in `u64`; a textual
/// one is non-empty, uses only identifier characters, and is not all digits
/// (an all-digit identifier is the numeric form).
pub open spec fn wf_pre_id(p: PreIdView) -> bool {
    match p {
        PreIdView::Num(n) => 0 <= n <= u64::MAX,
        PreIdView::Alpha(s) => {
            &&& s.len() > 0
            &&& forall|i: int| 0 <= i < s.len() ==> is_id_char(#[trigger] s[i])
            &&& !all_digits(s)
        },
    }
}

/// Well-formed version: the numbers fit in `u64` and every pre-release
/// identifier is well formed.
pub open spec fn wf_version(v: VersionView) -> bool {
    &&& 0 <= v.major <= u64::MAX
    &&& 0 <= v.minor <= u64::MAX
    &&& 0 <= v.patch <= u64::MAX
    &&& forall|i: int| 0 <= i < v.pre.len() ==> wf_pre_id(#[trigger] v.pre[i])
}

/// Strict lexicographic order on character sequences, by code point.
pub open spec fn seq_char_lt(a: Seq<char>, b: Seq<char>) -> bool
    decreases a.len() + b.len(),
{
    if b.len() == 0 {
        false
    } else if a.len() == 0 {
        true
    } else if a[0] != b[0] {
        (a[0] as u32) < (b[0] as u32)
    } else {
        seq_char_lt(a.drop_first(), b.drop_first())
    }
}

/// Semantic-version precedence between single pre-release identifiers:
/// numeric identifiers compare numerically and order below textual ones;
/// textual identifiers compare lexically.
pub open spec fn pre_id_lt(a: PreIdView, b: PreIdView) -> bool {
    match (a, b) {
        (PreIdView::Num(x), PreIdView::Num(y)) => x < y,
        (PreIdView::Num(_), PreIdView::Alpha(_)) => true,
        (PreIdView::Alpha(_), PreIdView::Num(_)) => false,
        (PreIdView::Alpha(x), PreIdView::Alpha(y)) => seq_char_lt(x, y),
    }
}

/// Semantic-version precedence between pre-release identifier lists:
/// identifier by identifier, a shorter list ordering below its extensions.
pub open spec fn pre_lt(a: Seq<PreIdView>, b: Seq<PreIdView>) -> bool
    decreases a.len() + b.len(),
{
    if b.len() == 0 {
        false
    } else if a.len() == 0 {
        true
    } else if a[0] != b[0] {
        pre_id_lt(a[0], b[0])
    } else {
        pre_lt(a.drop_first(), b.drop_first())
    }
}

/// Full semantic-version precedence: by major, minor, patch, then
/// pre-release, where a pre-release orders below the release carrying the
/// same three numbers.
pub open spec fn version_lt(a: VersionView, b: VersionView) -> bool {
    if a.major != b.major {
        a.major < b.major
    } else if a.minor != b.minor {
        a.minor < b.minor
    } else if a.patch != b.patch {
        a.patch < b.patch
    } else if a.pre.len() == 0 {
        false
    } else if b.pre.len() == 0 {
        true
    } else {
        pre_lt(a.pre, b.pre)
    }
}

pub open spec fn version_le(a: VersionView, b: VersionView) -> bool {
    version_lt(a, b) || a == b
}

/// Character-sequence equality of two strings.
pub fn str_eq(a: &str, b: &str) -> (r: bool)
    ensures
        r == (a@ == b@),
{
    let na = a.unicode_len();
    let nb = b.unicode_len();
    if na != nb {
        return false;
    }
    let mut i: usize = 0;
    while i < na
        invariant
            na == a@.len(),
            na == b@.len(),
            0 <= i <= na,
            forall|j: int| 0 <= j < i ==> a@[j] == b@[j],
        decreases na - i,
    {
        if a.get_char(i) != b.get_char(i) {
            return false;
        }
        i += 1;
    }
    proof {
        assert(a@ =~= b@);
    }
    true
}

/// Strict lexicographic comparison of two strings, by code point.
pub fn str_lt(a: &str, b: &str) -> (r: bool)
    ensures
        r == seq_char_lt(a@, b@),
{
    let na = a.unicode_len();
    let nb = b.unicode_len();
    let mut i: usize = 0;
    proof {
        assert(a@.skip(0) =~= a@);
        assert(b@.skip(0) =~= b@);
    }
    loop
        invariant
            na == a@.len(),
            nb == b@.len(),
            0 <= i <= na,
            0 <= i <= nb,
            seq_char_lt(a@, b@) == seq_char_lt(a@.skip(i as int), b@.skip(i as int)),
        decreases na - i,
    {
        if i >= nb {
            return false;
        }
        if i >= na {
            return true;
        }
        let ca = a.get_char(i);
        let cb = b.get_char(i);
        if ca != cb {
            return (ca as u32) < (cb as u32);
        }
        proof {
            assert(a@.skip(i as int).drop_first() =~= a@.skip(i + 1));
            assert(b@.skip(i as int).drop_first() =~= b@.skip(i + 1));
        }
        i += 1;
    }
}

impl PreId {
    /// Whether two identifiers are the same.
    pub fn eq_id(&self, other: &PreId) -> (r: bool)
        ensures
            r == (self@ == other@),
    {
        match (self, other) {
            (PreId::Num(a), PreId::Num(b)) => *a == *b,
            (PreId::Alpha(a), PreId::Alpha(b)) => str_eq(a.as_str(), b.as_str()),
            _ => false,
        }
    }

    /// An identical copy of the identifier.
    pub fn clone_id(&self) -> (r: PreId)
        ensures
            r@ == self@,
    {
        match self {
            PreId::Num(n) => PreId::Num(*n),
            PreId::Alpha(s) => PreId::Alpha(s.clone()),
        }
    }

    /// Whether `self` orders strictly below `other`.
    pub fn lt_id(&self, other: &PreId) -> (r: bool)
        ensures
            r == pre_id_lt(self@, other@),
    {
        match (self, other) {
            (PreId::Num(a), PreId::Num(b)) => *a < *b,
            (PreId::Num(_), PreId::Alpha(_)) => true,
            (PreId::Alpha(_), PreId::Num(_)) => false,
            (PreId::Alpha(a), PreId::Alpha(b)) => str_lt(a.as_str(), b.as_str()),
        }
    }
}

impl Version {
    /// A release version with no pre-release tag.
    pub fn new(major: u64, minor: u64, patch: u64) -> (r: Version)
        ensures
            r@ == (VersionView { major: major as int, minor: minor as int, patch: patch as int, pre: Seq::<PreIdView>::empty() }),
            wf_version(r@),
    {
        let r = Version { major, minor, patch, pre: Vec::new() };
        proof {
            assert(r@.pre =~= Seq::<PreIdView>::empty());
        }
        r
    }

    /// An identical copy of the version.
    pub fn clone_version(&self) -> (r: Version)
        ensures
            r@ == self@,
    {
        let mut pre: Vec<PreId> = Vec::new();
        let n = self.pre.len();
        let mut i: usize = 0;
        while i < n
            invariant
                n == self.pre.len(),
                0 <= i <= n,
                pre@.len() == i,
                forall|j: int| 0 <= j < i ==> pre@[j]@ == self.pre@[j]@,
            decreases n - i,
        {
            pre.push(self.pre[i].clone_id());
            i += 1;
        }
        let r = Version { major: self.major, minor: self.minor, patch: self.patch, pre };
        proof {
            assert(r@.pre =~= self@.pre);
        }
        r
    }

    /// Whether two versions are the same, pre-release tags included.
    pub fn eq_version(&self, other: &Version) -> (r: bool)
        ensures
            r == (self@ == other@),
    {
        if self.major != other.major || self.minor != other.minor || self.patch != other.patch {
            return false;
        }
        if self.pre.len() != other.pre.len() {
            proof {
                assert(self@.pre.len() != other@.pre.len());
            }
            return false;
        }
        let n = self.pre.len();
        let mut i: usize = 0;
        while i < n
            invariant
                n == self.pre.len(),
                n == other.pre.len(),
                0 <= i <= n,
                self.major == other.major,
                self.minor == other.minor,
                self.patch == other.patch,
                forall|j: int| 0 <= j < i ==> self@.pre[j] == other@.pre[j],
            decreases n - i,
        {
            proof {
                assert(self@.pre[i as int] == self.pre[i as int]@);
                assert(other@.pre[i as int] == other.pre[i as int]@);
            }
            if !self.pre[i].eq_id(&other.pre[i]) {
                return false;
            }
            i += 1;
        }
        proof {
            assert(self@.pre =~= other@.pre);
        }
        true
    }

    /// Whether `self` orders strictly below `other` under semantic-version
    /// precedence.
    pub fn lt_version(&self, other: &Version) -> (r: bool)
        ensures
            r == version_lt(self@, other@),
    {
        if self.major != other.major {
            return self.major < other.major;
        }
        if self.minor != other.minor {
            return self.minor < other.minor;
        }
        if self.patch != other.patch {
            return self.patch < other.patch;
        }
        if self.pre.len() == 0 {
            return false;
        }
        if other.pre.len() == 0 {
            return true;
        }
        let na = self.pre.len();
        let nb = other.pre.len();
        let mut i: usize = 0;
        proof {
            assert(self@.pre.skip(0) =~= self@.pre);
            assert(other@.pre.skip(0) =~= other@.pre);
        }
        loop
            invariant
                na == self.pre.len(),
                nb == other.pre.len(),
                na > 0,
                nb > 0,
                0 <= i <= na,
                0 <= i <= nb,
                self.major == other.major,
                self.minor == other.minor,
                self.patch == other.patch,
                pre_lt(self@.pre, other@.pre) == pre_lt(
                    self@.pre.skip(i as int),
                    other@.pre.skip(i as int),
                ),
            decreases na - i,
        {
            if i >= nb {
                return false;
            }
            if i >= na {
                return true;
            }
            if !self.pre[i].eq_id(&other.pre[i]) {
                return self.pre[i].lt_id(&other.pre[i]);
            }
            proof {
                assert(self@.pre.skip(i as int).drop_first() =~= self@.pre.skip(i + 1));
                assert(other@.pre.skip(i as int).drop_first() =~= other@.pre.skip(i + 1));
            }
            i += 1;
        }
    }

    /// Whether `self` orders at or below `other`.
    pub fn le_version(&self, other: &Version) -> (r: bool)
        ensures
            r == version_le(self@, other@),
    {
        if self.lt_version(other) {
            true
        } else {
            self.eq_version(other)
        }
    }

    /// A pre-release version is one carrying a non-empty pre-release tag.
    pub fn is_prerelease(&self) -> (r: bool)
        ensures
            r == (self@.pre.len() > 0),
    {
        self.pre.len() > 0
    }
}

} // verus!
