//! The version grammar: `major.minor.patch` with an optional `-pre` tag of
//! dot-separated identifiers, numbers written without leading zeros. The
//! grammar is stated as spec functions over character sequences; the
//! executable parser is proved to decide it exactly.

use vstd::prelude::*;

use crate::version::all_digits;
use crate::version::is_digit;
use crate::version::is_id_char;
use crate::version::wf_pre_id;
use crate::version::wf_version;
use crate::version::PreId;
use crate::version::PreIdView;
use crate::version::Version;
use crate::version::VersionView;

verus! {

/// Index of the first occurrence of `c` in `s` at or after `from`, or
/// `s.len()` when there is none.
pub open spec fn find_from(s: Seq<char>, c: char, from: int) -> int
    decreases s.len() - from,
{
    if from >= s.len() {
        s.len() as int
    } else if s[from] == c {
        from
    } else {
        find_from(s, c, from + 1)
    }
}

/// Numeric value of a digit sequence, most significant digit first.
pub open spec fn digits_val(s: Seq<char>) -> int
    decreases s.len(),
{
    if s.len() == 0 {
        0
    } else {
        digits_val(s.drop_last()) * 10 + (s.last() as u32 - 48)
    }
}

/// A number as the grammar writes it: digits only, no leading zero, and a
/// value that fits in `u64`.
pub open spec fn is_num_str(s: Seq<char>) -> bool {
    &&& s.len() > 0
    &&& all_digits(s)
    &&& (s.len() == 1 || s[0] != '0')
    &&& digits_val(s) <= u64::MAX
}

/// One pre-release identifier: all digits makes the numeric form (written
/// without leading zeros), anything else with only identifier characters
/// makes the textual form.
pub open spec fn parse_pre_id(s: Seq<char>) -> Option<PreIdView> {
    if s.len() == 0 || !(forall|i: int| 0 <= i < s.len() ==> is_id_char(#[trigger] s[i])) {
        None
    } else if all_digits(s) {
        if (s.len() == 1 || s[0] != '0') && digits_val(s) <= u64::MAX {
            Some(PreIdView::Num(digits_val(s)))
        } else {
            None
        }
    } else {
        Some(PreIdView::Alpha(s))
    }
}

/// Everything `find_from` returns lies between `from` and the length.
pub proof fn lemma_find_from_range(s: Seq<char>, c: char, from: int)
    ensures
        from <= s.len() ==> from <= find_from(s, c, from) <= s.len(),
        from > s.len() ==> find_from(s, c, from) == s.len(),
    decreases s.len() - from,
{
    if from < s.len() && s[from] != c {
        lemma_find_from_range(s, c, from + 1);
    }
}

/// The pre-release identifiers of `s` from position `from` on, split at dots.
pub open spec fn parse_pre_from(s: Seq<char>, from: int) -> Option<Seq<PreIdView>>
    decreases s.len() - from,
    via parse_pre_from_decreases
{
    let d = find_from(s, '.', from);
    match parse_pre_id(s.subrange(from, d)) {
        Option::None => None,
        Option::Some(id) => {
            if d == s.len() {
                Some(seq![id])
            } else {
                match parse_pre_from(s, d + 1) {
                    Option::None => None,
                    Option::Some(rest) => Some(seq![id] + rest),
                }
            }
        },
    }
}

#[via_fn]
proof fn parse_pre_from_decreases(s: Seq<char>, from: int) {
    lemma_find_from_range(s, '.', from);
}

/// The whole version grammar. `None` means the string is not a concrete
/// version.
pub open spec fn parse_version_chars(s: Seq<char>) -> Option<VersionView> {
    let i = find_from(s, '.', 0);
    if i == s.len() {
        None
    } else {
        let j = find_from(s, '.', i + 1);
        if j == s.len() {
            None
        } else {
            let k = find_from(s, '-', j + 1);
            let maj = s.subrange(0, i);
            let min = s.subrange(i + 1, j);
            let pat = s.subrange(j + 1, k);
            if !(is_num_str(maj) && is_num_str(min) && is_num_str(pat)) {
                None
            } else if k == s.len() {
                Some(
                    VersionView {
                        major: digits_val(maj),
                        minor: digits_val(min),
                        patch: digits_val(pat),
                        pre: Seq::<PreIdView>::empty(),
                    },
                )
            } else {
                match parse_pre_from(s, k + 1) {
                    Option::None => None,
                    Option::Some(pre) => Some(
                        VersionView {
                            major: digits_val(maj),
                            minor: digits_val(min),
                            patch: digits_val(pat),
                            pre,
                        },
                    ),
                }
            }
        }
    }
}

proof fn lemma_digits_val_nonneg(s: Seq<char>)
    requires
        all_digits(s),
    ensures
        digits_val(s) >= 0,
    decreases s.len(),
{
    if s.len() > 0 {
        assert(all_digits(s.drop_last())) by {
            assert(forall|i: int|
                0 <= i < s.drop_last().len() ==> s.drop_last()[i] == #[trigger] s[i]);
        }
        lemma_digits_val_nonneg(s.drop_last());
        assert(is_digit(s.last()));
    }
}

/// Appending digits never lowers the value.
proof fn lemma_digits_val_extend(s: Seq<char>, i: int)
    requires
        all_digits(s),
        0 <= i <= s.len(),
    ensures
        digits_val(s) >= digits_val(s.take(i)),
    decreases s.len() - i,
{
    if i < s.len() {
        lemma_digits_val_extend(s, i + 1);
        assert(s.take(i + 1).drop_last() =~= s.take(i));
        assert(s.take(i + 1).last() == s[i]);
        assert(all_digits(s.take(i))) by {
            assert(forall|j: int| 0 <= j < i ==> s.take(i)[j] == #[trigger] s[j]);
        }
        lemma_digits_val_nonneg(s.take(i));
        assert(is_digit(s[i]));
    } else {
        assert(s.take(i) =~= s);
    }
}

/// Index of the first occurrence of `c` at or after `from`, or the length.
fn find_char(s: &str, c: char, from: usize) -> (r: usize)
    requires
        from <= s@.len(),
    ensures
        r == find_from(s@, c, from as int),
        from <= r <= s@.len(),
        r < s@.len() ==> s@[r as int] == c,
        forall|j: int| from <= j < r ==> s@[j] != c,
{
    let n = s.unicode_len();
    let mut i: usize = from;
    loop
        invariant
            from <= i <= n,
            n == s@.len(),
            find_from(s@, c, from as int) == find_from(s@, c, i as int),
            forall|j: int| from <= j < i ==> s@[j] != c,
        decreases n - i,
    {
        if i == n {
            return i;
        }
        if s.get_char(i) == c {
            return i;
        }
        i += 1;
    }
}

/// Parse a digit string into its value; `None` exactly when the segment is
/// not a number of the grammar.
fn parse_num(seg: &str) -> (r: Option<u64>)
    ensures
        match r {
            Option::Some(v) => is_num_str(seg@) && v == digits_val(seg@),
            Option::None => !is_num_str(seg@),
        },
{
    let n = seg.unicode_len();
    if n == 0 {
        return None;
    }
    if n > 1 && seg.get_char(0) == '0' {
        return None;
    }
    let mut value: u128 = 0;
    let mut i: usize = 0;
    proof {
        assert(seg@.take(0) =~= Seq::<char>::empty());
    }
    while i < n
        invariant
            0 <= i <= n,
            n == seg@.len(),
            n > 1 ==> seg@[0] != '0',
            all_digits(seg@.take(i as int)),
            value == digits_val(seg@.take(i as int)),
            value <= u64::MAX,
        decreases n - i,
    {
        let c = seg.get_char(i);
        let cu = c as u32;
        if cu < 48 || cu > 57 {
            proof {
                assert(!is_digit(seg@[i as int]));
            }
            return None;
        }
        let d = cu - 48;
        let next: u128 = value * 10 + d as u128;
        proof {
            assert(seg@.take(i + 1).drop_last() =~= seg@.take(i as int));
            assert(seg@.take(i + 1).last() == seg@[i as int]);
            assert(all_digits(seg@.take(i + 1))) by {
                assert(forall|j: int|
                    0 <= j < i + 1 ==> seg@.take(i + 1)[j] == #[trigger] seg@[j]);
            }
        }
        if next > u64::MAX as u128 {
            proof {
                if all_digits(seg@) {
                    lemma_digits_val_extend(seg@, i + 1);
                }
            }
            return None;
        }
        value = next;
        i += 1;
    }
    proof {
        assert(seg@.take(n as int) =~= seg@);
    }
    Some(value as u64)
}

/// Parse one pre-release identifier segment.
fn parse_pre_seg(seg: &str) -> (r: Option<PreId>)
    ensures
        match r {
            Option::Some(p) => wf_pre_id(p@) && parse_pre_id(seg@) == Some(p@),
            Option::None => parse_pre_id(seg@) is None,
        },
{
    let n = seg.unicode_len();
    if n == 0 {
        return None;
    }
    let mut all_dig = true;
    let mut i: usize = 0;
    while i < n
        invariant
            0 <= i <= n,
            n == seg@.len(),
            forall|j: int| 0 <= j < i ==> is_id_char(#[trigger] seg@[j]),
            all_dig == (forall|j: int| 0 <= j < i ==> is_digit(#[trigger] seg@[j])),
        decreases n - i,
    {
        let c = seg.get_char(i);
        let cu = c as u32;
        let dig = 48 <= cu && cu <= 57;
        let idc = dig || (65 <= cu && cu <= 90) || (97 <= cu && cu <= 122) || c == '-';
        if !idc {
            proof {
                assert(!is_id_char(seg@[i as int]));
            }
            return None;
        }
        all_dig = all_dig && dig;
        i += 1;
    }
    if all_dig {
        proof {
            assert(all_digits(seg@));
        }
        match parse_num(seg) {
            Option::Some(v) => Some(PreId::Num(v)),
            Option::None => None,
        }
    } else {
        proof {
            assert(!all_digits(seg@));
        }
        Some(PreId::Alpha(String::from_str(seg)))
    }
}

/// Parse the pre-release identifiers of `s` from position `from` on.
fn parse_pre_ids(s: &str, from: usize) -> (r: Option<Vec<PreId>>)
    requires
        from <= s@.len(),
    ensures
        match r {
            Option::Some(v) => {
                &&& parse_pre_from(s@, from as int) == Some(v@.map_values(|p: PreId| p@))
                &&& forall|j: int| 0 <= j < v@.len() ==> wf_pre_id(#[trigger] v@[j]@)
            },
            Option::None => parse_pre_from(s@, from as int) is None,
        },
    decreases s@.len() - from,
{
    let n = s.unicode_len();
    let d = find_char(s, '.', from);
    let seg = s.substring_char(from, d);
    match parse_pre_seg(seg) {
        Option::None => None,
        Option::Some(id) => {
            if d == n {
                let ghost gid = id@;
                let v = vec![id];
                proof {
                    assert(v@.map_values(|p: PreId| p@) =~= seq![gid]);
                }
                Some(v)
            } else {
                match parse_pre_ids(s, d + 1) {
                    Option::None => None,
                    Option::Some(mut rest) => {
                        let ghost gid = id@;
                        let ghost grest = rest@;
                        rest.insert(0, id);
                        proof {
                            assert(rest@.map_values(|p: PreId| p@) =~= seq![gid]
                                + grest.map_values(|p: PreId| p@));
                        }
                        Some(rest)
                    },
                }
            }
        },
    }
}

impl Version {
    /// Parse a string as a concrete version; `None` exactly when the string
    /// is not in the version grammar.
    pub fn parse(s: &str) -> (r: Option<Version>)
        ensures
            match r {
                Option::Some(v) => wf_version(v@) && parse_version_chars(s@) == Some(v@),
                Option::None => parse_version_chars(s@) is None,
            },
    {
        let n = s.unicode_len();
        let i = find_char(s, '.', 0);
        if i == n {
            return None;
        }
        let j = find_char(s, '.', i + 1);
        if j == n {
            return None;
        }
        let k = find_char(s, '-', j + 1);
        let major = match parse_num(s.substring_char(0, i)) {
            Option::Some(v) => v,
            Option::None => {
                return None;
            },
        };
        let minor = match parse_num(s.substring_char(i + 1, j)) {
            Option::Some(v) => v,
            Option::None => {
                return None;
            },
        };
        let patch = match parse_num(s.substring_char(j + 1, k)) {
            Option::Some(v) => v,
            Option::None => {
                return None;
            },
        };
        if k == n {
            let r = Version { major, minor, patch, pre: Vec::new() };
            proof {
                assert(r@.pre =~= Seq::<PreIdView>::empty());
            }
            Some(r)
        } else {
            match parse_pre_ids(s, k + 1) {
                Option::None => None,
                Option::Some(pre) => Some(Version { major, minor, patch, pre }),
            }
        }
    }
}

} // verus!
