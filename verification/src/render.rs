//! Rendering versions back into text: decimal numbers, pre-release tags, and
//! the full `major.minor.patch[-pre]` form, each proved equal to its spec.

use vstd::prelude::*;

use crate::version::PreId;
use crate::version::PreIdView;
use crate::version::Version;
use crate::version::VersionView;

verus! {

/// The character of one decimal digit.
pub open spec fn digit_char(d: int) -> char {
    if d == 0 {
        '0'
    } else if d == 1 {
        '1'
    } else if d == 2 {
        '2'
    } else if d == 3 {
        '3'
    } else if d == 4 {
        '4'
    } else if d == 5 {
        '5'
    } else if d == 6 {
        '6'
    } else if d == 7 {
        '7'
    } else if d == 8 {
        '8'
    } else {
        '9'
    }
}

/// Decimal writing of a number, most significant digit first.
pub open spec fn render_num(n: int) -> Seq<char>
    decreases n,
    when n >= 0
{
    if n < 10 {
        seq![digit_char(n)]
    } else {
        render_num(n / 10).push(digit_char(n % 10))
    }
}

/// Writing of one pre-release identifier.
pub open spec fn render_pre_id(p: PreIdView) -> Seq<char> {
    match p {
        PreIdView::Num(x) => render_num(x),
        PreIdView::Alpha(s) => s,
    }
}

/// Writing of the identifiers from position `i` on, separated by dots.
pub open spec fn render_pre_from(ids: Seq<PreIdView>, i: int) -> Seq<char>
    decreases ids.len() - i,
{
    if i < 0 || i >= ids.len() {
        Seq::<char>::empty()
    } else if i == ids.len() - 1 {
        render_pre_id(ids[i])
    } else {
        render_pre_id(ids[i]) + seq!['.'] + render_pre_from(ids, i + 1)
    }
}

/// Writing of a whole version: the three numbers joined by dots, and the
/// pre-release tag after a hyphen when there is one.
pub open spec fn render_version(v: VersionView) -> Seq<char> {
    render_num(v.major) + seq!['.'] + render_num(v.minor) + seq!['.'] + render_num(v.patch) + (
    if v.pre.len() == 0 {
        Seq::<char>::empty()
    } else {
        seq!['-'] + render_pre_from(v.pre, 0)
    })
}

/// A one-character string for each decimal digit.
fn digit_str(d: u64) -> (r: &'static str)
    requires
        d <= 9,
    ensures
        r@ == seq![digit_char(d as int)],
{
    let r: &'static str = match d {
        0 => "0",
        1 => "1",
        2 => "2",
        3 => "3",
        4 => "4",
        5 => "5",
        6 => "6",
        7 => "7",
        8 => "8",
        _ => "9",
    };
    proof {
        reveal_strlit("0");
        reveal_strlit("1");
        reveal_strlit("2");
        reveal_strlit("3");
        reveal_strlit("4");
        reveal_strlit("5");
        reveal_strlit("6");
        reveal_strlit("7");
        reveal_strlit("8");
        reveal_strlit("9");
        assert(r@ =~= seq![digit_char(d as int)]);
    }
    r
}

/// The digits of `ds` read back to front.
spec fn rev_digit_chars(ds: Seq<u64>) -> Seq<char> {
    Seq::new(ds.len(), |i: int| digit_char(ds[ds.len() - 1 - i] as int))
}

/// Append the decimal writing of `n`.
pub fn push_num(out: &mut String, n: u64)
    ensures
        final(out)@ == old(out)@ + render_num(n as int),
{
    let mut digs: Vec<u64> = Vec::new();
    let mut m: u64 = n;
    proof {
        assert(render_num(n as int) =~= render_num(m as int) + rev_digit_chars(digs@));
    }
    loop
        invariant_except_break
            render_num(n as int) =~= render_num(m as int) + rev_digit_chars(digs@),
        invariant
            forall|x: int| 0 <= x < digs@.len() ==> #[trigger] digs@[x] <= 9,
        ensures
            render_num(n as int) =~= rev_digit_chars(digs@),
        decreases m,
    {
        let d = m % 10;
        let ghost old_digs = digs@;
        digs.push(d);
        proof {
            assert(rev_digit_chars(digs@) =~= seq![digit_char(d as int)] + rev_digit_chars(
                old_digs,
            ));
        }
        if m < 10 {
            proof {
                assert(render_num(m as int) == seq![digit_char(m as int)]);
                assert(render_num(n as int) =~= rev_digit_chars(digs@));
            }
            break;
        }
        proof {
            assert(render_num(m as int) == render_num(m as int / 10).push(
                digit_char(m as int % 10),
            ));
            assert(render_num(m as int / 10).push(digit_char(m as int % 10)) =~= render_num(
                m as int / 10,
            ) + seq![digit_char(m as int % 10)]);
            assert(render_num(n as int) =~= render_num((m / 10) as int) + (seq![
                digit_char(d as int),
            ] + rev_digit_chars(old_digs)));
        }
        m = m / 10;
    }
    let k = digs.len();
    let mut j: usize = 0;
    proof {
        assert(rev_digit_chars(digs@).take(0) =~= Seq::<char>::empty());
        assert(old(out)@ + Seq::<char>::empty() =~= old(out)@);
    }
    while j < k
        invariant
            k == digs@.len(),
            0 <= j <= k,
            render_num(n as int) =~= rev_digit_chars(digs@),
            forall|x: int| 0 <= x < k ==> #[trigger] digs@[x] <= 9,
            out@ == old(out)@ + rev_digit_chars(digs@).take(j as int),
        decreases k - j,
    {
        out.append(digit_str(digs[k - 1 - j]));
        proof {
            assert(rev_digit_chars(digs@).take(j + 1) =~= rev_digit_chars(digs@).take(j as int)
                + seq![digit_char(digs@[k - 1 - j] as int)]);
            assert(out@ =~= old(out)@ + rev_digit_chars(digs@).take(j + 1));
        }
        j += 1;
    }
    proof {
        assert(rev_digit_chars(digs@).take(k as int) =~= rev_digit_chars(digs@));
        assert(out@ =~= old(out)@ + render_num(n as int));
    }
}

/// Append the writing of one pre-release identifier.
fn push_pre_id(out: &mut String, p: &PreId)
    ensures
        final(out)@ == old(out)@ + render_pre_id(p@),
{
    match p {
        PreId::Num(x) => push_num(out, *x),
        PreId::Alpha(s) => out.append(s.as_str()),
    }
}

impl Version {
    /// Write the version in its one canonical form.
    pub fn to_version_string(&self) -> (r: String)
        ensures
            r@ == render_version(self@),
    {
        let mut out = String::new();
        push_num(&mut out, self.major);
        out.append(".");
        push_num(&mut out, self.minor);
        out.append(".");
        push_num(&mut out, self.patch);
        proof {
            reveal_strlit(".");
            assert("."@ =~= seq!['.']);
        }
        let n = self.pre.len();
        if n > 0 {
            out.append("-");
            proof {
                reveal_strlit("-");
                assert("-"@ =~= seq!['-']);
                assert(out@ =~= render_num(self@.major) + seq!['.'] + render_num(self@.minor)
                    + seq!['.'] + render_num(self@.patch) + seq!['-']);
            }
            let ghost base = out@;
            let mut i: usize = 0;
            while i < n
                invariant
                    n == self.pre.len(),
                    n > 0,
                    0 <= i <= n,
                    base == render_num(self@.major) + seq!['.'] + render_num(self@.minor)
                        + seq!['.'] + render_num(self@.patch) + seq!['-'],
                    out@ + render_pre_from(self@.pre, i as int) == base + render_pre_from(
                        self@.pre,
                        0,
                    ),
                decreases n - i,
            {
                proof {
                    assert(self@.pre[i as int] == self.pre[i as int]@);
                }
                push_pre_id(&mut out, &self.pre[i]);
                if i < n - 1 {
                    out.append(".");
                    proof {
                        reveal_strlit(".");
                        assert("."@ =~= seq!['.']);
                        assert(render_pre_from(self@.pre, i as int) == render_pre_id(
                            self@.pre[i as int],
                        ) + seq!['.'] + render_pre_from(self@.pre, i + 1));
                        assert(out@ + render_pre_from(self@.pre, i + 1) =~= base
                            + render_pre_from(self@.pre, 0));
                    }
                } else {
                    proof {
                        assert(render_pre_from(self@.pre, i as int) == render_pre_id(
                            self@.pre[i as int],
                        ));
                        assert(render_pre_from(self@.pre, i + 1) =~= Seq::<char>::empty());
                        assert(out@ + render_pre_from(self@.pre, i + 1) =~= out@);
                        assert(out@ =~= base + render_pre_from(self@.pre, 0));
                    }
                }
                i += 1;
            }
            proof {
                assert(out@ =~= render_version(self@));
            }
        } else {
            proof {
                assert(out@ =~= render_version(self@));
            }
        }
        out
    }
}

} // verus!
