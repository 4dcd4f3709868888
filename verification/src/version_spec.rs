//! Version specifications: a concrete version, or an unresolved request (an
//! alias, a range requirement, or the canary stream), with the grammar that
//! reads them from text.

use vstd::prelude::*;

use crate::parse::parse_version_chars;
use crate::version::is_digit;
use crate::version::version_le;
use crate::version::version_lt;
use crate::version::wf_version;
use crate::version::Version;
use crate::version::VersionView;

verus! {

/// A comparison operator of a range requirement.
#[derive(Clone, Copy, Debug, PartialEq, Eq, Structural)]
pub enum ReqOp {
    Lt,
    Le,
    Gt,
    Ge,
    Eq,
}

/// An unresolved request: the canary stream, a named alias, or a range
/// requirement against a concrete boundary version.
#[derive(Clone, Debug)]
pub enum UnresolvedSpec {
    Canary,
    Alias(String),
    Req(ReqOp, Version),
}

/// Either a concrete version or an unresolved request.
#[derive(Clone, Debug)]
pub enum VersionSpec {
    Resolved(Version),
    Unresolved(UnresolvedSpec),
}

/// Mathematical model of an unresolved request.
pub ghost enum UnresolvedSpecView {
    Canary,
    Alias(Seq<char>),
    Req(ReqOp, VersionView),
}

/// Mathematical model of a version specification.
pub ghost enum VersionSpecView {
    Resolved(VersionView),
    Unresolved(UnresolvedSpecView),
}

impl View for UnresolvedSpec {
    type V = UnresolvedSpecView;

    open spec fn view(&self) -> UnresolvedSpecView {
        match self {
            UnresolvedSpec::Canary => UnresolvedSpecView::Canary,
            UnresolvedSpec::Alias(s) => UnresolvedSpecView::Alias(s@),
            UnresolvedSpec::Req(op, v) => UnresolvedSpecView::Req(*op, v@),
        }
    }
}

impl View for VersionSpec {
    type V = VersionSpecView;

    open spec fn view(&self) -> VersionSpecView {
        match self {
            VersionSpec::Resolved(v) => VersionSpecView::Resolved(v@),
            VersionSpec::Unresolved(u) => VersionSpecView::Unresolved(u@),
        }
    }
}

/// The word that names the canary stream.
pub open spec fn canary_chars() -> Seq<char> {
    seq!['c', 'a', 'n', 'a', 'r', 'y']
}

pub open spec fn is_alpha(c: char) -> bool {
    (65 <= c as u32 <= 90) || (97 <= c as u32 <= 122)
}

pub open spec fn is_alias_char(c: char) -> bool {
    is_alpha(c) || is_digit(c) || c == '-' || c == '_' || c == '.'
}

/// An alias name: it opens with a letter and goes on in letters, digits,
/// hyphens, underscores and dots.
pub open spec fn is_alias_str(s: Seq<char>) -> bool {
    &&& s.len() > 0
    &&& is_alpha(s[0])
    &&& forall|i: int| 0 <= i < s.len() ==> is_alias_char(#[trigger] s[i])
}

/// Well-formed specification: versions are well formed, aliases fit the
/// alias grammar.
pub open spec fn wf_version_spec(s: VersionSpecView) -> bool {
    match s {
        VersionSpecView::Resolved(v) => wf_version(v),
        VersionSpecView::Unresolved(u) => match u {
            UnresolvedSpecView::Canary => true,
            UnresolvedSpecView::Alias(a) => is_alias_str(a),
            UnresolvedSpecView::Req(_, v) => wf_version(v),
        },
    }
}

/// The operator opening a requirement string, with its written length.
pub open spec fn req_op_of(s: Seq<char>) -> Option<(ReqOp, int)> {
    if s.len() >= 2 && s[0] == '<' && s[1] == '=' {
        Some((ReqOp::Le, 2int))
    } else if s.len() >= 1 && s[0] == '<' {
        Some((ReqOp::Lt, 1int))
    } else if s.len() >= 2 && s[0] == '>' && s[1] == '=' {
        Some((ReqOp::Ge, 2int))
    } else if s.len() >= 1 && s[0] == '>' {
        Some((ReqOp::Gt, 1int))
    } else if s.len() >= 2 && s[0] == '=' && s[1] == '=' {
        Some((ReqOp::Eq, 2int))
    } else if s.len() >= 1 && s[0] == '=' {
        Some((ReqOp::Eq, 1int))
    } else {
        None
    }
}

/// The grammar of a resolved specification: the word `canary`, else a
/// concrete version, else an alias.
pub open spec fn parse_spec_chars(s: Seq<char>) -> Option<VersionSpecView> {
    if s == canary_chars() {
        Some(VersionSpecView::Unresolved(UnresolvedSpecView::Canary))
    } else {
        match parse_version_chars(s) {
            Option::Some(v) => Some(VersionSpecView::Resolved(v)),
            Option::None => {
                if is_alias_str(s) {
                    Some(VersionSpecView::Unresolved(UnresolvedSpecView::Alias(s)))
                } else {
                    None
                }
            },
        }
    }
}

/// The grammar of a constraint: a resolved specification, or an operator
/// followed by a concrete boundary version.
pub open spec fn parse_constraint_chars(s: Seq<char>) -> Option<VersionSpecView> {
    if s == canary_chars() {
        Some(VersionSpecView::Unresolved(UnresolvedSpecView::Canary))
    } else {
        match parse_version_chars(s) {
            Option::Some(v) => Some(VersionSpecView::Resolved(v)),
            Option::None => match req_op_of(s) {
                Option::Some((op, w)) => match parse_version_chars(s.skip(w)) {
                    Option::Some(v) => Some(
                        VersionSpecView::Unresolved(UnresolvedSpecView::Req(op, v)),
                    ),
                    Option::None => None,
                },
                Option::None => {
                    if is_alias_str(s) {
                        Some(VersionSpecView::Unresolved(UnresolvedSpecView::Alias(s)))
                    } else {
                        None
                    }
                },
            },
        }
    }
}

/// Whether a concrete version satisfies a range boundary under an operator;
/// the one decision primitive behind every range check.
pub open spec fn spec_req_satisfied(v: VersionView, op: ReqOp, bound: VersionView) -> bool {
    match op {
        ReqOp::Lt => version_lt(v, bound),
        ReqOp::Le => version_le(v, bound),
        ReqOp::Gt => version_lt(bound, v),
        ReqOp::Ge => version_le(bound, v),
        ReqOp::Eq => v == bound,
    }
}

impl Version {
    /// Whether this version satisfies the requirement `op bound`.
    pub fn satisfies(&self, op: ReqOp, bound: &Version) -> (r: bool)
        ensures
            r == spec_req_satisfied(self@, op, bound@),
    {
        match op {
            ReqOp::Lt => self.lt_version(bound),
            ReqOp::Le => self.le_version(bound),
            ReqOp::Gt => bound.lt_version(self),
            ReqOp::Ge => bound.le_version(self),
            ReqOp::Eq => self.eq_version(bound),
        }
    }
}

/// Whether the whole of `s` fits the alias grammar.
fn is_alias_exec(s: &str) -> (r: bool)
    ensures
        r == is_alias_str(s@),
{
    let n = s.unicode_len();
    if n == 0 {
        return false;
    }
    let c0 = s.get_char(0) as u32;
    if !((65 <= c0 && c0 <= 90) || (97 <= c0 && c0 <= 122)) {
        return false;
    }
    let mut i: usize = 0;
    while i < n
        invariant
            0 <= i <= n,
            n == s@.len(),
            n > 0,
            is_alpha(s@[0]),
            forall|j: int| 0 <= j < i ==> is_alias_char(#[trigger] s@[j]),
        decreases n - i,
    {
        let c = s.get_char(i);
        let cu = c as u32;
        let ok = (65 <= cu && cu <= 90) || (97 <= cu && cu <= 122) || (48 <= cu && cu <= 57)
            || c == '-' || c == '_' || c == '.';
        if !ok {
            proof {
                assert(!is_alias_char(s@[i as int]));
            }
            return false;
        }
        i += 1;
    }
    true
}

impl VersionSpec {
    /// Parse a resolved specification; `None` exactly when the string fits
    /// no form of the grammar.
    pub fn parse(s: &str) -> (r: Option<VersionSpec>)
        ensures
            match r {
                Option::Some(sp) => wf_version_spec(sp@) && parse_spec_chars(s@) == Some(sp@),
                Option::None => parse_spec_chars(s@) is None,
            },
    {
        proof {
            reveal_strlit("canary");
            assert("canary"@ =~= canary_chars());
        }
        if crate::version::str_eq(s, "canary") {
            return Some(VersionSpec::Unresolved(UnresolvedSpec::Canary));
        }
        match Version::parse(s) {
            Option::Some(v) => Some(VersionSpec::Resolved(v)),
            Option::None => {
                if is_alias_exec(s) {
                    Some(VersionSpec::Unresolved(UnresolvedSpec::Alias(String::from_str(s))))
                } else {
                    None
                }
            },
        }
    }

    /// Parse a constraint; `None` exactly when the string fits no form of
    /// the constraint grammar.
    pub fn parse_constraint(s: &str) -> (r: Option<VersionSpec>)
        ensures
            match r {
                Option::Some(sp) => wf_version_spec(sp@) && parse_constraint_chars(s@) == Some(
                    sp@,
                ),
                Option::None => parse_constraint_chars(s@) is None,
            },
    {
        proof {
            reveal_strlit("canary");
            assert("canary"@ =~= canary_chars());
        }
        if crate::version::str_eq(s, "canary") {
            return Some(VersionSpec::Unresolved(UnresolvedSpec::Canary));
        }
        match Version::parse(s) {
            Option::Some(v) => {
                return Some(VersionSpec::Resolved(v));
            },
            Option::None => {},
        }
        let n = s.unicode_len();
        let op: Option<(ReqOp, usize)> = if n >= 1 {
            let c0 = s.get_char(0);
            if c0 == '<' {
                if n >= 2 && s.get_char(1) == '=' {
                    Some((ReqOp::Le, 2))
                } else {
                    Some((ReqOp::Lt, 1))
                }
            } else if c0 == '>' {
                if n >= 2 && s.get_char(1) == '=' {
                    Some((ReqOp::Ge, 2))
                } else {
                    Some((ReqOp::Gt, 1))
                }
            } else if c0 == '=' {
                if n >= 2 && s.get_char(1) == '=' {
                    Some((ReqOp::Eq, 2))
                } else {
                    Some((ReqOp::Eq, 1))
                }
            } else {
                None
            }
        } else {
            None
        };
        match op {
            Option::Some((o, w)) => {
                proof {
                    assert(req_op_of(s@) == Some((o, w as int)));
                }
                let tail = s.substring_char(w, n);
                proof {
                    assert(tail@ =~= s@.skip(w as int));
                }
                match Version::parse(tail) {
                    Option::Some(v) => Some(VersionSpec::Unresolved(UnresolvedSpec::Req(o, v))),
                    Option::None => None,
                }
            },
            Option::None => {
                proof {
                    assert(req_op_of(s@) is None);
                }
                if is_alias_exec(s) {
                    Some(VersionSpec::Unresolved(UnresolvedSpec::Alias(String::from_str(s))))
                } else {
                    None
                }
            },
        }
    }

    /// Whether this specification asks for the canary stream.
    pub fn is_canary(&self) -> (r: bool)
        ensures
            r == (self@ == VersionSpecView::Unresolved(UnresolvedSpecView::Canary)),
    {
        match self {
            VersionSpec::Unresolved(UnresolvedSpec::Canary) => true,
            _ => false,
        }
    }

    /// The concrete version, when the specification is resolved.
    pub fn as_version(&self) -> (r: Option<&Version>)
        ensures
            match r {
                Option::Some(v) => self@ == VersionSpecView::Resolved(v@),
                Option::None => !(self@ is Resolved),
            },
    {
        match self {
            VersionSpec::Resolved(v) => Some(v),
            VersionSpec::Unresolved(_) => None,
        }
    }
}

} // verus!
