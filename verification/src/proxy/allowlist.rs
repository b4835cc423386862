//! Host allowlist. Independent of the rewrite table. An exact host rule
//! beats a suffix rule; among suffix rules the longest suffix wins (the
//! first listed among equally long ones); an unknown host is blocked.

use vstd::prelude::*;
use vstd::utf8::*;
use crate::text::{bytes_end_with, str_eq, str_ends_with};

verus! {

/// One allowlist rule: which hosts it covers and which methods it permits
/// (all methods when the list is empty).
#[derive(Debug, Clone)]
pub struct HostRule {
    /// The host pattern.
    pub match_: HostMatch,
    /// Permitted methods, compared ignoring ASCII case.
    pub allow_methods: Vec<String>,
}

/// A host pattern.
#[derive(Debug, Clone)]
pub enum HostMatch {
    /// The host must equal this text.
    Exact(String),
    /// The host must end with this text.
    Suffix(String),
}

/// The proxy's host allowlist.
#[derive(Debug, Clone)]
pub struct Allowlist {
    /// The rules, in priority order for ties.
    pub rules: Vec<HostRule>,
}

/// Rule `i` is an exact rule for `host`.
pub open spec fn exact_at(rules: Seq<HostRule>, host: Seq<char>, i: int) -> bool {
    rules[i].match_ matches HostMatch::Exact(h) && h@ == host
}

/// Rule `i` is a suffix rule whose suffix ends `host` (compared as bytes).
pub open spec fn suffix_at(rules: Seq<HostRule>, host: Seq<char>, i: int) -> bool {
    rules[i].match_ matches HostMatch::Suffix(s) && bytes_end_with(
        encode_utf8(host),
        encode_utf8(s@),
    )
}

/// Byte length of rule `i`'s pattern.
pub open spec fn pattern_len(rules: Seq<HostRule>, i: int) -> nat {
    match rules[i].match_ {
        HostMatch::Exact(h) => encode_utf8(h@).len(),
        HostMatch::Suffix(s) => encode_utf8(s@).len(),
    }
}

/// No exact rule covers `host`.
pub open spec fn no_exact(rules: Seq<HostRule>, host: Seq<char>) -> bool {
    forall|j: int| 0 <= j < rules.len() ==> !#[trigger] exact_at(rules, host, j)
}

/// Rule `i` is the rule that governs `host`: the first exact rule if there
/// is one, else the first of the longest matching suffix rules.
pub open spec fn governs(rules: Seq<HostRule>, host: Seq<char>, i: int) -> bool {
    0 <= i < rules.len() && ({
        ||| exact_at(rules, host, i) && (forall|j: int|
            0 <= j < i ==> !#[trigger] exact_at(rules, host, j))
        ||| no_exact(rules, host) && suffix_at(rules, host, i) && (forall|j: int|
            0 <= j < rules.len() && #[trigger] suffix_at(rules, host, j) ==> pattern_len(rules, j)
                <= pattern_len(rules, i) && (j < i ==> pattern_len(rules, j) < pattern_len(
                rules,
                i,
            )))
    })
}

/// No rule covers `host`.
pub open spec fn uncovered(rules: Seq<HostRule>, host: Seq<char>) -> bool {
    forall|j: int|
        0 <= j < rules.len() ==> !#[trigger] exact_at(rules, host, j) && !suffix_at(
            rules,
            host,
            j,
        )
}

/// ASCII lowercase of a byte.
pub open spec fn ascii_lower(b: u8) -> u8 {
    if 65 <= b <= 90 {
        (b + 32) as u8
    } else {
        b
    }
}

/// Equal ignoring ASCII case.
pub open spec fn ascii_ci_eq(a: Seq<u8>, b: Seq<u8>) -> bool {
    a.len() == b.len() && forall|i: int| 0 <= i < a.len() ==> ascii_lower(#[trigger] a[i])
        == ascii_lower(b[i])
}

/// Rule `r` permits `method`.
pub open spec fn permits(r: HostRule, method: Seq<char>) -> bool {
    r.allow_methods@.len() == 0 || exists|k: int|
        0 <= k < r.allow_methods@.len() && ascii_ci_eq(
            encode_utf8(#[trigger] r.allow_methods@[k]@),
            encode_utf8(method),
        )
}

/// The request `(host, method)` is allowed by `rules`.
pub open spec fn allowed(rules: Seq<HostRule>, host: Seq<char>, method: Seq<char>) -> bool {
    exists|i: int| #[trigger] governs(rules, host, i) && permits(rules[i], method)
}

/// An exact rule for a host beats every suffix rule: when one exists, the
/// governing rule is exact.
pub proof fn lemma_exact_beats_suffix(rules: Seq<HostRule>, host: Seq<char>, k: int, i: int)
    requires
        0 <= k < rules.len(),
        exact_at(rules, host, k),
        governs(rules, host, i),
    ensures
        exact_at(rules, host, i),
{
    assert(!no_exact(rules, host));
}

/// A host no rule covers is refused, whatever the method.
pub proof fn lemma_unknown_host_denied(rules: Seq<HostRule>, host: Seq<char>, method: Seq<char>)
    requires
        uncovered(rules, host),
    ensures
        !allowed(rules, host, method),
{
    if allowed(rules, host, method) {
        let i = choose|i: int| #[trigger] governs(rules, host, i) && permits(rules[i], method);
        assert(!exact_at(rules, host, i) && !suffix_at(rules, host, i));
    }
}

/// The governing rule is unique.
pub proof fn lemma_governs_unique(rules: Seq<HostRule>, host: Seq<char>, i: int, j: int)
    requires
        governs(rules, host, i),
        governs(rules, host, j),
    ensures
        i == j,
{
    if exact_at(rules, host, i) {
        assert(!no_exact(rules, host));
        if i < j {
            assert(!exact_at(rules, host, i));
        } else if j < i {
            assert(!exact_at(rules, host, j));
        }
    } else {
        assert(no_exact(rules, host));
        assert(!exact_at(rules, host, j));
        assert(suffix_at(rules, host, j));
        assert(suffix_at(rules, host, i));
        assert(pattern_len(rules, j) <= pattern_len(rules, i));
        assert(pattern_len(rules, i) <= pattern_len(rules, j));
    }
}

/// ASCII lowercase of a byte.
fn lower(b: u8) -> (r: u8)
    ensures
        r == ascii_lower(b),
{
    if 65 <= b && b <= 90 {
        b + 32
    } else {
        b
    }
}

/// Compare two strings ignoring ASCII case.
pub fn eq_ignore_ascii_case(a: &str, b: &str) -> (r: bool)
    ensures
        r == ascii_ci_eq(encode_utf8(a@), encode_utf8(b@)),
{
    let x = a.as_bytes();
    let y = b.as_bytes();
    assert(x@ == encode_utf8(a@));
    assert(y@ == encode_utf8(b@));
    if x.len() != y.len() {
        return false;
    }
    let mut i: usize = 0;
    while i < x.len()
        invariant
            x@ == encode_utf8(a@),
            y@ == encode_utf8(b@),
            x@.len() == y@.len(),
            i <= x@.len(),
            forall|k: int| 0 <= k < i ==> ascii_lower(#[trigger] x@[k]) == ascii_lower(y@[k]),
        decreases x.len() - i,
    {
        if lower(x[i]) != lower(y[i]) {
            assert(ascii_lower(x@[i as int]) != ascii_lower(y@[i as int]));
            return false;
        }
        i = i + 1;
    }
    true
}

impl Allowlist {
    /// The index of the rule governing `host`, if any.
    pub fn match_index(&self, host: &str) -> (r: Option<usize>)
        ensures
            match r {
                Some(i) => governs(self.rules@, host@, i as int),
                None => uncovered(self.rules@, host@),
            },
    {
        let ghost rules = self.rules@;
        let mut i: usize = 0;
        while i < self.rules.len()
            invariant
                rules == self.rules@,
                i <= rules.len(),
                forall|j: int| 0 <= j < i ==> !#[trigger] exact_at(rules, host@, j),
            decreases self.rules.len() - i,
        {
            match &self.rules[i].match_ {
                HostMatch::Exact(h) => {
                    if str_eq(h.as_str(), host) {
                        return Some(i);
                    }
                },
                HostMatch::Suffix(_) => {},
            }
            i = i + 1;
        }
        let mut best: Option<usize> = None;
        let mut best_len: usize = 0;
        let mut k: usize = 0;
        while k < self.rules.len()
            invariant
                rules == self.rules@,
                no_exact(rules, host@),
                k <= rules.len(),
                match best {
                    Some(b) => b < k && suffix_at(rules, host@, b as int) && best_len
                        == pattern_len(rules, b as int) && (forall|j: int|
                        0 <= j < k && #[trigger] suffix_at(rules, host@, j) ==> pattern_len(
                            rules,
                            j,
                        ) <= best_len && (j < b ==> pattern_len(rules, j) < best_len)),
                    None => forall|j: int| 0 <= j < k ==> !#[trigger] suffix_at(rules, host@, j),
                },
            decreases self.rules.len() - k,
        {
            match &self.rules[k].match_ {
                HostMatch::Suffix(s) => {
                    if str_ends_with(host, s.as_str()) {
                        let ss = s.as_str();
                        let len = ss.as_bytes().len();
                        assert(ss@ == s@);
                        assert(len == encode_utf8(s@).len());
                        assert(suffix_at(rules, host@, k as int));
                        assert(len == pattern_len(rules, k as int));
                        let better = match best {
                            None => true,
                            Some(_) => len > best_len,
                        };
                        if better {
                            best = Some(k);
                            best_len = len;
                        }
                    }
                },
                HostMatch::Exact(_) => {},
            }
            k = k + 1;
        }
        best
    }

    /// The rule governing `host`: the first exact rule if any, else the
    /// first of the longest matching suffix rules.
    pub fn match_rule(&self, host: &str) -> (r: Option<&HostRule>)
        ensures
            match r {
                Some(x) => exists|i: int| governs(self.rules@, host@, i) && *x == self.rules@[i],
                None => uncovered(self.rules@, host@),
            },
    {
        match self.match_index(host) {
            Some(i) => Some(&self.rules[i]),
            None => None,
        }
    }

    /// Is `method` on `host` allowed? The governing rule must exist and
    /// either permit all methods or list `method` (ignoring ASCII case).
    pub fn is_allowed(&self, host: &str, method: &str) -> (r: bool)
        ensures
            r == allowed(self.rules@, host@, method@),
    {
        match self.match_index(host) {
            None => {
                assert forall|i: int| !governs(self.rules@, host@, i) by {
                    if 0 <= i < self.rules@.len() {
                        assert(!exact_at(self.rules@, host@, i));
                        assert(!suffix_at(self.rules@, host@, i));
                    }
                }
                false
            },
            Some(i) => {
                proof {
                    assert forall|j: int| #[trigger]
                        governs(self.rules@, host@, j) implies j == i as int by {
                        lemma_governs_unique(self.rules@, host@, i as int, j);
                    }
                }
                let rule = &self.rules[i];
                assert(*rule == self.rules@[i as int]);
                if rule.allow_methods.len() == 0 {
                    assert(permits(self.rules@[i as int], method@));
                    assert(governs(self.rules@, host@, i as int));
                    return true;
                }
                let mut k: usize = 0;
                while k < rule.allow_methods.len()
                    invariant
                        *rule == self.rules@[i as int],
                        governs(self.rules@, host@, i as int),
                        k <= rule.allow_methods@.len(),
                        forall|j: int|
                            0 <= j < k ==> !ascii_ci_eq(
                                encode_utf8(#[trigger] rule.allow_methods@[j]@),
                                encode_utf8(method@),
                            ),
                    decreases rule.allow_methods.len() - k,
                {
                    if eq_ignore_ascii_case(rule.allow_methods[k].as_str(), method) {
                        assert(permits(self.rules@[i as int], method@));
                        assert(governs(self.rules@, host@, i as int));
                        return true;
                    }
                    k = k + 1;
                }
                false
            },
        }
    }
}

} // verus!
