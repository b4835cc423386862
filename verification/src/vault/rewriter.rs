//! The search-and-replace engine. Scans bytes for known dummy strings and
//! swaps each for its real secret. Only exact dummy-byte matches are
//! replaced; everything else passes through verbatim.

use vstd::prelude::*;
use vstd::utf8::*;
use crate::text::{occurs_at, bytes_occur_at, push_bytes};
use crate::vault::snapshot::{SecretSnapshot, RewriteEntry, lookup, find_real};

verus! {

/// Result of rewriting a byte buffer.
#[derive(Debug, Clone)]
pub struct RewriteResult {
    /// The rewritten bytes.
    pub bytes: Vec<u8>,
    /// Which dummies (by index into the table) were matched, in order.
    pub matched: Vec<usize>,
}

/// Result of rewriting the three scanned parts of a request.
#[derive(Debug, Clone)]
pub struct RequestRewrite {
    /// The rewritten header bytes.
    pub headers: Vec<u8>,
    /// The rewritten URL bytes.
    pub url: Vec<u8>,
    /// The rewritten body bytes.
    pub body: Vec<u8>,
    /// Matched table indices: those of the headers, then the URL, then the body.
    pub matched: Vec<usize>,
}

/// The pure rewriter over a snapshot.
pub struct Rewriter<'a> {
    snap: &'a SecretSnapshot,
}

/// The bytes of an entry's dummy string.
pub open spec fn needle(e: RewriteEntry) -> Seq<u8> {
    encode_utf8(e.search@)
}

/// No dummy string is empty (the scan makes no progress on an empty one).
pub open spec fn dummies_nonempty(rw: Seq<RewriteEntry>) -> bool {
    forall|k: int| 0 <= k < rw.len() ==> #[trigger] needle(rw[k]).len() > 0
}

/// `s` begins with `n`.
pub open spec fn starts_with(s: Seq<u8>, n: Seq<u8>) -> bool {
    occurs_at(s, n, 0)
}

/// The first table index at or after `k` whose dummy `s` begins with.
pub open spec fn first_match_from(rw: Seq<RewriteEntry>, s: Seq<u8>, k: int) -> Option<int>
    decreases rw.len() - k,
{
    if k < 0 || k >= rw.len() {
        None
    } else if starts_with(s, needle(rw[k])) {
        Some(k)
    } else {
        first_match_from(rw, s, k + 1)
    }
}

/// The first table entry whose dummy `s` begins with.
pub open spec fn first_match(rw: Seq<RewriteEntry>, s: Seq<u8>) -> Option<int> {
    first_match_from(rw, s, 0)
}

/// The bytes substituted for entry `idx`: the named real secret, or nothing
/// when the name does not resolve.
pub open spec fn replacement(
    secrets: Seq<(String, String)>,
    rw: Seq<RewriteEntry>,
    idx: int,
) -> Seq<u8> {
    match lookup(secrets, rw[idx].replace@) {
        Some(v) => encode_utf8(v),
        None => Seq::empty(),
    }
}

/// A found match lies in the table and its dummy begins `s`.
pub proof fn lemma_first_match_from(rw: Seq<RewriteEntry>, s: Seq<u8>, k: int)
    requires
        0 <= k,
    ensures
        first_match_from(rw, s, k) matches Some(i) ==> k <= i < rw.len() && starts_with(
            s,
            needle(rw[i]),
        ),
        first_match_from(rw, s, k) is None ==> forall|j: int|
            k <= j < rw.len() ==> !starts_with(s, #[trigger] needle(rw[j])),
    decreases rw.len() - k,
{
    if k < 0 || k >= rw.len() {
    } else if starts_with(s, needle(rw[k])) {
    } else {
        lemma_first_match_from(rw, s, k + 1);
    }
}

/// The front-to-back scan of `s` ends: at no position it reaches is the
/// first matching dummy empty (an empty dummy matches without moving on).
pub open spec fn scan_halts(rw: Seq<RewriteEntry>, s: Seq<u8>) -> bool
    decreases s.len(),
{
    if s.len() == 0 {
        true
    } else {
        match first_match(rw, s) {
            Some(idx) => {
                proof {
                    lemma_first_match_from(rw, s, 0);
                }
                needle(rw[idx]).len() > 0 && scan_halts(rw, s.skip(needle(rw[idx]).len() as int))
            },
            None => scan_halts(rw, s.skip(1)),
        }
    }
}

/// With no empty dummy in the table, every scan ends.
pub proof fn lemma_nonempty_dummies_halt(rw: Seq<RewriteEntry>, s: Seq<u8>)
    requires
        dummies_nonempty(rw),
    ensures
        scan_halts(rw, s),
    decreases s.len(),
{
    if s.len() > 0 {
        lemma_first_match_from(rw, s, 0);
        match first_match(rw, s) {
            Some(idx) => {
                assert(needle(rw[idx]).len() > 0);
                lemma_nonempty_dummies_halt(rw, s.skip(needle(rw[idx]).len() as int));
            },
            None => {
                lemma_nonempty_dummies_halt(rw, s.skip(1));
            },
        }
    }
}

/// The rewriting of `s`: scanning from the front, at each position the first
/// table entry whose dummy begins there is replaced by its real secret and
/// recorded; a byte where no dummy begins is kept.
pub open spec fn rewritten(secrets: Seq<(String, String)>, rw: Seq<RewriteEntry>, s: Seq<u8>) -> (
    Seq<u8>,
    Seq<usize>,
)
    decreases s.len(),
    when scan_halts(rw, s)
{
    if s.len() == 0 {
        (Seq::empty(), Seq::empty())
    } else {
        match first_match(rw, s) {
            Some(idx) => {
                proof {
                    lemma_first_match_from(rw, s, 0);
                }
                let rest = rewritten(secrets, rw, s.skip(needle(rw[idx]).len() as int));
                (replacement(secrets, rw, idx) + rest.0, seq![idx as usize] + rest.1)
            },
            None => {
                let rest = rewritten(secrets, rw, s.skip(1));
                (seq![s[0]] + rest.0, rest.1)
            },
        }
    }
}

/// Some dummy of the table occurs somewhere in `s`.
pub open spec fn contains_dummy(rw: Seq<RewriteEntry>, s: Seq<u8>) -> bool {
    exists|i: int, k: int|
        0 <= i < s.len() && 0 <= k < rw.len() && #[trigger] occurs_at(s, needle(rw[k]), i)
}

proof fn lemma_occurs_skip(s: Seq<u8>, n: Seq<u8>, i: int, j: int)
    requires
        0 <= i <= s.len(),
        0 <= j,
    ensures
        occurs_at(s.skip(i), n, j) == occurs_at(s, n, i + j),
{
    if occurs_at(s.skip(i), n, j) {
        assert(s.skip(i).subrange(j, j + n.len()) =~= s.subrange(i + j, i + j + n.len()));
    }
    if occurs_at(s, n, i + j) {
        assert(s.skip(i).subrange(j, j + n.len()) =~= s.subrange(i + j, i + j + n.len()));
    }
}

/// With no dummy anywhere in the input, rewriting passes it through
/// unchanged and records no match.
pub proof fn lemma_no_dummy_passthrough(
    secrets: Seq<(String, String)>,
    rw: Seq<RewriteEntry>,
    s: Seq<u8>,
)
    requires
        !contains_dummy(rw, s),
    ensures
        scan_halts(rw, s),
        rewritten(secrets, rw, s) == (s, Seq::<usize>::empty()),
    decreases s.len(),
{
    if s.len() > 0 {
        lemma_first_match_from(rw, s, 0);
        if first_match(rw, s) is Some {
            let idx = first_match(rw, s).unwrap();
            assert(occurs_at(s, needle(rw[idx]), 0));
        }
        assert forall|i: int, k: int|
            0 <= i < s.skip(1).len() && 0 <= k < rw.len() implies !#[trigger] occurs_at(
            s.skip(1),
            needle(rw[k]),
            i,
        ) by {
            lemma_occurs_skip(s, needle(rw[k]), 1, i);
            if occurs_at(s.skip(1), needle(rw[k]), i) {
                assert(occurs_at(s, needle(rw[k]), 1 + i));
            }
        }
        lemma_no_dummy_passthrough(secrets, rw, s.skip(1));
        assert(seq![s[0]] + s.skip(1) =~= s);
    }
}

/// Rewriting records a match exactly when some dummy occurs in the input.
pub proof fn lemma_matched_iff_dummy(
    secrets: Seq<(String, String)>,
    rw: Seq<RewriteEntry>,
    s: Seq<u8>,
)
    requires
        scan_halts(rw, s),
    ensures
        rewritten(secrets, rw, s).1.len() > 0 <==> contains_dummy(rw, s),
    decreases s.len(),
{
    if !contains_dummy(rw, s) {
        lemma_no_dummy_passthrough(secrets, rw, s);
    } else if s.len() > 0 {
        lemma_first_match_from(rw, s, 0);
        if first_match(rw, s) is None {
            let (i, k) = choose|i: int, k: int|
                0 <= i < s.len() && 0 <= k < rw.len() && #[trigger] occurs_at(
                    s,
                    needle(rw[k]),
                    i,
                );
            if i == 0 {
                assert(starts_with(s, needle(rw[k])));
            } else {
                lemma_occurs_skip(s, needle(rw[k]), 1, i - 1);
                assert(occurs_at(s.skip(1), needle(rw[k]), i - 1));
                lemma_matched_iff_dummy(secrets, rw, s.skip(1));
            }
        }
    }
}

impl<'a> Rewriter<'a> {
    /// A rewriter over `snap`.
    pub fn new(snap: &'a SecretSnapshot) -> (r: Self)
        ensures
            r.snapshot() == *snap,
    {
        Rewriter { snap }
    }

    /// The snapshot this rewriter reads.
    pub closed spec fn snapshot(&self) -> SecretSnapshot {
        *self.snap
    }

    /// The first table entry whose dummy occurs in `input` at `i`.
    fn find_match(&self, input: &[u8], i: usize) -> (r: Option<usize>)
        requires
            i <= input@.len(),
        ensures
            match r {
                Some(k) => first_match(self.snap.rewrite@, input@.skip(i as int)) == Some(k as int),
                None => first_match(self.snap.rewrite@, input@.skip(i as int)) is None,
            },
    {
        let ghost rw = self.snap.rewrite@;
        let ghost s = input@.skip(i as int);
        let mut k: usize = 0;
        while k < self.snap.rewrite.len()
            invariant
                rw == self.snap.rewrite@,
                s == input@.skip(i as int),
                i <= input@.len(),
                k <= rw.len(),
                first_match_from(rw, s, 0) == first_match_from(rw, s, k as int),
            decreases self.snap.rewrite.len() - k,
        {
            let n = self.snap.rewrite[k].search.as_str().as_bytes();
            proof {
                lemma_occurs_skip(input@, n@, i as int, 0);
            }
            if bytes_occur_at(input, n, i) {
                return Some(k);
            }
            k = k + 1;
        }
        None
    }

    /// Scan `input` for any known dummy and replace each with its real
    /// secret. Returns the rewritten bytes and which table entries matched.
    pub fn rewrite(&self, input: &[u8]) -> (r: RewriteResult)
        requires
            scan_halts(self.snapshot().rewrite@, input@),
        ensures
            (r.bytes@, r.matched@) == rewritten(
                self.snapshot().real@,
                self.snapshot().rewrite@,
                input@,
            ),
    {
        let ghost secrets = self.snap.real@;
        let ghost rw = self.snap.rewrite@;
        let mut out: Vec<u8> = Vec::new();
        let mut matched: Vec<usize> = Vec::new();
        let mut i: usize = 0;
        assert(input@.skip(0) =~= input@);
        while i < input.len()
            invariant
                secrets == self.snap.real@,
                rw == self.snap.rewrite@,
                scan_halts(rw, input@.skip(i as int)),
                i <= input@.len(),
                rewritten(secrets, rw, input@).0 == out@ + rewritten(
                    secrets,
                    rw,
                    input@.skip(i as int),
                ).0,
                rewritten(secrets, rw, input@).1 == matched@ + rewritten(
                    secrets,
                    rw,
                    input@.skip(i as int),
                ).1,
            decreases input.len() - i,
        {
            let ghost s = input@.skip(i as int);
            let found = self.find_match(input, i);
            proof {
                lemma_first_match_from(rw, s, 0);
            }
            match found {
                Some(idx) => {
                    let e = &self.snap.rewrite[idx];
                    let nb = e.search.as_str().as_bytes();
                    let nlen = nb.len();
                    assert(first_match(rw, s) == Some(idx as int));
                    assert(nb@ == needle(rw[idx as int]));
                    assert(starts_with(s, needle(rw[idx as int])));
                    assert(nlen <= s.len());
                    assert(nlen > 0 && scan_halts(rw, s.skip(nlen as int)));
                    let ghost before = out@;
                    match find_real(&self.snap.real, e.replace.as_str()) {
                        Some(ri) => {
                            push_bytes(&mut out, self.snap.real[ri].1.as_str().as_bytes());
                        },
                        None => {},
                    }
                    assert(out@ == before + replacement(secrets, rw, idx as int));
                    let ghost mbefore = matched@;
                    matched.push(idx);
                    assert(s.skip(nlen as int) =~= input@.skip(i + nlen));
                    assert(matched@ =~= mbefore + seq![idx]);
                    assert(out@ + rewritten(secrets, rw, input@.skip(i + nlen)).0 =~= before + (
                    replacement(secrets, rw, idx as int) + rewritten(
                        secrets,
                        rw,
                        s.skip(nlen as int),
                    ).0));
                    assert(matched@ + rewritten(secrets, rw, input@.skip(i + nlen)).1 =~= mbefore
                        + (seq![idx] + rewritten(secrets, rw, s.skip(nlen as int)).1));
                    i = i + nlen;
                },
                None => {
                    let ghost before = out@;
                    out.push(input[i]);
                    assert(s.skip(1) =~= input@.skip(i + 1));
                    assert(scan_halts(rw, s.skip(1)));
                    assert(s[0] == input@[i as int]);
                    assert(out@ + rewritten(secrets, rw, input@.skip(i + 1)).0 =~= before + (seq![
                        s[0],
                    ] + rewritten(secrets, rw, s.skip(1)).0));
                    i = i + 1;
                },
            }
        }
        assert(input@.skip(i as int).len() == 0);
        assert(out@ =~= out@ + Seq::<u8>::empty());
        assert(matched@ =~= matched@ + Seq::<usize>::empty());
        RewriteResult { bytes: out, matched }
    }

    /// Does the rewriting scan of `input` end (see `scan_halts`)? It does
    /// not when it reaches a position whose first matching dummy is empty.
    pub fn scan_terminates(&self, input: &[u8]) -> (r: bool)
        ensures
            r == scan_halts(self.snapshot().rewrite@, input@),
    {
        let ghost rw = self.snap.rewrite@;
        let mut i: usize = 0;
        assert(input@.skip(0) =~= input@);
        while i < input.len()
            invariant
                rw == self.snap.rewrite@,
                i <= input@.len(),
                scan_halts(rw, input@) == scan_halts(rw, input@.skip(i as int)),
            decreases input.len() - i,
        {
            let ghost s = input@.skip(i as int);
            let found = self.find_match(input, i);
            proof {
                lemma_first_match_from(rw, s, 0);
            }
            match found {
                Some(idx) => {
                    let nlen = self.snap.rewrite[idx].search.as_str().as_bytes().len();
                    assert(starts_with(s, needle(rw[idx as int])));
                    if nlen == 0 {
                        return false;
                    }
                    assert(s.skip(nlen as int) =~= input@.skip(i + nlen));
                    i = i + nlen;
                },
                None => {
                    assert(s.skip(1) =~= input@.skip(i + 1));
                    i = i + 1;
                },
            }
        }
        true
    }

    /// Rewrite the three scanned parts of a request (headers, URL, body);
    /// the matches are those of the headers, then the URL, then the body.
    pub fn rewrite_request(&self, headers: &[u8], url: &[u8], body: &[u8]) -> (r: RequestRewrite)
        requires
            scan_halts(self.snapshot().rewrite@, headers@),
            scan_halts(self.snapshot().rewrite@, url@),
            scan_halts(self.snapshot().rewrite@, body@),
        ensures
            r.headers@ == rewritten(self.snapshot().real@, self.snapshot().rewrite@, headers@).0,
            r.url@ == rewritten(self.snapshot().real@, self.snapshot().rewrite@, url@).0,
            r.body@ == rewritten(self.snapshot().real@, self.snapshot().rewrite@, body@).0,
            r.matched@ == rewritten(self.snapshot().real@, self.snapshot().rewrite@, headers@).1
                + rewritten(self.snapshot().real@, self.snapshot().rewrite@, url@).1 + rewritten(
                self.snapshot().real@,
                self.snapshot().rewrite@,
                body@,
            ).1,
    {
        let h = self.rewrite(headers);
        let u = self.rewrite(url);
        let b = self.rewrite(body);
        let mut matched = h.matched;
        let mut um = u.matched;
        let mut bm = b.matched;
        matched.append(&mut um);
        matched.append(&mut bm);
        RequestRewrite { headers: h.bytes, url: u.bytes, body: b.bytes, matched }
    }

    /// Does any known dummy occur anywhere in `input`?
    pub fn contains_any_dummy(&self, input: &[u8]) -> (r: bool)
        ensures
            r == contains_dummy(self.snapshot().rewrite@, input@),
    {
        let ghost rw = self.snap.rewrite@;
        let mut i: usize = 0;
        while i < input.len()
            invariant
                rw == self.snap.rewrite@,
                i <= input@.len(),
                forall|p: int, k: int|
                    0 <= p < i && 0 <= k < rw.len() ==> !#[trigger] occurs_at(
                        input@,
                        needle(rw[k]),
                        p,
                    ),
            decreases input.len() - i,
        {
            let mut k: usize = 0;
            while k < self.snap.rewrite.len()
                invariant
                    rw == self.snap.rewrite@,
                    i < input@.len(),
                    k <= rw.len(),
                    forall|j: int| 0 <= j < k ==> !#[trigger] occurs_at(input@, needle(rw[j]), i as int),
                decreases self.snap.rewrite.len() - k,
            {
                if bytes_occur_at(input, self.snap.rewrite[k].search.as_str().as_bytes(), i) {
                    assert(occurs_at(input@, needle(rw[k as int]), i as int));
                    return true;
                }
                k = k + 1;
            }
            i = i + 1;
        }
        false
    }
}

} // verus!
