//! The parsed secrets file and the validated snapshot the rewriter reads.
//!
//! The `[real]` table maps secret names to values; it is held as a vector of
//! `(name, value)` pairs whose names are distinct and strictly ascending
//! (`names_ordered`), the order in which the file's table is read, so a
//! lookup finds the one pair with the name asked for.

use vstd::prelude::*;
use crate::proto::error::{QwanCode, QwanError, QwanResult, is_error, invalid_arg};
use crate::text::{owned, push_str, str_eq};

verus! {

/// A real secret value.
#[derive(Debug, Clone)]
pub struct RealSecret(pub String);

impl RealSecret {
    /// The secret's text.
    pub fn as_str(&self) -> (r: &str)
        ensures
            r@ == self.0@,
    {
        self.0.as_str()
    }
}

/// One row of the search-and-replace table: a unique dummy string and the
/// name of the real secret it stands for.
#[derive(Debug, Clone)]
pub struct RewriteEntry {
    /// The dummy string the guest carries.
    pub search: String,
    /// Name of a `[real]` entry to substitute.
    pub replace: String,
}

/// The secrets file as parsed, before validation.
#[derive(Debug, Clone)]
pub struct SecretsFile {
    /// `name = "value"` real secrets, each name once, in ascending order.
    pub real: Vec<(String, String)>,
    /// The dummy-to-secret table.
    pub rewrite: Vec<RewriteEntry>,
}

/// A validated snapshot of the secrets file.
#[derive(Debug, Clone)]
pub struct SecretSnapshot {
    /// `name = "value"` real secrets, each name once, in ascending order.
    pub real: Vec<(String, String)>,
    /// The dummy-to-secret table.
    pub rewrite: Vec<RewriteEntry>,
}

/// Strict order of secret names: code point by code point, a proper prefix
/// first (the order of `String`, since UTF-8 keeps code point order).
pub open spec fn name_lt(a: Seq<char>, b: Seq<char>) -> bool
    decreases a.len(),
{
    if a.len() == 0 {
        b.len() > 0
    } else if b.len() == 0 {
        false
    } else if a[0] != b[0] {
        (a[0] as u32) < (b[0] as u32)
    } else {
        name_lt(a.drop_first(), b.drop_first())
    }
}

/// The real secrets form a map: every name occurs once, and the names
/// ascend.
pub open spec fn names_ordered(secrets: Seq<(String, String)>) -> bool {
    forall|i: int, j: int|
        0 <= i < j < secrets.len() ==> #[trigger] secrets[i].0@ != #[trigger] secrets[j].0@
            && name_lt(secrets[i].0@, secrets[j].0@)
}

/// The value of the first real secret named `name`, if any.
pub open spec fn lookup(secrets: Seq<(String, String)>, name: Seq<char>) -> Option<Seq<char>>
    decreases secrets.len(),
{
    if secrets.len() == 0 {
        None
    } else if secrets[0].0@ == name {
        Some(secrets[0].1@)
    } else {
        lookup(secrets.drop_first(), name)
    }
}

/// When the real secrets form a map, looking up a stored name gives that
/// name's own value, as a map lookup does.
pub proof fn lemma_lookup_finds_stored(secrets: Seq<(String, String)>, i: int)
    requires
        names_ordered(secrets),
        0 <= i < secrets.len(),
    ensures
        lookup(secrets, secrets[i].0@) == Some(secrets[i].1@),
    decreases i,
{
    if i > 0 {
        let rest = secrets.drop_first();
        assert(secrets[0].0@ != secrets[i].0@);
        assert forall|a: int, b: int| 0 <= a < b < rest.len() implies #[trigger] rest[a].0@
            != #[trigger] rest[b].0@ && name_lt(rest[a].0@, rest[b].0@) by {
            assert(rest[a] == secrets[a + 1] && rest[b] == secrets[b + 1]);
        }
        assert(rest[i - 1] == secrets[i]);
        lemma_lookup_finds_stored(rest, i - 1);
    }
}

/// Is some real secret named `name`?
pub open spec fn has_name(secrets: Seq<(String, String)>, name: Seq<char>) -> bool {
    exists|i: int| 0 <= i < secrets.len() && #[trigger] secrets[i].0@ == name
}

/// Entry `k` names a real secret that does not exist.
pub open spec fn unresolved(secrets: Seq<(String, String)>, rw: Seq<RewriteEntry>, k: int) -> bool {
    !has_name(secrets, rw[k].replace@)
}

/// Entry `k` repeats the dummy string of an earlier entry.
pub open spec fn duplicate(rw: Seq<RewriteEntry>, k: int) -> bool {
    exists|j: int| 0 <= j < k && #[trigger] rw[j].search@ == rw[k].search@
}

/// Entry `k` is rejected by validation.
pub open spec fn rejected(secrets: Seq<(String, String)>, rw: Seq<RewriteEntry>, k: int) -> bool {
    unresolved(secrets, rw, k) || duplicate(rw, k)
}

/// Every replace resolves to a real secret and every dummy is unique.
pub open spec fn valid_table(secrets: Seq<(String, String)>, rw: Seq<RewriteEntry>) -> bool {
    forall|k: int| 0 <= k < rw.len() ==> !#[trigger] rejected(secrets, rw, k)
}

/// The message validation reports for a rejected entry `k`.
pub open spec fn rejection_message(
    secrets: Seq<(String, String)>,
    rw: Seq<RewriteEntry>,
    k: int,
) -> Seq<char> {
    if unresolved(secrets, rw, k) {
        "rewrite '"@ + rw[k].search@ + "' -> unknown real secret '"@ + rw[k].replace@ + "'"@
    } else {
        "duplicate dummy search string: '"@ + rw[k].search@ + "'"@
    }
}

/// The index of the real secret named `name`, searching from the front.
pub fn find_real(secrets: &Vec<(String, String)>, name: &str) -> (r: Option<usize>)
    ensures
        match r {
            Some(i) => i < secrets@.len() && lookup(secrets@, name@) == Some(secrets@[i as int].1@)
                && secrets@[i as int].0@ == name@,
            None => lookup(secrets@, name@) is None && !has_name(secrets@, name@),
        },
{
    let mut i: usize = 0;
    assert(secrets@.skip(0) =~= secrets@);
    while i < secrets.len()
        invariant
            i <= secrets@.len(),
            lookup(secrets@, name@) == lookup(secrets@.skip(i as int), name@),
            forall|j: int| 0 <= j < i ==> secrets@[j].0@ != name@,
        decreases secrets.len() - i,
    {
        assert(secrets@.skip(i as int)[0] == secrets@[i as int]);
        if str_eq(secrets[i].0.as_str(), name) {
            return Some(i);
        }
        assert(secrets@.skip(i as int).drop_first() =~= secrets@.skip(i + 1));
        i = i + 1;
    }
    assert(secrets@.skip(i as int).len() == 0);
    None
}

/// Builds the rejection error for entry `k`.
fn rejection(e: &RewriteEntry, unresolved_name: bool) -> (r: QwanError)
    ensures
        unresolved_name ==> is_error(
            r,
            QwanCode::InvalidArg,
            "rewrite '"@ + e.search@ + "' -> unknown real secret '"@ + e.replace@ + "'"@,
        ),
        !unresolved_name ==> is_error(
            r,
            QwanCode::InvalidArg,
            "duplicate dummy search string: '"@ + e.search@ + "'"@,
        ),
{
    if unresolved_name {
        let mut m = owned("rewrite '");
        push_str(&mut m, e.search.as_str());
        push_str(&mut m, "' -> unknown real secret '");
        push_str(&mut m, e.replace.as_str());
        push_str(&mut m, "'");
        invalid_arg(m.as_str())
    } else {
        let mut m = owned("duplicate dummy search string: '");
        push_str(&mut m, e.search.as_str());
        push_str(&mut m, "'");
        invalid_arg(m.as_str())
    }
}

impl SecretSnapshot {
    /// Well-formedness: the real secrets form a map and the table validates
    /// against them.
    pub open spec fn wf(&self) -> bool {
        names_ordered(self.real@) && valid_table(self.real@, self.rewrite@)
    }

    /// Validate a parsed file and take it as the snapshot: every replace
    /// must resolve to a real secret and every dummy must be unique. The
    /// first offending entry (in table order) is reported.
    pub fn from_file(file: SecretsFile) -> (r: QwanResult<Self>)
        requires
            names_ordered(file.real@),
        ensures
            r is Ok <==> valid_table(file.real@, file.rewrite@),
            r matches Ok(s) ==> s.real@ == file.real@ && s.rewrite@ == file.rewrite@ && s.wf(),
            r matches Err(e) ==> exists|k: int|
                0 <= k < file.rewrite@.len() && rejected(file.real@, file.rewrite@, k) && (forall|
                    j: int,
                | 0 <= j < k ==> !#[trigger] rejected(file.real@, file.rewrite@, j)) && is_error(
                    e,
                    QwanCode::InvalidArg,
                    rejection_message(file.real@, file.rewrite@, k),
                ),
    {
        let ghost secrets = file.real@;
        let ghost rw = file.rewrite@;
        let mut k: usize = 0;
        while k < file.rewrite.len()
            invariant
                secrets == file.real@,
                rw == file.rewrite@,
                k <= rw.len(),
                forall|j: int| 0 <= j < k ==> !#[trigger] rejected(secrets, rw, j),
            decreases file.rewrite.len() - k,
        {
            let e = &file.rewrite[k];
            let found = find_real(&file.real, e.replace.as_str());
            if found.is_none() {
                let err = rejection(e, true);
                assert(unresolved(secrets, rw, k as int));
                assert(rejected(secrets, rw, k as int));
                assert(rejection_message(secrets, rw, k as int) == "rewrite '"@ + e.search@
                    + "' -> unknown real secret '"@ + e.replace@ + "'"@);
                return Err(err);
            }
            let ghost fi = found.unwrap() as int;
            assert(secrets[fi].0@ == rw[k as int].replace@);
            assert(!unresolved(secrets, rw, k as int));
            let mut j: usize = 0;
            while j < k
                invariant
                    rw == file.rewrite@,
                    k < rw.len(),
                    j <= k,
                    e == rw[k as int],
                    secrets == file.real@,
                    !unresolved(secrets, rw, k as int),
                    forall|i: int| 0 <= i < k ==> !#[trigger] rejected(secrets, rw, i),
                    forall|i: int| 0 <= i < j ==> rw[i].search@ != rw[k as int].search@,
                decreases k - j,
            {
                if str_eq(file.rewrite[j].search.as_str(), e.search.as_str()) {
                    let err = rejection(e, false);
                    assert(rw[j as int].search@ == rw[k as int].search@);
                    assert(duplicate(rw, k as int));
                    assert(rejected(secrets, rw, k as int));
                    assert(rejection_message(secrets, rw, k as int) ==
                        "duplicate dummy search string: '"@ + e.search@ + "'"@);
                    return Err(err);
                }
                j = j + 1;
            }
            assert(!rejected(secrets, rw, k as int));
            k = k + 1;
        }
        Ok(SecretSnapshot { real: file.real, rewrite: file.rewrite })
    }

    /// The current value of a named real secret.
    pub fn secret(&self, name: &str) -> (r: Option<RealSecret>)
        ensures
            match r {
                Some(s) => lookup(self.real@, name@) == Some(s.0@),
                None => lookup(self.real@, name@) is None,
            },
    {
        match find_real(&self.real, name) {
            Some(i) => Some(RealSecret(self.real[i].1.clone())),
            None => None,
        }
    }

    /// Re-check that every replace names an existing real secret; the first
    /// entry that does not is reported.
    pub fn validate(&self) -> (r: QwanResult<()>)
        ensures
            r is Ok <==> forall|k: int|
                0 <= k < self.rewrite@.len() ==> !#[trigger] unresolved(
                    self.real@,
                    self.rewrite@,
                    k,
                ),
            r matches Err(e) ==> exists|k: int|
                0 <= k < self.rewrite@.len() && unresolved(self.real@, self.rewrite@, k) && (forall|
                    j: int,
                | 0 <= j < k ==> !#[trigger] unresolved(self.real@, self.rewrite@, j)) && is_error(
                    e,
                    QwanCode::InvalidArg,
                    "rewrite '"@ + self.rewrite@[k].search@ + "' -> unknown real secret '"@
                        + self.rewrite@[k].replace@ + "'"@,
                ),
    {
        let mut k: usize = 0;
        while k < self.rewrite.len()
            invariant
                k <= self.rewrite@.len(),
                forall|j: int| 0 <= j < k ==> !#[trigger] unresolved(self.real@, self.rewrite@, j),
            decreases self.rewrite.len() - k,
        {
            let e = &self.rewrite[k];
            if find_real(&self.real, e.replace.as_str()).is_none() {
                assert(unresolved(self.real@, self.rewrite@, k as int));
                return Err(rejection(e, true));
            }
            k = k + 1;
        }
        Ok(())
    }
}

} // verus!
