//! Typed identifiers. Each newtype wraps a string so that ids of different
//! kinds cannot be mixed up; all of them carry the string verbatim.

use vstd::prelude::*;
use crate::text::{owned, push_hex_padded, push_str, zero_pad, hex};

verus! {

/// Identifier of a submitted job.
#[derive(Debug, Clone, PartialEq, Eq, Hash)]
pub struct JobId(pub String);

impl JobId {
    /// A generated id `job_<suffix>`, the suffix made from the clock reading
    /// `t` and the counter value `n` (see `suffix_text`).
    pub fn fresh(t: u64, n: u64) -> (r: Self)
        ensures
            r.0@ == "job_"@ + suffix_text(t, n),
    {
        let mut text = owned("job_");
        let suffix = short_random_suffix(t, n);
        push_str(&mut text, suffix.as_str());
        proof {
            reveal_strlit("job_");
        }
        JobId(text)
    }

    /// The id whose text is `s`.
    pub fn from_str_inner(s: &str) -> (r: Self)
        ensures
            r.0@ == s@,
    {
        JobId(owned(s))
    }

    /// A copy of this id.
    pub fn duplicate(&self) -> (r: Self)
        ensures
            r == *self,
    {
        Self(self.0.clone())
    }

    /// The id's text.
    pub fn as_str(&self) -> (r: &str)
        ensures
            r@ == self.0@,
    {
        self.0.as_str()
    }
}

/// Identifier of a case (one VM run of a job).
#[derive(Debug, Clone, PartialEq, Eq, Hash)]
pub struct CaseId(pub String);

impl CaseId {
    /// A generated id `case_<suffix>`, the suffix made from the clock reading
    /// `t` and the counter value `n` (see `suffix_text`).
    pub fn fresh(t: u64, n: u64) -> (r: Self)
        ensures
            r.0@ == "case_"@ + suffix_text(t, n),
    {
        let mut text = owned("case_");
        let suffix = short_random_suffix(t, n);
        push_str(&mut text, suffix.as_str());
        proof {
            reveal_strlit("case_");
        }
        CaseId(text)
    }

    /// The id whose text is `s`.
    pub fn from_str_inner(s: &str) -> (r: Self)
        ensures
            r.0@ == s@,
    {
        CaseId(owned(s))
    }

    /// A copy of this id.
    pub fn duplicate(&self) -> (r: Self)
        ensures
            r == *self,
    {
        Self(self.0.clone())
    }

    /// The id's text.
    pub fn as_str(&self) -> (r: &str)
        ensures
            r@ == self.0@,
    {
        self.0.as_str()
    }
}

/// Identifier of a breadcrumb on a case timeline.
#[derive(Debug, Clone, PartialEq, Eq, Hash)]
pub struct BreadcrumbId(pub String);

impl BreadcrumbId {
    /// A generated id `bc_<suffix>`, the suffix made from the clock reading
    /// `t` and the counter value `n` (see `suffix_text`).
    pub fn fresh(t: u64, n: u64) -> (r: Self)
        ensures
            r.0@ == "bc_"@ + suffix_text(t, n),
    {
        let mut text = owned("bc_");
        let suffix = short_random_suffix(t, n);
        push_str(&mut text, suffix.as_str());
        proof {
            reveal_strlit("bc_");
        }
        BreadcrumbId(text)
    }

    /// The id whose text is `s`.
    pub fn from_str_inner(s: &str) -> (r: Self)
        ensures
            r.0@ == s@,
    {
        BreadcrumbId(owned(s))
    }

    /// A copy of this id.
    pub fn duplicate(&self) -> (r: Self)
        ensures
            r == *self,
    {
        Self(self.0.clone())
    }

    /// The id's text.
    pub fn as_str(&self) -> (r: &str)
        ensures
            r@ == self.0@,
    {
        self.0.as_str()
    }
}

/// Identifier of a clip cut from a case recording.
#[derive(Debug, Clone, PartialEq, Eq, Hash)]
pub struct ClipId(pub String);

impl ClipId {
    /// A generated id `clip_<suffix>`, the suffix made from the clock reading
    /// `t` and the counter value `n` (see `suffix_text`).
    pub fn fresh(t: u64, n: u64) -> (r: Self)
        ensures
            r.0@ == "clip_"@ + suffix_text(t, n),
    {
        let mut text = owned("clip_");
        let suffix = short_random_suffix(t, n);
        push_str(&mut text, suffix.as_str());
        proof {
            reveal_strlit("clip_");
        }
        ClipId(text)
    }

    /// The id whose text is `s`.
    pub fn from_str_inner(s: &str) -> (r: Self)
        ensures
            r.0@ == s@,
    {
        ClipId(owned(s))
    }

    /// A copy of this id.
    pub fn duplicate(&self) -> (r: Self)
        ensures
            r == *self,
    {
        Self(self.0.clone())
    }

    /// The id's text.
    pub fn as_str(&self) -> (r: &str)
        ensures
            r@ == self.0@,
    {
        self.0.as_str()
    }
}

/// Identifier of an uploaded video segment.
#[derive(Debug, Clone, PartialEq, Eq, Hash)]
pub struct VideoSegmentId(pub String);

impl VideoSegmentId {
    /// A generated id `seg_<suffix>`, the suffix made from the clock reading
    /// `t` and the counter value `n` (see `suffix_text`).
    pub fn fresh(t: u64, n: u64) -> (r: Self)
        ensures
            r.0@ == "seg_"@ + suffix_text(t, n),
    {
        let mut text = owned("seg_");
        let suffix = short_random_suffix(t, n);
        push_str(&mut text, suffix.as_str());
        proof {
            reveal_strlit("seg_");
        }
        VideoSegmentId(text)
    }

    /// The id whose text is `s`.
    pub fn from_str_inner(s: &str) -> (r: Self)
        ensures
            r.0@ == s@,
    {
        VideoSegmentId(owned(s))
    }

    /// A copy of this id.
    pub fn duplicate(&self) -> (r: Self)
        ensures
            r == *self,
    {
        Self(self.0.clone())
    }

    /// The id's text.
    pub fn as_str(&self) -> (r: &str)
        ensures
            r@ == self.0@,
    {
        self.0.as_str()
    }
}

/// Identifier of an injected input event.
#[derive(Debug, Clone, PartialEq, Eq, Hash)]
pub struct InputEventId(pub String);

impl InputEventId {
    /// A generated id `evt_<suffix>`, the suffix made from the clock reading
    /// `t` and the counter value `n` (see `suffix_text`).
    pub fn fresh(t: u64, n: u64) -> (r: Self)
        ensures
            r.0@ == "evt_"@ + suffix_text(t, n),
    {
        let mut text = owned("evt_");
        let suffix = short_random_suffix(t, n);
        push_str(&mut text, suffix.as_str());
        proof {
            reveal_strlit("evt_");
        }
        InputEventId(text)
    }

    /// The id whose text is `s`.
    pub fn from_str_inner(s: &str) -> (r: Self)
        ensures
            r.0@ == s@,
    {
        InputEventId(owned(s))
    }

    /// A copy of this id.
    pub fn duplicate(&self) -> (r: Self)
        ensures
            r == *self,
    {
        Self(self.0.clone())
    }

    /// The id's text.
    pub fn as_str(&self) -> (r: &str)
        ensures
            r@ == self.0@,
    {
        self.0.as_str()
    }
}

/// Identifier of a VM checkpoint.
#[derive(Debug, Clone, PartialEq, Eq, Hash)]
pub struct CheckpointId(pub String);

impl CheckpointId {
    /// A generated id `ckpt_<suffix>`, the suffix made from the clock reading
    /// `t` and the counter value `n` (see `suffix_text`).
    pub fn fresh(t: u64, n: u64) -> (r: Self)
        ensures
            r.0@ == "ckpt_"@ + suffix_text(t, n),
    {
        let mut text = owned("ckpt_");
        let suffix = short_random_suffix(t, n);
        push_str(&mut text, suffix.as_str());
        proof {
            reveal_strlit("ckpt_");
        }
        CheckpointId(text)
    }

    /// The id whose text is `s`.
    pub fn from_str_inner(s: &str) -> (r: Self)
        ensures
            r.0@ == s@,
    {
        CheckpointId(owned(s))
    }

    /// A copy of this id.
    pub fn duplicate(&self) -> (r: Self)
        ensures
            r == *self,
    {
        Self(self.0.clone())
    }

    /// The id's text.
    pub fn as_str(&self) -> (r: &str)
        ensures
            r@ == self.0@,
    {
        self.0.as_str()
    }
}

/// A VM identifier as the hypervisor knows it (its GUID).
#[derive(Debug, Clone, PartialEq, Eq, Hash)]
pub struct VmId(pub String);

impl VmId {
    /// A copy of this id.
    pub fn duplicate(&self) -> (r: Self)
        ensures
            r == *self,
    {
        VmId(self.0.clone())
    }

    /// The GUID text.
    pub fn as_str(&self) -> (r: &str)
        ensures
            r@ == self.0@,
    {
        self.0.as_str()
    }
}

/// The suffix of a generated id: the clock reading `t` as lowercase hex
/// padded to twelve digits, then the counter `n` as lowercase hex padded to
/// four digits.
pub open spec fn suffix_text(t: u64, n: u64) -> Seq<char> {
    zero_pad(hex(t as nat), 12) + zero_pad(hex(n as nat), 4)
}

/// The short suffix appended to generated ids, from a clock reading in
/// nanoseconds and a process-wide counter value.
pub fn short_random_suffix(t: u64, n: u64) -> (r: String)
    ensures
        r@ == suffix_text(t, n),
{
    let mut s = String::new();
    push_hex_padded(&mut s, t, 12);
    push_hex_padded(&mut s, n, 4);
    s
}

} // verus!
