//! GUID text, as in `3045196F-2A11-4D65-BCC7-3F9EAB09B7ED`, to the 16 bytes
//! of the Windows binary layout: the first three fields little-endian, the
//! last eight bytes as written. Dashes may stand anywhere and are ignored;
//! what remains must be 32 hex digits, two to a byte.

use vstd::prelude::*;
use vstd::string::StringSliceAdditionalSpecFns;
use crate::text::{owned, push_str};

verus! {

/// Why GUID text was refused; the message is the refusal's text.
#[derive(Debug, Clone)]
pub struct GuidError {
    pub message: String,
}

/// The bytes of `b` other than `-`, in order.
pub open spec fn strip_dashes(b: Seq<u8>) -> Seq<u8>
    decreases b.len(),
{
    if b.len() == 0 {
        b
    } else if b.last() == 45u8 {
        strip_dashes(b.drop_last())
    } else {
        strip_dashes(b.drop_last()).push(b.last())
    }
}

/// The value of a hex digit byte, if it is one.
pub open spec fn hex_value(x: u8) -> Option<u8> {
    if 48u8 <= x <= 57u8 {
        Some((x - 48) as u8)
    } else if 97u8 <= x <= 102u8 {
        Some((x - 87) as u8)
    } else if 65u8 <= x <= 70u8 {
        Some((x - 55) as u8)
    } else {
        None
    }
}

/// The byte the two hex digits `a b` stand for, if both are hex digits.
pub open spec fn pair_value(a: u8, b: u8) -> Option<u8> {
    if hex_value(a) is Some && hex_value(b) is Some {
        Some((16 * hex_value(a)->0 + hex_value(b)->0) as u8)
    } else {
        None
    }
}

/// Every pair of the 32 digits stands for a byte.
pub open spec fn pairs_valid(h: Seq<u8>) -> bool {
    forall|i: int| 0 <= i < 16 ==> (#[trigger] pair_value(h[2 * i], h[2 * i + 1])) is Some
}

/// The 16 bytes the 32 digits of `h` stand for, in the order written.
pub open spec fn pair_bytes(h: Seq<u8>) -> Seq<u8> {
    Seq::new(16, |i: int| pair_value(h[2 * i], h[2 * i + 1])->0)
}

/// The Windows binary layout of a GUID written as the bytes `v`.
pub open spec fn guid_layout(v: Seq<u8>) -> Seq<u8> {
    seq![v[3], v[2], v[1], v[0], v[5], v[4], v[7], v[6]] + v.subrange(8, 16)
}

/// The text of the refusal of GUID text that is not 32 digits long.
pub open spec fn bad_guid_message(s: Seq<char>) -> Seq<char> {
    "bad GUID: "@ + s
}

/// The text of the refusal of a pair that is not a hex byte.
pub open spec fn invalid_digit_message() -> Seq<char> {
    "invalid digit found in string"@
}

/// Parse GUID text into its 16-byte binary layout. The text must be 32 hex
/// digits once its dashes are dropped, else `bad GUID: <text>`; a pair
/// that is not a byte (non-ASCII bytes among them) gives
/// `invalid digit found in string`. Both refusals are of invalid input.
#[verifier::rlimit(40)]
pub fn parse_guid(s: &str) -> (r: Result<[u8; 16], GuidError>)
    ensures
        ({
            let h = strip_dashes(s.spec_bytes());
            &&& h.len() != 32 ==> r is Err && r->Err_0.message@ == bad_guid_message(s@)
            &&& h.len() == 32 && !pairs_valid(h) ==> r is Err && r->Err_0.message@
                == invalid_digit_message()
            &&& h.len() == 32 && pairs_valid(h) ==> r is Ok && r->Ok_0@ == guid_layout(
                pair_bytes(h),
            )
        }),
{
    let b = s.as_bytes();
    let mut hex: Vec<u8> = Vec::new();
    let mut i: usize = 0;
    while i < b.len()
        invariant
            i <= b@.len(),
            b@ == s.spec_bytes(),
            hex@ == strip_dashes(b@.subrange(0, i as int)),
        decreases b.len() - i,
    {
        assert(b@.subrange(0, i + 1).drop_last() =~= b@.subrange(0, i as int));
        if b[i] != 45u8 {
            hex.push(b[i]);
        }
        i = i + 1;
    }
    assert(b@.subrange(0, b@.len() as int) =~= b@);
    if hex.len() != 32 {
        let mut message = owned("bad GUID: ");
        push_str(&mut message, s);
        proof {
            reveal_strlit("bad GUID: ");
        }
        return Err(GuidError { message });
    }
    let mut v: Vec<u8> = Vec::new();
    let mut k: usize = 0;
    while k < 16
        invariant
            k <= 16,
            hex@.len() == 32,
            hex@ == strip_dashes(s.spec_bytes()),
            v@.len() == k,
            forall|j: int| 0 <= j < k ==> (#[trigger] pair_value(hex@[2 * j], hex@[2 * j + 1])) is Some
                && v@[j] == pair_value(hex@[2 * j], hex@[2 * j + 1])->0,
        decreases 16 - k,
    {
        let a = hex[2 * k];
        let c = hex[2 * k + 1];
        let hv = hex_digit(c);
        let pv: Option<u8> = match (hex_digit(a), hv) {
            (Some(x), Some(y)) => Some(16 * x + y),
            _ => None,
        };
        match pv {
            Some(p) => {
                v.push(p);
            },
            None => {
                proof {
                    reveal_strlit("invalid digit found in string");
                    assert(pair_value(hex@[2 * k as int], hex@[2 * k + 1]) is None);
                }
                return Err(GuidError { message: owned("invalid digit found in string") });
            },
        }
        k = k + 1;
    }
    let out: [u8; 16] = [
        v[3],
        v[2],
        v[1],
        v[0],
        v[5],
        v[4],
        v[7],
        v[6],
        v[8],
        v[9],
        v[10],
        v[11],
        v[12],
        v[13],
        v[14],
        v[15],
    ];
    assert(v@ =~= pair_bytes(hex@));
    assert(out@ =~= guid_layout(pair_bytes(hex@)));
    Ok(out)
}

/// The value of a hex digit byte, if it is one.
fn hex_digit(x: u8) -> (r: Option<u8>)
    ensures
        r == hex_value(x),
{
    if 48u8 <= x && x <= 57u8 {
        Some(x - 48)
    } else if 97u8 <= x && x <= 102u8 {
        Some(x - 87)
    } else if 65u8 <= x && x <= 70u8 {
        Some(x - 55)
    } else {
        None
    }
}

} // verus!
