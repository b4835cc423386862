//! Text building blocks shared by the whole library: number rendering
//! (decimal and lowercase hex), string equality, and string assembly.

use vstd::prelude::*;
use vstd::string::*;
use vstd::utf8::*;
use vstd::arithmetic::div_mod::{lemma_div_decreases, lemma_small_mod};

verus! {

/// `String::push` from std: appends one `char` to the end of the string.
/// The contract claims exactly what std documents: the character sequence
/// grows by that one character at the end.
pub assume_specification[ String::push ](s: &mut String, ch: char)
    ensures
        final(s)@ == old(s)@.push(ch),
;

/// The character used for digit `d` (0..16) when rendering numbers:
/// `0`-`9`, then lowercase `a`-`f`.
pub open spec fn digit_char(d: nat) -> char {
    if d < 10 {
        (48 + d) as char
    } else {
        (87 + d) as char
    }
}

/// The digits of `n` in `base` (most significant first, no leading zeros,
/// `"0"` for zero).
pub open spec fn digits(n: nat, base: nat) -> Seq<char>
    decreases n,
{
    if base < 2 || n < base {
        seq![digit_char(n)]
    } else {
        proof {
            lemma_div_decreases(n as int, base as int);
        }
        digits(n / base, base).push(digit_char(n % base))
    }
}

/// Decimal rendering of a natural number.
pub open spec fn dec(n: nat) -> Seq<char> {
    digits(n, 10)
}

/// Lowercase hex rendering of a natural number.
pub open spec fn hex(n: nat) -> Seq<char> {
    digits(n, 16)
}

/// Decimal rendering of a signed integer, with a leading `-` when negative.
pub open spec fn dec_int(i: int) -> Seq<char> {
    if i < 0 {
        seq!['-'] + dec((-i) as nat)
    } else {
        dec(i as nat)
    }
}

/// `s` left-padded with `'0'` up to width `w` (unchanged when already as wide).
pub open spec fn zero_pad(s: Seq<char>, w: nat) -> Seq<char> {
    if s.len() >= w {
        s
    } else {
        Seq::new((w - s.len()) as nat, |i: int| '0') + s
    }
}

/// The character produced for a digit value below 16.
pub fn digit(d: u64) -> (c: char)
    requires
        d < 16,
    ensures
        c == digit_char(d as nat),
{
    if d < 10 {
        ((d as u8) + 48) as char
    } else {
        ((d as u8) + 87) as char
    }
}

/// The digits of `v` in `base` as a vector of characters.
pub fn radix_chars(v: u64, base: u64) -> (out: Vec<char>)
    requires
        2 <= base <= 16,
    ensures
        out@ == digits(v as nat, base as nat),
{
    let mut cur = v;
    let mut out: Vec<char> = Vec::new();
    loop
        invariant_except_break
            2 <= base <= 16,
            digits(v as nat, base as nat) == digits(cur as nat, base as nat) + out@,
        ensures
            out@ == digits(v as nat, base as nat),
        decreases cur,
    {
        let d = cur % base;
        let c = digit(d);
        let ghost old_out = out@;
        out.insert(0, c);
        if cur < base {
            assert(digits(cur as nat, base as nat) == seq![digit_char(cur as nat)]);
            proof {
                lemma_small_mod(cur as nat, base as nat);
            }
            assert(out@ =~= seq![c] + old_out);
            assert(out@ =~= digits(v as nat, base as nat));
            break;
        }
        let next = cur / base;
        assert(digits(cur as nat, base as nat) == digits(next as nat, base as nat).push(
            digit_char(cur as nat % base as nat),
        ));
        assert(digits(cur as nat, base as nat) + old_out =~= digits(next as nat, base as nat)
            + out@);
        cur = next;
    }
    out
}

/// Appends every character of `cs` to `s`.
pub fn push_chars(s: &mut String, cs: &Vec<char>)
    ensures
        final(s)@ == old(s)@ + cs@,
{
    let mut i: usize = 0;
    while i < cs.len()
        invariant
            i <= cs@.len(),
            s@ == old(s)@ + cs@.subrange(0, i as int),
        decreases cs.len() - i,
    {
        s.push(cs[i]);
        assert(cs@.subrange(0, i + 1) =~= cs@.subrange(0, i as int).push(cs@[i as int]));
        i = i + 1;
    }
    assert(cs@.subrange(0, cs@.len() as int) =~= cs@);
}

/// Appends the bytes of `b` to `v`.
pub fn push_bytes(v: &mut Vec<u8>, b: &[u8])
    ensures
        final(v)@ == old(v)@ + b@,
{
    let mut i: usize = 0;
    while i < b.len()
        invariant
            i <= b@.len(),
            v@ == old(v)@ + b@.subrange(0, i as int),
        decreases b.len() - i,
    {
        v.push(b[i]);
        assert(b@.subrange(0, i + 1) =~= b@.subrange(0, i as int).push(b@[i as int]));
        i = i + 1;
    }
    assert(b@.subrange(0, b@.len() as int) =~= b@);
}

/// Appends `t` to `s`.
pub fn push_str(s: &mut String, t: &str)
    ensures
        final(s)@ == old(s)@ + t@,
{
    s.append(t);
}

/// An owned copy of an optional string.
pub fn copy_opt(s: &Option<String>) -> (r: Option<String>)
    ensures
        r == *s,
{
    match s {
        Some(t) => Some(t.clone()),
        None => None,
    }
}

/// An owned copy of a string slice.
pub fn owned(t: &str) -> (r: String)
    ensures
        r@ == t@,
{
    t.to_owned()
}

/// Appends the decimal rendering of `v` to `s`.
pub fn push_u64(s: &mut String, v: u64)
    ensures
        final(s)@ == old(s)@ + dec(v as nat),
{
    let cs = radix_chars(v, 10);
    push_chars(s, &cs);
}

/// Appends the decimal rendering of the signed `v` to `s`.
pub fn push_i64(s: &mut String, v: i64)
    ensures
        final(s)@ == old(s)@ + dec_int(v as int),
{
    if v < 0 {
        s.push('-');
        let mag: u64 = ((-(v + 1)) as u64) + 1;
        let cs = radix_chars(mag, 10);
        push_chars(s, &cs);
        assert(final(s)@ =~= old(s)@ + (seq!['-'] + dec((-(v as int)) as nat)));
    } else {
        let cs = radix_chars(v as u64, 10);
        push_chars(s, &cs);
    }
}

/// Appends the digits of `v` in `base`, left-padded with `'0'` to at least
/// `width` characters.
pub fn push_padded(s: &mut String, v: u64, base: u64, width: usize)
    requires
        2 <= base <= 16,
    ensures
        final(s)@ == old(s)@ + zero_pad(digits(v as nat, base as nat), width as nat),
{
    let cs = radix_chars(v, base);
    let mut pad: Vec<char> = Vec::new();
    if cs.len() < width {
        let n = width - cs.len();
        let mut i: usize = 0;
        while i < n
            invariant
                i <= n,
                pad@ == Seq::new(i as nat, |k: int| '0'),
            decreases n - i,
        {
            pad.push('0');
            assert(pad@ =~= Seq::new((i + 1) as nat, |k: int| '0'));
            i = i + 1;
        }
    }
    push_chars(s, &pad);
    push_chars(s, &cs);
    assert(final(s)@ =~= old(s)@ + zero_pad(digits(v as nat, base as nat), width as nat));
}

/// Appends the lowercase hex rendering of `v`, left-padded with `'0'` to at
/// least `width` characters.
pub fn push_hex_padded(s: &mut String, v: u64, width: usize)
    ensures
        final(s)@ == old(s)@ + zero_pad(hex(v as nat), width as nat),
{
    push_padded(s, v, 16, width);
}

/// Appends the decimal rendering of `v`, left-padded with `'0'` to at least
/// `width` characters.
pub fn push_dec_padded(s: &mut String, v: u64, width: usize)
    ensures
        final(s)@ == old(s)@ + zero_pad(dec(v as nat), width as nat),
{
    push_padded(s, v, 10, width);
}

/// Byte-level equality of two string slices decides equality of their
/// character sequences (UTF-8 encoding is injective).
pub proof fn lemma_bytes_eq_chars_eq(a: &str, b: &str)
    requires
        a.spec_bytes() == b.spec_bytes(),
    ensures
        a@ == b@,
{
    encode_utf8_decode_utf8(a@);
    encode_utf8_decode_utf8(b@);
}

/// Do two byte sequences agree everywhere?
pub fn bytes_eq(a: &[u8], b: &[u8]) -> (r: bool)
    ensures
        r == (a@ == b@),
{
    if a.len() != b.len() {
        return false;
    }
    let mut i: usize = 0;
    while i < a.len()
        invariant
            a@.len() == b@.len(),
            i <= a@.len(),
            forall|k: int| 0 <= k < i ==> a@[k] == b@[k],
        decreases a.len() - i,
    {
        if a[i] != b[i] {
            return false;
        }
        i = i + 1;
    }
    assert(a@ =~= b@);
    true
}

/// Equality of two string slices, character for character.
pub fn str_eq(a: &str, b: &str) -> (r: bool)
    ensures
        r == (a@ == b@),
{
    let r = bytes_eq(a.as_bytes(), b.as_bytes());
    proof {
        if r {
            lemma_bytes_eq_chars_eq(a, b);
        }
    }
    r
}

/// `base` joined with the path component `comp`: `comp` itself when it is
/// absolute, otherwise `base` and `comp` separated by one `/` (none when
/// `base` is empty or already ends with `/`).
pub open spec fn path_join(base: Seq<char>, comp: Seq<char>) -> Seq<char> {
    if comp.len() > 0 && comp[0] == '/' {
        comp
    } else if base.len() == 0 || base.last() == '/' {
        base + comp
    } else {
        base + "/"@ + comp
    }
}

/// Join a path component onto a base path.
pub fn join_path(base: &str, comp: &str) -> (r: String)
    ensures
        r@ == path_join(base@, comp@),
{
    proof {
        reveal_strlit("/");
    }
    if !comp.is_empty() && comp.get_char(0) == '/' {
        return owned(comp);
    }
    let mut s = owned(base);
    if base.is_empty() || base.get_char(base.unicode_len() - 1) == '/' {
        push_str(&mut s, comp);
    } else {
        s.push('/');
        push_str(&mut s, comp);
        assert(s@ =~= base@ + "/"@ + comp@);
    }
    s
}

/// The path conventions of the machine a path is meant for.
#[derive(Debug, Clone, Copy, PartialEq, Eq, Structural)]
pub enum PathStyle {
    /// `/` separates components; a path starting with `/` is absolute.
    Unix,
    /// `\` or `/` separate components; paths may carry a drive (`C:`) or be
    /// UNC, device or verbatim paths (starting with two separators).
    Windows,
}

/// A component separator on Windows.
pub open spec fn win_sep(c: char) -> bool {
    c == '\\' || c == '/'
}

/// An ASCII letter.
pub open spec fn ascii_letter(c: char) -> bool {
    (65 <= (c as u32) && (c as u32) <= 90) || (97 <= (c as u32) && (c as u32) <= 122)
}

/// `p` starts with a drive such as `C:`.
pub open spec fn win_drive(p: Seq<char>) -> bool {
    p.len() >= 2 && ascii_letter(p[0]) && p[1] == ':'
}

/// `p` starts with two separators: a UNC, device or verbatim path.
pub open spec fn win_unc(p: Seq<char>) -> bool {
    p.len() >= 2 && win_sep(p[0]) && win_sep(p[1])
}

/// `base` joined with `comp` on Windows. A `comp` that carries a drive
/// (`C:\x`, `C:x`) or starts with two separators replaces `base`; a `comp`
/// that starts with one separator keeps only the drive of `base` (a base
/// without a drive, UNC bases included, is dropped); otherwise `base` and
/// `comp` are separated by one `\` (none when `base` is empty, a bare drive,
/// or already ends with a separator).
pub open spec fn win_path_join(base: Seq<char>, comp: Seq<char>) -> Seq<char> {
    if win_drive(comp) || win_unc(comp) {
        comp
    } else if comp.len() > 0 && win_sep(comp[0]) {
        if win_drive(base) {
            base.subrange(0, 2) + comp
        } else {
            comp
        }
    } else if base.len() == 0 || win_sep(base.last()) || (base.len() == 2 && win_drive(base)) {
        base + comp
    } else {
        base + "\\"@ + comp
    }
}

/// `base` joined with `comp` under the given conventions.
pub open spec fn styled_join(style: PathStyle, base: Seq<char>, comp: Seq<char>) -> Seq<char> {
    match style {
        PathStyle::Unix => path_join(base, comp),
        PathStyle::Windows => win_path_join(base, comp),
    }
}

/// `p` is absolute under the given conventions: on Unix it starts with `/`;
/// on Windows it is a drive followed by a separator, or starts with two
/// separators.
pub open spec fn is_absolute_path(style: PathStyle, p: Seq<char>) -> bool {
    match style {
        PathStyle::Unix => p.len() > 0 && p[0] == '/',
        PathStyle::Windows => (win_drive(p) && p.len() >= 3 && win_sep(p[2])) || win_unc(p),
    }
}

fn is_win_sep(c: char) -> (r: bool)
    ensures
        r == win_sep(c),
{
    c == '\\' || c == '/'
}

fn starts_with_drive(p: &str) -> (r: bool)
    ensures
        r == win_drive(p@),
{
    if p.unicode_len() < 2 {
        return false;
    }
    let n = p.get_char(0) as u32;
    ((65 <= n && n <= 90) || (97 <= n && n <= 122)) && p.get_char(1) == ':'
}

fn starts_with_unc(p: &str) -> (r: bool)
    ensures
        r == win_unc(p@),
{
    p.unicode_len() >= 2 && is_win_sep(p.get_char(0)) && is_win_sep(p.get_char(1))
}

/// Join a path component onto a base path by Windows conventions.
pub fn join_path_windows(base: &str, comp: &str) -> (r: String)
    ensures
        r@ == win_path_join(base@, comp@),
{
    proof {
        reveal_strlit("\\");
    }
    if starts_with_drive(comp) || starts_with_unc(comp) {
        return owned(comp);
    }
    if comp.unicode_len() > 0 && is_win_sep(comp.get_char(0)) {
        if starts_with_drive(base) {
            let mut s = owned(base.substring_char(0, 2));
            push_str(&mut s, comp);
            return s;
        }
        return owned(comp);
    }
    let n = base.unicode_len();
    let mut s = owned(base);
    if n == 0 || is_win_sep(base.get_char(n - 1)) || (n == 2 && starts_with_drive(base)) {
        push_str(&mut s, comp);
    } else {
        s.push('\\');
        push_str(&mut s, comp);
        assert(s@ =~= base@ + "\\"@ + comp@);
    }
    s
}

/// Join a path component onto a base path under the given conventions.
pub fn join_path_styled(style: PathStyle, base: &str, comp: &str) -> (r: String)
    ensures
        r@ == styled_join(style, base@, comp@),
{
    match style {
        PathStyle::Unix => join_path(base, comp),
        PathStyle::Windows => join_path_windows(base, comp),
    }
}

/// `big` ends with the bytes of `suffix`.
pub open spec fn bytes_end_with(big: Seq<u8>, suffix: Seq<u8>) -> bool {
    suffix.len() <= big.len() && big.subrange(big.len() - suffix.len(), big.len() as int)
        == suffix
}

/// `needle` occurs in `hay` starting at position `i`.
pub open spec fn occurs_at(hay: Seq<u8>, needle: Seq<u8>, i: int) -> bool {
    0 <= i && i + needle.len() <= hay.len() && hay.subrange(i, i + needle.len()) == needle
}

/// Does `needle` occur in `hay` starting at `i`?
pub fn bytes_occur_at(hay: &[u8], needle: &[u8], i: usize) -> (r: bool)
    requires
        i <= hay@.len(),
    ensures
        r == occurs_at(hay@, needle@, i as int),
{
    if needle.len() > hay.len() - i {
        return false;
    }
    let hl = hay.len();
    let mut k: usize = 0;
    while k < needle.len()
        invariant
            hl == hay@.len(),
            i + needle@.len() <= hay@.len(),
            k <= needle@.len(),
            forall|j: int| 0 <= j < k ==> hay@[i + j] == needle@[j],
        decreases needle.len() - k,
    {
        assert(i + k < hay@.len());
        if hay[i + k] != needle[k] {
            assert(hay@.subrange(i as int, i + needle@.len())[k as int] != needle@[k as int]);
            return false;
        }
        k = k + 1;
    }
    assert(hay@.subrange(i as int, i + needle@.len()) =~= needle@);
    true
}

/// Does the byte string of `big` end with that of `suffix`?
pub fn str_ends_with(big: &str, suffix: &str) -> (r: bool)
    ensures
        r == bytes_end_with(big.spec_bytes(), suffix.spec_bytes()),
{
    let b = big.as_bytes();
    let s = suffix.as_bytes();
    if s.len() > b.len() {
        return false;
    }
    bytes_occur_at(b, s, b.len() - s.len())
}

} // verus!
