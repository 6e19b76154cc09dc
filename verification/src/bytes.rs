//! Byte-string primitives shared by the site adapters: copying, equality,
//! and concatenation over `Vec<u8>` values.

use vstd::prelude::*;

verus! {

/// Copy of a byte slice as an owned vector.
pub fn copy_bytes(s: &[u8]) -> (r: Vec<u8>)
    ensures
        r@ == s@,
{
    let mut r: Vec<u8> = Vec::new();
    let mut i: usize = 0;
    while i < s.len()
        invariant
            i <= s@.len(),
            r@ == s@.subrange(0, i as int),
        decreases s@.len() - i,
    {
        r.push(s[i]);
        i = i + 1;
        proof {
            assert(r@ =~= s@.subrange(0, i as int));
        }
    }
    proof {
        assert(r@ =~= s@);
    }
    r
}

/// Byte-wise equality of two slices.
pub fn bytes_eq(a: &[u8], b: &[u8]) -> (r: bool)
    ensures
        r == (a@ == b@),
{
    if a.len() != b.len() {
        proof {
            assert(a@.len() != b@.len());
        }
        return false;
    }
    let mut i: usize = 0;
    while i < a.len()
        invariant
            i <= a@.len(),
            a@.len() == b@.len(),
            forall|j: int| 0 <= j < i ==> a@[j] == b@[j],
        decreases a@.len() - i,
    {
        if a[i] != b[i] {
            return false;
        }
        i = i + 1;
    }
    proof {
        assert(a@ =~= b@);
    }
    true
}

/// Concatenation of two byte slices.
pub fn concat_bytes(a: &[u8], b: &[u8]) -> (r: Vec<u8>)
    ensures
        r@ == a@ + b@,
{
    let mut r = copy_bytes(a);
    let mut i: usize = 0;
    while i < b.len()
        invariant
            i <= b@.len(),
            r@ == a@ + b@.subrange(0, i as int),
        decreases b@.len() - i,
    {
        r.push(b[i]);
        i = i + 1;
        proof {
            assert(r@ =~= a@ + b@.subrange(0, i as int));
        }
    }
    proof {
        assert(r@ =~= a@ + b@);
    }
    r
}

/// An ASCII decimal digit.
pub open spec fn is_digit(b: u8) -> bool {
    0x30 <= b && b <= 0x39
}

/// Every byte of `s` is an ASCII decimal digit.
pub open spec fn all_digits(s: Seq<u8>) -> bool {
    forall|i: int| 0 <= i < s.len() ==> is_digit(#[trigger] s[i])
}

/// The value of `s` read as a decimal numeral, most significant digit first.
pub open spec fn dec_val(s: Seq<u8>) -> nat
    decreases s.len(),
{
    if s.len() == 0 {
        0
    } else {
        (dec_val(s.drop_last()) * 10 + (s.last() - 0x30)) as nat
    }
}

/// A decimal numeral only grows when digits are appended.
pub proof fn lemma_dec_val_prefix(s: Seq<u8>, i: int)
    requires
        0 <= i <= s.len(),
        all_digits(s),
    ensures
        dec_val(s.take(i)) <= dec_val(s),
    decreases s.len() - i,
{
    if i == s.len() {
        assert(s.take(i) =~= s);
    } else {
        assert(s.take(i + 1).drop_last() =~= s.take(i));
        assert(dec_val(s.take(i + 1)) == dec_val(s.take(i)) * 10 + (s[i] - 0x30));
        lemma_dec_val_prefix(s, i + 1);
    }
}

/// A numeral of `n` digits is below `pow10(n)`.
pub proof fn lemma_dec_val_bound(s: Seq<u8>)
    requires
        all_digits(s),
    ensures
        dec_val(s) < pow10(s.len()),
    decreases s.len(),
{
    if s.len() > 0 {
        assert(all_digits(s.drop_last()));
        lemma_dec_val_bound(s.drop_last());
        assert(pow10(s.len()) == 10 * pow10((s.len() - 1) as nat));
    }
}

/// Ten to the power `n`.
pub open spec fn pow10(n: nat) -> nat
    decreases n,
{
    if n == 0 {
        1
    } else {
        10 * pow10((n - 1) as nat)
    }
}

/// Exact decimal parse of a byte slice into a `u64`: returns the numeral's
/// value exactly when the slice is a non-empty run of digits whose value
/// fits, and `None` otherwise.
pub fn parse_u64_digits(s: &[u8]) -> (r: Option<u64>)
    ensures
        (s@.len() > 0 && all_digits(s@) && dec_val(s@) <= u64::MAX) ==> r == Some(
            dec_val(s@) as u64,
        ),
        r is Some ==> s@.len() > 0 && all_digits(s@) && r->Some_0 == dec_val(s@),
{
    if s.len() == 0 {
        return None;
    }
    let mut acc: u64 = 0;
    let mut i: usize = 0;
    while i < s.len()
        invariant
            0 < s@.len(),
            i <= s@.len(),
            forall|j: int| 0 <= j < i ==> is_digit(#[trigger] s@[j]),
            acc == dec_val(s@.take(i as int)),
        decreases s@.len() - i,
    {
        let b = s[i];
        if b < 0x30 || b > 0x39 {
            return None;
        }
        proof {
            assert(s@.take(i + 1).drop_last() =~= s@.take(i as int));
            assert(dec_val(s@.take(i + 1)) == dec_val(s@.take(i as int)) * 10 + (s@[i as int]
                - 0x30));
        }
        let shifted = match acc.checked_mul(10) {
            Some(v) => v,
            None => {
                proof {
                    if all_digits(s@) {
                        lemma_dec_val_prefix(s@, i + 1);
                    }
                }
                return None;
            },
        };
        let next = match shifted.checked_add((b - 0x30) as u64) {
            Some(v) => v,
            None => {
                proof {
                    if all_digits(s@) {
                        lemma_dec_val_prefix(s@, i + 1);
                    }
                }
                return None;
            },
        };
        acc = next;
        i = i + 1;
    }
    proof {
        assert(s@.take(s@.len() as int) =~= s@);
    }
    Some(acc)
}

/// The bytes of `s` before the first occurrence of `b` (all of `s` if `b`
/// does not occur).
pub open spec fn prefix_to(s: Seq<u8>, b: u8) -> Seq<u8>
    decreases s.len(),
{
    if s.len() == 0 {
        seq![]
    } else if s[0] == b {
        seq![]
    } else {
        seq![s[0]] + prefix_to(s.drop_first(), b)
    }
}

/// The bytes of `s` after the first occurrence of `b`, if `b` occurs.
pub open spec fn after_first(s: Seq<u8>, b: u8) -> Option<Seq<u8>>
    decreases s.len(),
{
    if s.len() == 0 {
        None
    } else if s[0] == b {
        Some(s.drop_first())
    } else {
        after_first(s.drop_first(), b)
    }
}

/// Scanning past `i` bytes that are not `b` leaves both pieces unchanged.
proof fn lemma_scan_to(s: Seq<u8>, b: u8, i: int)
    requires
        0 <= i <= s.len(),
        forall|j: int| 0 <= j < i ==> s[j] != b,
    ensures
        prefix_to(s, b) == s.take(i) + prefix_to(s.skip(i), b),
        after_first(s, b) == after_first(s.skip(i), b),
    decreases i,
{
    if i == 0 {
        assert(s.skip(0) =~= s);
        assert(s.take(0) + prefix_to(s, b) =~= prefix_to(s, b));
    } else {
        lemma_scan_to(s.drop_first(), b, i - 1);
        assert(s.drop_first().take(i - 1) =~= s.take(i).drop_first());
        assert(s.drop_first().skip(i - 1) =~= s.skip(i));
        assert(seq![s[0]] + (s.take(i).drop_first() + prefix_to(s.skip(i), b)) =~= s.take(i)
            + prefix_to(s.skip(i), b));
    }
}

/// The piece of `s` before the first occurrence of `b`.
pub fn piece_before(s: &[u8], b: u8) -> (r: Vec<u8>)
    ensures
        r@ == prefix_to(s@, b),
{
    let mut i: usize = 0;
    while i < s.len()
        invariant
            i <= s@.len(),
            forall|j: int| 0 <= j < i ==> s@[j] != b,
        decreases s@.len() - i,
    {
        if s[i] == b {
            proof {
                lemma_scan_to(s@, b, i as int);
                assert(prefix_to(s@.skip(i as int), b) =~= seq![]);
                assert(s@.take(i as int) + seq![] =~= s@.take(i as int));
                assert(s@.subrange(0, i as int) =~= s@.take(i as int));
            }
            return copy_bytes(vstd::slice::slice_subrange(s, 0, i));
        }
        i = i + 1;
    }
    proof {
        lemma_scan_to(s@, b, s@.len() as int);
        assert(prefix_to(s@.skip(s@.len() as int), b) =~= seq![]);
        assert(s@.take(s@.len() as int) + seq![] =~= s@);
    }
    copy_bytes(s)
}

/// The piece of `s` after the first occurrence of `b`, if any.
pub fn piece_after(s: &[u8], b: u8) -> (r: Option<Vec<u8>>)
    ensures
        match r {
            Some(v) => after_first(s@, b) == Some(v@),
            None => after_first(s@, b) is None,
        },
{
    let mut i: usize = 0;
    while i < s.len()
        invariant
            i <= s@.len(),
            forall|j: int| 0 <= j < i ==> s@[j] != b,
        decreases s@.len() - i,
    {
        if s[i] == b {
            proof {
                lemma_scan_to(s@, b, i as int);
                assert(s@.skip(i as int).drop_first() =~= s@.subrange(i + 1, s@.len() as int));
            }
            return Some(copy_bytes(vstd::slice::slice_subrange(s, i + 1, s.len())));
        }
        i = i + 1;
    }
    proof {
        lemma_scan_to(s@, b, s@.len() as int);
    }
    None
}

/// An ASCII whitespace byte.
pub open spec fn is_ascii_ws(b: u8) -> bool {
    b == 0x20 || b == 0x09 || b == 0x0A || b == 0x0B || b == 0x0C || b == 0x0D
}

/// Length of the whitespace unit at the head of `s`: 2 for a UTF-8
/// no-break space (0xC2 0xA0), 1 for an ASCII whitespace byte, 0 otherwise.
pub open spec fn ws_len_at(s: Seq<u8>) -> nat {
    if s.len() >= 2 && s[0] == 0xC2 && s[1] == 0xA0 {
        2
    } else if s.len() >= 1 && is_ascii_ws(s[0]) {
        1
    } else {
        0
    }
}

/// Length of the token (maximal whitespace-free run) at the head of `s`.
pub open spec fn token_len_at(s: Seq<u8>) -> nat
    decreases s.len(),
{
    if s.len() == 0 || ws_len_at(s) > 0 {
        0
    } else {
        1 + token_len_at(s.drop_first())
    }
}

/// A token never runs past the end of the input.
pub proof fn lemma_token_len_le(s: Seq<u8>)
    ensures
        token_len_at(s) <= s.len(),
    decreases s.len(),
{
    if s.len() > 0 && ws_len_at(s) == 0 {
        lemma_token_len_le(s.drop_first());
    }
}

#[via_fn]
proof fn ws_tokens_decreases(s: Seq<u8>) {
    lemma_token_len_le(s);
}

/// The whitespace-separated tokens of `s`, in order. Whitespace is ASCII
/// whitespace or a UTF-8 no-break space; empty tokens do not occur.
pub open spec fn ws_tokens(s: Seq<u8>) -> Seq<Seq<u8>>
    decreases s.len(),
        via ws_tokens_decreases
{
    if s.len() == 0 {
        seq![]
    } else if ws_len_at(s) > 0 {
        ws_tokens(s.skip(ws_len_at(s) as int))
    } else {
        seq![s.take(token_len_at(s) as int)] + ws_tokens(s.skip(token_len_at(s) as int))
    }
}

/// The views of a sequence of byte vectors.
pub open spec fn views_of(vs: Seq<Vec<u8>>) -> Seq<Seq<u8>> {
    vs.map_values(|v: Vec<u8>| v@)
}

/// Length of the whitespace unit at position `i`.
fn ws_unit_at(s: &[u8], i: usize) -> (w: usize)
    requires
        i <= s@.len(),
    ensures
        w == ws_len_at(s@.skip(i as int)),
        i + w <= s@.len(),
{
    if i < s.len() && i + 1 < s.len() && s[i] == 0xC2 && s[i + 1] == 0xA0 {
        2
    } else if i < s.len() && (s[i] == 0x20 || s[i] == 0x09 || s[i] == 0x0A || s[i] == 0x0B || s[i]
        == 0x0C || s[i] == 0x0D) {
        1
    } else {
        0
    }
}

/// Length of the token starting at position `i`.
fn token_len_from(s: &[u8], i: usize) -> (t: usize)
    requires
        i <= s@.len(),
    ensures
        t == token_len_at(s@.skip(i as int)),
        i + t <= s@.len(),
    decreases s@.len() - i,
{
    if i == s.len() {
        0
    } else if ws_unit_at(s, i) > 0 {
        0
    } else {
        proof {
            assert(s@.skip(i as int).drop_first() =~= s@.skip(i + 1));
        }
        1 + token_len_from(s, i + 1)
    }
}

fn ws_tokens_from(s: &[u8], i: usize) -> (r: Vec<Vec<u8>>)
    requires
        i <= s@.len(),
    ensures
        views_of(r@) == ws_tokens(s@.skip(i as int)),
    decreases s@.len() - i,
{
    if i == s.len() {
        let r: Vec<Vec<u8>> = Vec::new();
        proof {
            assert(views_of(r@) =~= ws_tokens(s@.skip(i as int)));
        }
        r
    } else {
        let w = ws_unit_at(s, i);
        if w > 0 {
            let r = ws_tokens_from(s, i + w);
            proof {
                assert(s@.skip(i as int).skip(ws_len_at(s@.skip(i as int)) as int) =~= s@.skip(
                    i + w,
                ));
            }
            r
        } else {
            let t = token_len_from(s, i);
            proof {
                assert(t > 0) by {
                    assert(s@.skip(i as int).len() > 0);
                }
            }
            let tok = copy_bytes(vstd::slice::slice_subrange(s, i, i + t));
            let mut r = ws_tokens_from(s, i + t);
            r.insert(0, tok);
            proof {
                assert(s@.skip(i as int).skip(token_len_at(s@.skip(i as int)) as int) =~= s@.skip(
                    i + t,
                ));
                assert(s@.skip(i as int).take(token_len_at(s@.skip(i as int)) as int) =~= s@
                    .subrange(i as int, i + t));
                assert(views_of(r@) =~= ws_tokens(s@.skip(i as int)));
            }
            r
        }
    }
}

/// Split `s` into its whitespace-separated tokens (ASCII whitespace and
/// the UTF-8 no-break space both separate).
pub fn split_ws(s: &[u8]) -> (r: Vec<Vec<u8>>)
    ensures
        views_of(r@) == ws_tokens(s@),
{
    let r = ws_tokens_from(s, 0);
    proof {
        assert(s@.skip(0) =~= s@);
    }
    r
}

/// `s` with every occurrence of the pattern `p` removed, scanning left to
/// right (occurrences found after a removal are removed too).
pub open spec fn remove_pat(s: Seq<u8>, p: Seq<u8>) -> Seq<u8>
    recommends
        p.len() > 0,
    decreases s.len(),
        when p.len() > 0
{
    if s.len() == 0 {
        seq![]
    } else if s.len() >= p.len() && s.take(p.len() as int) == p {
        remove_pat(s.skip(p.len() as int), p)
    } else {
        seq![s[0]] + remove_pat(s.drop_first(), p)
    }
}

fn remove_from(s: &[u8], p: &[u8], i: usize) -> (r: Vec<u8>)
    requires
        p@.len() > 0,
        i <= s@.len(),
    ensures
        r@ == remove_pat(s@.skip(i as int), p@),
    decreases s@.len() - i,
{
    if i == s.len() {
        let r: Vec<u8> = Vec::new();
        proof {
            assert(r@ =~= remove_pat(s@.skip(i as int), p@));
        }
        r
    } else if p.len() <= s.len() - i && bytes_eq(
        vstd::slice::slice_subrange(s, i, i + p.len()),
        p,
    ) {
        proof {
            assert(s@.skip(i as int).take(p@.len() as int) =~= s@.subrange(i as int, i + p@.len()));
            assert(s@.skip(i as int).skip(p@.len() as int) =~= s@.skip(i + p@.len()));
        }
        remove_from(s, p, i + p.len())
    } else {
        proof {
            if p@.len() <= s@.len() - i {
                assert(s@.skip(i as int).take(p@.len() as int) =~= s@.subrange(
                    i as int,
                    i + p@.len(),
                ));
            }
            assert(s@.skip(i as int).drop_first() =~= s@.skip(i + 1));
        }
        let mut r = remove_from(s, p, i + 1);
        r.insert(0, s[i]);
        proof {
            assert(r@ =~= remove_pat(s@.skip(i as int), p@));
        }
        r
    }
}

/// `s` with every occurrence of the non-empty pattern `p` removed.
pub fn remove_pattern(s: &[u8], p: &[u8]) -> (r: Vec<u8>)
    requires
        p@.len() > 0,
    ensures
        r@ == remove_pat(s@, p@),
{
    let r = remove_from(s, p, 0);
    proof {
        assert(s@.skip(0) =~= s@);
    }
    r
}

/// `s` without the suffix `suf` when it ends with it, `s` unchanged
/// otherwise.
pub open spec fn strip_suf(s: Seq<u8>, suf: Seq<u8>) -> Seq<u8> {
    if s.len() >= suf.len() && s.skip(s.len() - suf.len()) == suf {
        s.take(s.len() - suf.len())
    } else {
        s
    }
}

/// Remove the suffix `suf` from `s` if present.
pub fn strip_suffix_bytes(s: &[u8], suf: &[u8]) -> (r: Vec<u8>)
    ensures
        r@ == strip_suf(s@, suf@),
{
    if suf.len() <= s.len() && bytes_eq(
        vstd::slice::slice_subrange(s, s.len() - suf.len(), s.len()),
        suf,
    ) {
        proof {
            assert(s@.skip(s@.len() - suf@.len()) =~= s@.subrange(
                s@.len() - suf@.len(),
                s@.len() as int,
            ));
        }
        copy_bytes(vstd::slice::slice_subrange(s, 0, s.len() - suf.len()))
    } else {
        proof {
            if s@.len() >= suf@.len() {
                assert(s@.skip(s@.len() - suf@.len()) =~= s@.subrange(
                    s@.len() - suf@.len(),
                    s@.len() as int,
                ));
            }
        }
        copy_bytes(s)
    }
}

/// Length of the whitespace unit at the tail of `s` (the counterpart of
/// `ws_len_at` read from the right).
pub open spec fn tail_ws_len(s: Seq<u8>) -> nat {
    if s.len() >= 2 && s[s.len() - 2] == 0xC2 && s[s.len() - 1] == 0xA0 {
        2
    } else if s.len() >= 1 && is_ascii_ws(s[s.len() - 1]) {
        1
    } else {
        0
    }
}

/// `s` without leading whitespace units.
pub open spec fn trim_start(s: Seq<u8>) -> Seq<u8>
    decreases s.len(),
{
    if ws_len_at(s) == 0 {
        s
    } else {
        trim_start(s.skip(ws_len_at(s) as int))
    }
}

/// `s` without trailing whitespace units.
pub open spec fn trim_end(s: Seq<u8>) -> Seq<u8>
    decreases s.len(),
{
    if tail_ws_len(s) == 0 {
        s
    } else {
        trim_end(s.take(s.len() - tail_ws_len(s)))
    }
}

/// `s` without leading and trailing whitespace units (ASCII whitespace or
/// a UTF-8 no-break space).
pub open spec fn trim_ws(s: Seq<u8>) -> Seq<u8> {
    trim_end(trim_start(s))
}

fn trim_lo(s: &[u8], i: usize) -> (lo: usize)
    requires
        i <= s@.len(),
    ensures
        i <= lo <= s@.len(),
        s@.skip(lo as int) == trim_start(s@.skip(i as int)),
    decreases s@.len() - i,
{
    let n = s.len();
    let w = ws_unit_at(s, i);
    if w == 0 {
        i
    } else {
        proof {
            assert(i + w <= n);
            assert(s@.skip(i as int).skip(ws_len_at(s@.skip(i as int)) as int) =~= s@.skip(i + w));
        }
        trim_lo(s, i + w)
    }
}

fn tail_ws_unit(s: &[u8], j: usize) -> (w: usize)
    requires
        j <= s@.len(),
    ensures
        w == tail_ws_len(s@.take(j as int)),
        w <= j,
{
    if j >= 2 && s[j - 2] == 0xC2 && s[j - 1] == 0xA0 {
        2
    } else if j >= 1 && (s[j - 1] == 0x20 || s[j - 1] == 0x09 || s[j - 1] == 0x0A || s[j - 1]
        == 0x0B || s[j - 1] == 0x0C || s[j - 1] == 0x0D) {
        1
    } else {
        0
    }
}

fn trim_hi(s: &[u8], j: usize) -> (hi: usize)
    requires
        j <= s@.len(),
    ensures
        hi <= j,
        s@.take(hi as int) == trim_end(s@.take(j as int)),
    decreases j,
{
    let w = tail_ws_unit(s, j);
    if w == 0 {
        j
    } else {
        proof {
            assert(s@.take(j as int).take(s@.take(j as int).len() - tail_ws_len(s@.take(j as int)))
                =~= s@.take(j - w));
        }
        trim_hi(s, j - w)
    }
}

/// `s` with leading and trailing whitespace removed (ASCII whitespace or
/// a UTF-8 no-break space, as a Unicode-aware trim would do on the pages
/// the adapters read).
pub fn trim_bytes(s: &[u8]) -> (r: Vec<u8>)
    ensures
        r@ == trim_ws(s@),
{
    let lo = trim_lo(s, 0);
    proof {
        assert(s@.skip(0) =~= s@);
    }
    let rest = vstd::slice::slice_subrange(s, lo, s.len());
    proof {
        assert(rest@ =~= s@.skip(lo as int));
    }
    let hi = trim_hi(rest, rest.len());
    proof {
        assert(rest@.take(rest@.len() as int) =~= rest@);
        assert(rest@.take(hi as int) =~= rest@.subrange(0, hi as int));
    }
    copy_bytes(vstd::slice::slice_subrange(rest, 0, hi))
}

/// Value in microdegrees of a fractional part: the first six fractional
/// digits, scaled so that "5" means 500_000; digits beyond the sixth are
/// truncated.
pub open spec fn frac_udeg(fr: Seq<u8>) -> nat {
    let k: nat = if fr.len() < 6 {
        fr.len()
    } else {
        6
    };
    dec_val(fr.take(k as int)) * pow10((6 - k) as nat)
}

/// A decimal coordinate string read exactly into microdegrees: an optional
/// leading minus sign, a non-empty run of digits, and an optional dot with
/// a (possibly empty) run of fractional digits. Anything else is `None`.
pub open spec fn coord_udeg(s: Seq<u8>) -> Option<int> {
    let neg = s.len() > 0 && s[0] == 0x2D;
    let t = if neg {
        s.drop_first()
    } else {
        s
    };
    let ip = prefix_to(t, 0x2E);
    let fp = match after_first(t, 0x2E) {
        Some(f) => f,
        None => seq![],
    };
    if ip.len() > 0 && all_digits(ip) && all_digits(fp) {
        let mag = dec_val(ip) * 1000000 + frac_udeg(fp);
        if neg {
            Some(-(mag as int))
        } else {
            Some(mag as int)
        }
    } else {
        None
    }
}

/// Whether every byte of `s` is an ASCII decimal digit.
pub fn digits_all(s: &[u8]) -> (b: bool)
    ensures
        b == all_digits(s@),
{
    let mut i: usize = 0;
    while i < s.len()
        invariant
            i <= s@.len(),
            forall|j: int| 0 <= j < i ==> is_digit(#[trigger] s@[j]),
        decreases s@.len() - i,
    {
        let b = s[i];
        if b < 0x30 || b > 0x39 {
            proof {
                assert(!is_digit(s@[i as int]));
            }
            return false;
        }
        i = i + 1;
    }
    true
}

/// Scale a run of fractional digits to microdegrees (six places, digits
/// beyond the sixth truncated).
fn frac_to_udeg(fp: &[u8]) -> (r: u64)
    requires
        all_digits(fp@),
    ensures
        r == frac_udeg(fp@),
        r < 1000000,
{
    let k: usize = if fp.len() < 6 {
        fp.len()
    } else {
        6
    };
    let fhead = vstd::slice::slice_subrange(fp, 0, k);
    proof {
        assert(fhead@ =~= fp@.take(k as int));
        assert(all_digits(fhead@));
        lemma_dec_val_bound(fhead@);
    }
    let fval: u64 = if k == 0 {
        0
    } else {
        match parse_u64_digits(fhead) {
            Some(v) => v,
            None => {
                // Unreachable: one to six fractional digits always parse.
                proof {
                    lemma_pow10_le(k as nat, 6);
                    reveal_with_fuel(pow10, 8);
                    assert(false);
                }
                0
            },
        }
    };
    proof {
        if k == 0 {
            assert(fp@.take(0) =~= Seq::<u8>::empty());
        }
        assert(fval == dec_val(fp@.take(k as int)));
    }
    let mut frac: u64 = fval;
    let mut j: usize = k;
    proof {
        assert(pow10(0) == 1);
        assert(dec_val(fp@.take(k as int)) * 1 == dec_val(fp@.take(k as int))) by (nonlinear_arith);
    }
    while j < 6
        invariant
            k <= j <= 6,
            k == if fp@.len() < 6 {
                fp@.len() as int
            } else {
                6
            },
            frac == dec_val(fp@.take(k as int)) * pow10((j - k) as nat),
            frac < pow10(j as nat),
        decreases 6 - j,
    {
        proof {
            reveal_with_fuel(pow10, 8);
            assert(pow10((j + 1 - k) as nat) == 10 * pow10((j - k) as nat));
            assert(dec_val(fp@.take(k as int)) * (10 * pow10((j - k) as nat)) == (dec_val(
                fp@.take(k as int),
            ) * pow10((j - k) as nat)) * 10) by (nonlinear_arith);
            lemma_pow10_le(j as nat, 5);
        }
        frac = frac * 10;
        j = j + 1;
    }
    proof {
        reveal_with_fuel(pow10, 8);
        assert(frac == frac_udeg(fp@));
    }
    frac
}

/// Parse a decimal coordinate string into microdegrees. Returns the exact
/// value of `coord_udeg` whenever that value has a magnitude of at most
/// `i64::MAX`, and `None` otherwise.
pub fn parse_coord_udeg(s: &[u8]) -> (r: Option<i64>)
    ensures
        match coord_udeg(s@) {
            Some(v) => {
                if -0x7fff_ffff_ffff_ffff <= v <= 0x7fff_ffff_ffff_ffff {
                    r is Some && r->Some_0 == v
                } else {
                    r is None
                }
            },
            None => r is None,
        },
{
    let neg = s.len() > 0 && s[0] == 0x2D;
    let t: &[u8] = if neg {
        vstd::slice::slice_subrange(s, 1, s.len())
    } else {
        s
    };
    proof {
        if neg {
            assert(t@ =~= s@.drop_first());
        }
    }
    let ip = piece_before(t, 0x2E);
    let fp: Vec<u8> = match piece_after(t, 0x2E) {
        Some(f) => f,
        None => Vec::new(),
    };
    proof {
        if after_first(t@, 0x2E) is None {
            assert(fp@ =~= seq![]);
        }
    }
    // The fractional digits are checked first so that a failed integer
    // parse below can only mean a malformed or oversized integer part.
    if !digits_all(fp.as_slice()) {
        return None;
    }
    let frac: u64 = frac_to_udeg(fp.as_slice());
    let ipv: u64 = match parse_u64_digits(ip.as_slice()) {
        Some(v) => v,
        None => {
            proof {
                if ip@.len() > 0 && all_digits(ip@) {
                    // The integer part alone already exceeds `u64::MAX`,
                    // so the coordinate magnitude exceeds `i64::MAX`.
                    assert(dec_val(ip@) > u64::MAX);
                    assert(dec_val(ip@) * 1000000 >= dec_val(ip@) * 1) by (nonlinear_arith);
                }
            }
            return None;
        },
    };
    let mag: u64 = match ipv.checked_mul(1000000) {
        Some(v) => v,
        None => {
            proof {
                assert(dec_val(ip@) * 1000000 + frac_udeg(fp@) > 0x7fff_ffff_ffff_ffff);
            }
            return None;
        },
    };
    let mag: u64 = match mag.checked_add(frac) {
        Some(v) => v,
        None => {
            proof {
                assert(dec_val(ip@) * 1000000 + frac_udeg(fp@) > 0x7fff_ffff_ffff_ffff);
            }
            return None;
        },
    };
    if mag > 0x7fff_ffff_ffff_ffff {
        proof {
            assert(dec_val(ip@) * 1000000 + frac_udeg(fp@) > 0x7fff_ffff_ffff_ffff);
        }
        return None;
    }
    let m = mag as i64;
    if neg {
        Some(-m)
    } else {
        Some(m)
    }
}

/// `pow10` is monotone.
pub proof fn lemma_pow10_le(a: nat, b: nat)
    requires
        a <= b,
    ensures
        pow10(a) <= pow10(b),
    decreases b,
{
    if a < b {
        lemma_pow10_le(a, (b - 1) as nat);
        assert(pow10(b) == 10 * pow10((b - 1) as nat));
    }
}

} // verus!
