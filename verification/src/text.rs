//! Character-sequence utilities shared by the rest of the library:
//! whitespace trimming, containment tests, decimal rendering and the
//! case-folding hook.

use vstd::prelude::*;
use vstd::string::StrSliceExecFns;

verus! {

// ---------------------------------------------------------------------------
// Whitespace and trimming
// ---------------------------------------------------------------------------

pub open spec fn is_ws_char(c: char) -> bool {
    c == ' ' || c == '\t' || c == '\n' || c == '\r'
}

/// Executable counterpart of `is_ws_char`.
pub fn is_ws(c: char) -> (r: bool)
    ensures
        r == is_ws_char(c),
{
    c == ' ' || c == '\t' || c == '\n' || c == '\r'
}

pub open spec fn trim_start_spec(s: Seq<char>) -> Seq<char>
    decreases s.len(),
{
    if s.len() > 0 && is_ws_char(s[0]) {
        trim_start_spec(s.drop_first())
    } else {
        s
    }
}

pub open spec fn trim_end_spec(s: Seq<char>) -> Seq<char>
    decreases s.len(),
{
    if s.len() > 0 && is_ws_char(s.last()) {
        trim_end_spec(s.drop_last())
    } else {
        s
    }
}

/// The characters of `s` with leading and trailing whitespace removed.
pub open spec fn trim_spec(s: Seq<char>) -> Seq<char> {
    trim_end_spec(trim_start_spec(s))
}

proof fn lemma_trim_start_subrange(s: Seq<char>, i: int)
    requires
        0 <= i <= s.len(),
        forall|k: int| 0 <= k < i ==> is_ws_char(s[k]),
        i == s.len() || !is_ws_char(s[i]),
    ensures
        trim_start_spec(s) == s.subrange(i, s.len() as int),
    decreases i,
{
    if i == 0 {
        assert(s.subrange(0, s.len() as int) =~= s);
    } else {
        let t = s.drop_first();
        assert(forall|k: int| 0 <= k < i - 1 ==> is_ws_char(#[trigger] t[k]));
        lemma_trim_start_subrange(t, i - 1);
        assert(t.subrange(i - 1, t.len() as int) =~= s.subrange(i, s.len() as int));
    }
}

proof fn lemma_trim_end_subrange(s: Seq<char>, j: int)
    requires
        0 <= j <= s.len(),
        forall|k: int| j <= k < s.len() ==> is_ws_char(s[k]),
        j == 0 || !is_ws_char(s[j - 1]),
    ensures
        trim_end_spec(s) == s.subrange(0, j),
    decreases s.len() - j,
{
    if j == s.len() {
        if s.len() > 0 && is_ws_char(s.last()) {
            assert(false);
        }
        assert(s.subrange(0, j) =~= s);
    } else {
        let t = s.drop_last();
        assert(is_ws_char(s.last()));
        assert(forall|k: int| j <= k < t.len() ==> is_ws_char(#[trigger] t[k]));
        lemma_trim_end_subrange(t, j);
        assert(t.subrange(0, j) =~= s.subrange(0, j));
    }
}

/// If neither end of a non-empty sequence is whitespace, trimming keeps it.
pub proof fn lemma_trim_id(s: Seq<char>)
    requires
        s.len() > 0,
        !is_ws_char(s[0]),
        !is_ws_char(s.last()),
    ensures
        trim_spec(s) == s,
{
    lemma_trim_start_subrange(s, 0);
    assert(trim_start_spec(s) =~= s);
    lemma_trim_end_subrange(s, s.len() as int);
    assert(trim_end_spec(s) =~= s);
}

/// Trimming twice removes no more than trimming once.
pub proof fn lemma_trim_idempotent(s: Seq<char>)
    ensures
        trim_spec(trim_spec(s)) == trim_spec(s),
{
    let t = trim_spec(s);
    if t.len() == 0 {
        assert(trim_start_spec(t) == t);
        assert(trim_end_spec(t) == t);
    } else {
        lemma_trim_end_ends(trim_start_spec(s));
        lemma_trim_start_starts(s);
        lemma_trim_start_within(s);
        lemma_trim_id(t);
    }
}

/// A non-empty trim_start result does not start with whitespace.
proof fn lemma_trim_start_starts(s: Seq<char>)
    ensures
        trim_start_spec(s).len() > 0 ==> !is_ws_char(trim_start_spec(s)[0]),
    decreases s.len(),
{
    if s.len() > 0 && is_ws_char(s[0]) {
        lemma_trim_start_starts(s.drop_first());
    }
}

/// trim_end keeps a prefix, so it keeps the first character.
proof fn lemma_trim_end_ends(s: Seq<char>)
    ensures
        trim_end_spec(s).len() > 0 ==> !is_ws_char(trim_end_spec(s).last()),
        trim_end_spec(s).len() <= s.len(),
        forall|k: int|
            0 <= k < trim_end_spec(s).len() ==> #[trigger] trim_end_spec(s)[k] == s[k],
    decreases s.len(),
{
    if s.len() > 0 && is_ws_char(s.last()) {
        lemma_trim_end_ends(s.drop_last());
    }
}

/// The characters trim_spec keeps are characters of trim_start_spec.
proof fn lemma_trim_start_within(s: Seq<char>)
    ensures
        trim_spec(s).len() > 0 ==> !is_ws_char(trim_spec(s)[0]),
{
    lemma_trim_start_starts(s);
    lemma_trim_end_ends(trim_start_spec(s));
}

/// Remove leading and trailing whitespace.
pub fn trim_str(s: &str) -> (r: String)
    ensures
        r@ == trim_spec(s@),
{
    let n = s.unicode_len();
    let mut i: usize = 0;
    while i < n && is_ws(s.get_char(i))
        invariant
            n == s@.len(),
            0 <= i <= n,
            forall|k: int| 0 <= k < i ==> is_ws_char(s@[k]),
        decreases n - i,
    {
        i = i + 1;
    }
    proof {
        lemma_trim_start_subrange(s@, i as int);
    }
    let mut j: usize = n;
    while j > i && is_ws(s.get_char(j - 1))
        invariant
            n == s@.len(),
            0 <= i <= j <= n,
            forall|k: int| j <= k < n ==> is_ws_char(s@[k]),
        decreases j,
    {
        j = j - 1;
    }
    let sub = s.substring_char(i, j);
    proof {
        let t = trim_start_spec(s@);
        assert(t == s@.subrange(i as int, n as int));
        assert(forall|k: int|
            (j - i) <= k < t.len() ==> is_ws_char(#[trigger] t[k]) && t[k] == s@[k + i]);
        if j > i {
            assert(t[j - i - 1] == s@[j - 1]);
        }
        lemma_trim_end_subrange(t, j - i);
        assert(t.subrange(0, j - i) =~= s@.subrange(i as int, j as int));
    }
    sub.to_owned()
}

// ---------------------------------------------------------------------------
// Drive-path normalization
// ---------------------------------------------------------------------------

/// A trimmed bare drive letter (`X:`) or drive letter with separator (`X:\`)
/// becomes the qualified form `<prefix>X:`; anything else passes through
/// trimmed but otherwise unchanged.
pub open spec fn drive_normalize_spec(prefix: Seq<char>, v: Seq<char>) -> Seq<char> {
    let t = trim_spec(v);
    if t.len() == 2 && t[1] == ':' {
        prefix + seq![t[0], ':']
    } else if t.len() == 3 && t[1] == ':' && t[2] == '\\' {
        prefix + seq![t[0], ':']
    } else {
        t
    }
}

/// Normalizing an already-normalized path returns it unchanged.
pub proof fn lemma_drive_normalize_idempotent(prefix: Seq<char>, v: Seq<char>)
    requires
        prefix.len() == 4,
        !is_ws_char(prefix[0]),
    ensures
        drive_normalize_spec(prefix, drive_normalize_spec(prefix, v)) == drive_normalize_spec(
            prefix,
            v,
        ),
{
    let t = trim_spec(v);
    lemma_trim_idempotent(v);
    if (t.len() == 2 && t[1] == ':') || (t.len() == 3 && t[1] == ':' && t[2] == '\\') {
        let u = prefix + seq![t[0], ':'];
        assert(u.len() == 6);
        assert(u[0] == prefix[0]);
        assert(u.last() == ':');
        lemma_trim_id(u);
    }
}

// ---------------------------------------------------------------------------
// Containment
// ---------------------------------------------------------------------------

/// Whether the character `c` occurs in `s`.
pub fn str_contains_char(s: &str, c: char) -> (r: bool)
    ensures
        r == s@.contains(c),
{
    let n = s.unicode_len();
    let mut i: usize = 0;
    while i < n
        invariant
            n == s@.len(),
            0 <= i <= n,
            forall|k: int| 0 <= k < i ==> s@[k] != c,
        decreases n - i,
    {
        if s.get_char(i) == c {
            assert(s@[i as int] == c);
            return true;
        }
        i = i + 1;
    }
    assert(!s@.contains(c));
    false
}

/// `p` occurs as a contiguous run of characters inside `t`.
pub open spec fn contains_seq(t: Seq<char>, p: Seq<char>) -> bool {
    exists|i: int| 0 <= i && i + p.len() <= t.len() && #[trigger] t.subrange(i, i + p.len()) == p
}

/// Substring search: whether the characters of `p` occur contiguously in `t`.
pub fn str_contains_str(t: &str, p: &str) -> (r: bool)
    ensures
        r == contains_seq(t@, p@),
{
    let tn = t.unicode_len();
    let pn = p.unicode_len();
    if pn > tn {
        assert(!contains_seq(t@, p@));
        return false;
    }
    if pn == 0 {
        assert(t@.subrange(0, 0 + p@.len() as int) =~= p@);
        return true;
    }
    let mut i: usize = 0;
    while i <= tn - pn
        invariant
            tn == t@.len(),
            pn == p@.len(),
            0 < pn <= tn,
            0 <= i <= tn - pn + 1,
            forall|k: int| 0 <= k < i ==> #[trigger] t@.subrange(k, k + pn) != p@,
        decreases tn - i,
    {
        let mut j: usize = 0;
        let mut mismatch = false;
        while j < pn && !mismatch
            invariant
                tn == t@.len(),
                pn == p@.len(),
                0 <= i <= tn - pn,
                0 <= j <= pn,
                !mismatch ==> forall|k: int| 0 <= k < j ==> t@[i + k] == p@[k],
                mismatch ==> t@.subrange(i as int, i + pn) != p@,
            decreases pn - j + (if mismatch { 0int } else { 1int }),
        {
            if t.get_char(i + j) != p.get_char(j) {
                assert(t@.subrange(i as int, i + pn)[j as int] == t@[i + j]);
                mismatch = true;
            } else {
                j = j + 1;
            }
        }
        if !mismatch {
            assert(t@.subrange(i as int, i + pn) =~= p@);
            return true;
        }
        i = i + 1;
    }
    assert(!contains_seq(t@, p@));
    false
}

// ---------------------------------------------------------------------------
// Decimal rendering
// ---------------------------------------------------------------------------

pub open spec fn dec_digit_char(d: nat) -> char {
    if d == 0 {
        '0'
    } else if d == 1 {
        '1'
    } else if d == 2 {
        '2'
    } else if d == 3 {
        '3'
    } else if d == 4 {
        '4'
    } else if d == 5 {
        '5'
    } else if d == 6 {
        '6'
    } else if d == 7 {
        '7'
    } else if d == 8 {
        '8'
    } else {
        '9'
    }
}

/// The decimal digits of `n`, most significant first.
pub open spec fn dec_str(n: nat) -> Seq<char>
    decreases n,
{
    if n < 10 {
        seq![dec_digit_char(n)]
    } else {
        dec_str(n / 10).push(dec_digit_char(n % 10))
    }
}

/// The decimal rendering of a signed value: a minus sign before the digits.
pub open spec fn dec_str_signed(n: int) -> Seq<char> {
    if n < 0 {
        seq!['-'] + dec_str((-n) as nat)
    } else {
        dec_str(n as nat)
    }
}

fn digit_char(d: u128) -> (c: char)
    requires
        d < 10,
    ensures
        c == dec_digit_char(d as nat),
{
    if d == 0 {
        '0'
    } else if d == 1 {
        '1'
    } else if d == 2 {
        '2'
    } else if d == 3 {
        '3'
    } else if d == 4 {
        '4'
    } else if d == 5 {
        '5'
    } else if d == 6 {
        '6'
    } else if d == 7 {
        '7'
    } else if d == 8 {
        '8'
    } else {
        '9'
    }
}

/// Render `n` in decimal, most significant digit first.
pub fn u128_to_dec_chars(n: u128) -> (r: Vec<char>)
    ensures
        r@ == dec_str(n as nat),
{
    let mut digits: Vec<char> = Vec::new();
    let mut cur: u128 = n;
    while cur >= 10
        invariant
            dec_str(n as nat) == dec_str(cur as nat) + digits@,
        decreases cur,
    {
        let d = cur % 10;
        let c = digit_char(d);
        digits.insert(0, c);
        proof {
            assert(dec_str(cur as nat) == dec_str((cur as nat) / 10).push(dec_digit_char(
                (cur as nat) % 10,
            )));
            assert((cur as nat) / 10 == ((cur / 10) as nat));
            assert((cur as nat) % 10 == ((cur % 10) as nat));
            assert(dec_str(cur as nat) + digits@.drop_first() =~= dec_str(((cur / 10) as nat))
                + digits@);
        }
        cur = cur / 10;
    }
    let c = digit_char(cur);
    let mut out: Vec<char> = Vec::new();
    out.push(c);
    out.append(&mut digits);
    proof {
        assert(dec_str(cur as nat) =~= seq![dec_digit_char(cur as nat)]);
        assert(out@ =~= dec_str(n as nat));
    }
    out
}

/// Render an unsigned 64-bit value in decimal.
pub fn u64_to_dec_chars(n: u64) -> (r: Vec<char>)
    ensures
        r@ == dec_str(n as nat),
{
    u128_to_dec_chars(n as u128)
}

/// Render an unsigned 32-bit value in decimal.
pub fn u32_to_dec_chars(n: u32) -> (r: Vec<char>)
    ensures
        r@ == dec_str(n as nat),
{
    u128_to_dec_chars(n as u128)
}

/// Render a signed 64-bit value in decimal.
pub fn i64_to_dec_chars(n: i64) -> (r: Vec<char>)
    ensures
        r@ == dec_str_signed(n as int),
{
    if n >= 0 {
        u128_to_dec_chars(n as u128)
    } else {
        let wide: i128 = n as i128;
        let mag: u128 = (-wide) as u128;
        let mut out: Vec<char> = Vec::new();
        out.push('-');
        let mut ds = u128_to_dec_chars(mag);
        out.append(&mut ds);
        proof {
            assert(out@ =~= dec_str_signed(n as int));
        }
        out
    }
}

// ---------------------------------------------------------------------------
// String building
// ---------------------------------------------------------------------------

/// Append the characters of `s` to `out`.
pub fn append_str(out: &mut Vec<char>, s: &str)
    ensures
        final(out)@ == old(out)@ + s@,
{
    let n = s.unicode_len();
    let mut i: usize = 0;
    while i < n
        invariant
            n == s@.len(),
            0 <= i <= n,
            out@ == old(out)@ + s@.take(i as int),
        decreases n - i,
    {
        out.push(s.get_char(i));
        proof {
            assert(s@.take(i + 1) =~= s@.take(i as int).push(s@[i as int]));
        }
        i = i + 1;
    }
    proof {
        assert(s@.take(n as int) =~= s@);
    }
}

/// Relies on std's `String: FromIterator<char>`: collecting the characters
/// of the vector yields the string of exactly those characters in order.
#[verifier::external_body]
pub fn chars_to_string(v: Vec<char>) -> (s: String)
    ensures
        s@ == v@,
{
    v.into_iter().collect()
}

/// The case folding that `str::to_lowercase` performs; the result depends on
/// the characters of the input alone.
pub uninterp spec fn lower_of(s: Seq<char>) -> Seq<char>;

/// Relies on `str::to_lowercase`: the result is a function of the input
/// characters alone, and an empty input stays empty.
#[verifier::external_body]
pub fn to_lower(s: &str) -> (r: String)
    ensures
        r@ == lower_of(s@),
        s@.len() == 0 ==> r@.len() == 0,
{
    s.to_lowercase()
}

/// Character-by-character string equality.
pub fn str_eq(a: &str, b: &str) -> (r: bool)
    ensures
        r == (a@ == b@),
{
    let an = a.unicode_len();
    let bn = b.unicode_len();
    if an != bn {
        return false;
    }
    let mut i: usize = 0;
    while i < an
        invariant
            an == a@.len(),
            an == b@.len(),
            0 <= i <= an,
            forall|k: int| 0 <= k < i ==> a@[k] == b@[k],
        decreases an - i,
    {
        if a.get_char(i) != b.get_char(i) {
            return false;
        }
        i = i + 1;
    }
    proof {
        assert(a@ =~= b@);
    }
    true
}

} // verus!
