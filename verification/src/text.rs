//! Character classes and string primitives that the rest of the crate builds
//! on: whitespace and ASCII classes, trimming, splitting, case mapping,
//! substring search and decimal rendering, all over `Seq<char>` models.

use vstd::prelude::*;

verus! {

/// `char::is_whitespace`: the Unicode `White_Space` property.
pub open spec fn is_ws(c: char) -> bool {
    let u = c as u32;
    ||| 0x09 <= u <= 0x0D
    ||| u == 0x20
    ||| u == 0x85
    ||| u == 0xA0
    ||| u == 0x1680
    ||| 0x2000 <= u <= 0x200A
    ||| u == 0x2028
    ||| u == 0x2029
    ||| u == 0x202F
    ||| u == 0x205F
    ||| u == 0x3000
}

/// `char::is_ascii_alphanumeric`.
pub open spec fn is_ascii_alnum(c: char) -> bool {
    let u = c as u32;
    ||| 0x30 <= u <= 0x39
    ||| 0x41 <= u <= 0x5A
    ||| 0x61 <= u <= 0x7A
}

/// `char::is_control`: the Unicode general category `Cc`.
pub open spec fn is_control(c: char) -> bool {
    let u = c as u32;
    u <= 0x1F || 0x7F <= u <= 0x9F
}

pub open spec fn is_ascii_upper(c: char) -> bool {
    0x41 <= (c as u32) <= 0x5A
}

pub open spec fn is_ascii_lower(c: char) -> bool {
    0x61 <= (c as u32) <= 0x7A
}

/// `char::to_ascii_lowercase`.
pub open spec fn ascii_lower(c: char) -> char {
    if is_ascii_upper(c) {
        ((c as u32) + 32) as char
    } else {
        c
    }
}

/// `char::to_ascii_uppercase`.
pub open spec fn ascii_upper(c: char) -> char {
    if is_ascii_lower(c) {
        ((c as u32) - 32) as char
    } else {
        c
    }
}

pub open spec fn lower_seq(s: Seq<char>) -> Seq<char> {
    s.map_values(|c: char| ascii_lower(c))
}

pub open spec fn upper_seq(s: Seq<char>) -> Seq<char> {
    s.map_values(|c: char| ascii_upper(c))
}

pub fn char_is_whitespace(c: char) -> (b: bool)
    ensures
        b == is_ws(c),
{
    let u = c as u32;
    (0x09 <= u && u <= 0x0D) || u == 0x20 || u == 0x85 || u == 0xA0 || u == 0x1680 || (0x2000
        <= u && u <= 0x200A) || u == 0x2028 || u == 0x2029 || u == 0x202F || u == 0x205F || u
        == 0x3000
}

pub fn char_is_ascii_alnum(c: char) -> (b: bool)
    ensures
        b == is_ascii_alnum(c),
{
    let u = c as u32;
    (0x30 <= u && u <= 0x39) || (0x41 <= u && u <= 0x5A) || (0x61 <= u && u <= 0x7A)
}

pub fn char_is_control(c: char) -> (b: bool)
    ensures
        b == is_control(c),
{
    let u = c as u32;
    u <= 0x1F || (0x7F <= u && u <= 0x9F)
}

pub fn char_to_ascii_lower(c: char) -> (r: char)
    ensures
        r == ascii_lower(c),
{
    let u = c as u32;
    if 0x41 <= u && u <= 0x5A {
        let b = (u + 32) as u8;
        assert(b as u32 == u + 32);
        let r = b as char;
        assert(r as u32 == u + 32);
        r
    } else {
        c
    }
}

pub fn char_to_ascii_upper(c: char) -> (r: char)
    ensures
        r == ascii_upper(c),
{
    let u = c as u32;
    if 0x61 <= u && u <= 0x7A {
        let b = (u - 32) as u8;
        assert(b as u32 == u - 32);
        let r = b as char;
        assert(r as u32 == u - 32);
        r
    } else {
        c
    }
}

/// `String::push`: appends one character.
#[verifier::external_body]
pub(crate) fn push_char(s: &mut String, c: char)
    ensures
        final(s)@ == old(s)@.push(c),
{
    s.push(c);
}

/// The characters of `s`, in order.
pub fn chars_of(s: &str) -> (v: Vec<char>)
    ensures
        v@ == s@,
{
    let n = s.unicode_len();
    let mut v: Vec<char> = Vec::new();
    let mut i: usize = 0;
    while i < n
        invariant
            n == s@.len(),
            i <= n,
            v@ == s@.take(i as int),
        decreases n - i,
    {
        let c = s.get_char(i);
        v.push(c);
        i = i + 1;
        assert(v@ =~= s@.take(i as int));
    }
    assert(v@ =~= s@);
    v
}

/// The string made of the characters of `v`.
pub fn string_of(v: &Vec<char>) -> (s: String)
    ensures
        s@ == v@,
{
    let mut s = String::new();
    let mut i: usize = 0;
    while i < v.len()
        invariant
            i <= v.len(),
            s@ == v@.take(i as int),
        decreases v.len() - i,
    {
        push_char(&mut s, v[i]);
        i = i + 1;
        assert(s@ =~= v@.take(i as int));
    }
    assert(v@.take(v.len() as int) =~= v@);
    s
}

/// Appends the characters of `t` to `s`.
pub fn push_seq(s: &mut String, t: &Vec<char>)
    ensures
        final(s)@ == old(s)@ + t@,
{
    let mut i: usize = 0;
    while i < t.len()
        invariant
            i <= t.len(),
            s@ == old(s)@ + t@.take(i as int),
        decreases t.len() - i,
    {
        push_char(s, t[i]);
        i = i + 1;
        assert(s@ =~= old(s)@ + t@.take(i as int));
    }
    assert(t@.take(t.len() as int) =~= t@);
}

/// Appends `t` to `s`.
pub fn push_str(s: &mut String, t: &str)
    ensures
        final(s)@ == old(s)@ + t@,
{
    let v = chars_of(t);
    push_seq(s, &v);
}

// ---------------------------------------------------------------------------
// Trimming
// ---------------------------------------------------------------------------

/// Drops the leading characters that satisfy `p`.
pub open spec fn strip_start(s: Seq<char>, p: spec_fn(char) -> bool) -> Seq<char>
    decreases s.len(),
{
    if s.len() > 0 && p(s[0]) {
        strip_start(s.drop_first(), p)
    } else {
        s
    }
}

/// Drops the trailing characters that satisfy `p`.
pub open spec fn strip_end(s: Seq<char>, p: spec_fn(char) -> bool) -> Seq<char>
    decreases s.len(),
{
    if s.len() > 0 && p(s.last()) {
        strip_end(s.drop_last(), p)
    } else {
        s
    }
}

/// `str::trim_matches` with a predicate: both ends stripped.
pub open spec fn trim_by(s: Seq<char>, p: spec_fn(char) -> bool) -> Seq<char> {
    strip_end(strip_start(s, p), p)
}

/// `str::trim`: leading and trailing whitespace removed.
pub open spec fn trim_ws(s: Seq<char>) -> Seq<char> {
    trim_by(s, trim_pred(TrimSet::Whitespace))
}

/// `str::trim_end`.
pub open spec fn trim_end_ws(s: Seq<char>) -> Seq<char> {
    strip_end(s, trim_pred(TrimSet::Whitespace))
}

/// `str::trim_matches(ch)`.
pub open spec fn trim_char(s: Seq<char>, ch: char) -> Seq<char> {
    trim_by(s, trim_pred(TrimSet::Only(ch)))
}

/// Stripping a leading run of `p` characters that ends at `k` keeps
/// `s[k..]`.
pub proof fn lemma_strip_start(s: Seq<char>, p: spec_fn(char) -> bool, k: int)
    requires
        0 <= k <= s.len(),
        forall|i: int| 0 <= i < k ==> p(#[trigger] s[i]),
        k == s.len() || !p(s[k]),
    ensures
        strip_start(s, p) == s.subrange(k, s.len() as int),
    decreases k,
{
    if k == 0 {
        assert(s.subrange(0, s.len() as int) =~= s);
    } else {
        assert(p(s[0]));
        let t = s.drop_first();
        assert forall|i: int| 0 <= i < k - 1 implies p(#[trigger] t[i]) by {
            assert(t[i] == s[i + 1]);
        }
        if k - 1 < t.len() {
            assert(t[k - 1] == s[k]);
        }
        lemma_strip_start(t, p, k - 1);
        assert(t.subrange(k - 1, t.len() as int) =~= s.subrange(k, s.len() as int));
    }
}

/// Stripping a trailing run of `p` characters that starts at `j` keeps
/// `s[..j]`.
pub proof fn lemma_strip_end(s: Seq<char>, p: spec_fn(char) -> bool, j: int)
    requires
        0 <= j <= s.len(),
        forall|i: int| j <= i < s.len() ==> p(#[trigger] s[i]),
        j == 0 || !p(s[j - 1]),
    ensures
        strip_end(s, p) == s.subrange(0, j),
    decreases s.len() - j,
{
    if j == s.len() {
        assert(s.subrange(0, j) =~= s);
        if s.len() > 0 {
            assert(s.last() == s[j - 1]);
        }
    } else {
        assert(p(s.last()));
        let t = s.drop_last();
        assert forall|i: int| j <= i < t.len() implies p(#[trigger] t[i]) by {
            assert(t[i] == s[i]);
        }
        if j > 0 {
            assert(t[j - 1] == s[j - 1]);
        }
        lemma_strip_end(t, p, j);
        assert(t.subrange(0, j) =~= s.subrange(0, j));
    }
}

/// Which characters a trim removes.
#[derive(Clone, Copy)]
pub enum TrimSet {
    Whitespace,
    Only(char),
}

pub open spec fn trim_pred(set: TrimSet) -> spec_fn(char) -> bool {
    match set {
        TrimSet::Whitespace => |c: char| is_ws(c),
        TrimSet::Only(ch) => |c: char| c == ch,
    }
}

pub fn trim_set_matches(set: TrimSet, c: char) -> (b: bool)
    ensures
        b == trim_pred(set)(c),
{
    match set {
        TrimSet::Whitespace => char_is_whitespace(c),
        TrimSet::Only(ch) => c == ch,
    }
}

/// The bounds `(start, end)` of what is left of `v` after trimming.
pub fn trim_bounds(v: &Vec<char>, set: TrimSet) -> (r: (usize, usize))
    ensures
        r.0 <= r.1 <= v.len(),
        v@.subrange(r.0 as int, r.1 as int) == trim_by(v@, trim_pred(set)),
{
    let ghost p = trim_pred(set);
    let mut i: usize = 0;
    while i < v.len() && trim_set_matches(set, v[i])
        invariant
            i <= v.len(),
            p == trim_pred(set),
            forall|k: int| 0 <= k < i ==> p(#[trigger] v@[k]),
        decreases v.len() - i,
    {
        i = i + 1;
    }
    proof {
        lemma_strip_start(v@, p, i as int);
    }
    let ghost mid = v@.subrange(i as int, v.len() as int);
    let mut j: usize = v.len();
    while j > i && trim_set_matches(set, v[j - 1])
        invariant
            i <= j <= v.len(),
            p == trim_pred(set),
            mid == v@.subrange(i as int, v.len() as int),
            forall|k: int| j <= k < v.len() ==> p(#[trigger] v@[k]),
        decreases j,
    {
        j = j - 1;
    }
    proof {
        assert forall|k: int| j - i <= k < mid.len() implies p(#[trigger] mid[k]) by {
            assert(mid[k] == v@[k + i]);
        }
        if j > i {
            assert(mid[j - i - 1] == v@[j - 1]);
        }
        lemma_strip_end(mid, p, j - i);
        assert(mid.subrange(0, j - i) =~= v@.subrange(i as int, j as int));
    }
    (i, j)
}

/// `v` with the characters of `set` stripped from both ends.
pub fn trim_vec(v: &Vec<char>, set: TrimSet) -> (r: Vec<char>)
    ensures
        r@ == trim_by(v@, trim_pred(set)),
{
    let (a, b) = trim_bounds(v, set);
    let mut r: Vec<char> = Vec::new();
    let mut k = a;
    while k < b
        invariant
            a <= k <= b <= v.len(),
            r@ == v@.subrange(a as int, k as int),
        decreases b - k,
    {
        r.push(v[k]);
        k = k + 1;
        assert(r@ =~= v@.subrange(a as int, k as int));
    }
    r
}

/// `str::trim` on a sequence of characters.
pub fn trim_whitespace(v: &Vec<char>) -> (r: Vec<char>)
    ensures
        r@ == trim_ws(v@),
{
    trim_vec(v, TrimSet::Whitespace)
}

/// `str::trim_matches(ch)` on a sequence of characters.
pub fn trim_matching(v: &Vec<char>, ch: char) -> (r: Vec<char>)
    ensures
        r@ == trim_char(v@, ch),
{
    trim_vec(v, TrimSet::Only(ch))
}

/// `str::trim_end` on a sequence of characters.
pub fn trim_end_whitespace(v: &Vec<char>) -> (r: Vec<char>)
    ensures
        r@ == trim_end_ws(v@),
{
    let ghost p = trim_pred(TrimSet::Whitespace);
    let mut j: usize = v.len();
    while j > 0 && char_is_whitespace(v[j - 1])
        invariant
            j <= v.len(),
            p == trim_pred(TrimSet::Whitespace),
            forall|k: int| j <= k < v.len() ==> p(#[trigger] v@[k]),
        decreases j,
    {
        j = j - 1;
    }
    proof {
        lemma_strip_end(v@, p, j as int);
    }
    let mut r: Vec<char> = Vec::new();
    let mut k: usize = 0;
    while k < j
        invariant
            k <= j <= v.len(),
            r@ == v@.subrange(0, k as int),
        decreases j - k,
    {
        r.push(v[k]);
        k = k + 1;
        assert(r@ =~= v@.subrange(0, k as int));
    }
    r
}

/// `str::trim`, returning an owned string.
pub fn trim_str(s: &str) -> (r: Vec<char>)
    ensures
        r@ == trim_ws(s@),
{
    let v = chars_of(s);
    trim_whitespace(&v)
}

// ---------------------------------------------------------------------------
// Case mapping
// ---------------------------------------------------------------------------

pub fn lower_vec(v: &Vec<char>) -> (r: Vec<char>)
    ensures
        r@ == lower_seq(v@),
{
    let mut r: Vec<char> = Vec::new();
    let mut i: usize = 0;
    while i < v.len()
        invariant
            i <= v.len(),
            r@ == lower_seq(v@.take(i as int)),
        decreases v.len() - i,
    {
        r.push(char_to_ascii_lower(v[i]));
        i = i + 1;
        assert(r@ =~= lower_seq(v@.take(i as int)));
    }
    assert(v@.take(v.len() as int) =~= v@);
    r
}

pub fn upper_vec(v: &Vec<char>) -> (r: Vec<char>)
    ensures
        r@ == upper_seq(v@),
{
    let mut r: Vec<char> = Vec::new();
    let mut i: usize = 0;
    while i < v.len()
        invariant
            i <= v.len(),
            r@ == upper_seq(v@.take(i as int)),
        decreases v.len() - i,
    {
        r.push(char_to_ascii_upper(v[i]));
        i = i + 1;
        assert(r@ =~= upper_seq(v@.take(i as int)));
    }
    assert(v@.take(v.len() as int) =~= v@);
    r
}

// ---------------------------------------------------------------------------
// Substring search
// ---------------------------------------------------------------------------

/// `str::contains` with a string pattern.
pub open spec fn has_sub(h: Seq<char>, n: Seq<char>) -> bool {
    exists|i: int| 0 <= i && i + n.len() <= h.len() && #[trigger] h.subrange(i, i + n.len()) == n
}

fn matches_at(h: &Vec<char>, n: &Vec<char>, i: usize) -> (b: bool)
    requires
        i + n.len() <= h.len(),
    ensures
        b == (h@.subrange(i as int, i + n.len()) == n@),
{
    let mut k: usize = 0;
    while k < n.len()
        invariant
            i + n.len() <= h.len(),
            k <= n.len(),
            forall|t: int| 0 <= t < k ==> h@[i + t] == n@[t],
        decreases n.len() - k,
    {
        if h[i + k] != n[k] {
            assert(h@.subrange(i as int, i + n.len())[k as int] == h@[i + k]);
            return false;
        }
        k = k + 1;
    }
    assert(h@.subrange(i as int, i + n.len()) =~= n@);
    true
}

pub fn contains_sub(h: &Vec<char>, n: &Vec<char>) -> (b: bool)
    ensures
        b == has_sub(h@, n@),
{
    if n.len() > h.len() {
        return false;
    }
    let last = h.len() - n.len();
    let mut i: usize = 0;
    while i < last
        invariant
            last == h.len() - n.len(),
            n.len() <= h.len(),
            i <= last,
            forall|j: int| 0 <= j < i ==> #[trigger] h@.subrange(j, j + n.len()) != n@,
        decreases last - i,
    {
        if matches_at(h, n, i) {
            return true;
        }
        i = i + 1;
    }
    if matches_at(h, n, last) {
        return true;
    }
    proof {
        assert forall|j: int| 0 <= j && j + n.len() <= h.len() implies #[trigger] h@.subrange(
            j,
            j + n.len(),
        ) != n@ by {
            assert(j <= last);
        }
    }
    false
}

/// `text.contains(pattern)` for a string literal pattern.
pub fn contains_str(h: &Vec<char>, pattern: &str) -> (b: bool)
    ensures
        b == has_sub(h@, pattern@),
{
    let n = chars_of(pattern);
    contains_sub(h, &n)
}

// ---------------------------------------------------------------------------
// Decimal rendering
// ---------------------------------------------------------------------------

pub open spec fn digit_char(d: nat) -> char {
    if d == 0 {
        '0'
    } else if d == 1 {
        '1'
    } else if d == 2 {
        '2'
    } else if d == 3 {
        '3'
    } else if d == 4 {
        '4'
    } else if d == 5 {
        '5'
    } else if d == 6 {
        '6'
    } else if d == 7 {
        '7'
    } else if d == 8 {
        '8'
    } else {
        '9'
    }
}

/// The decimal digits of `n`, as `Display` writes an unsigned integer.
pub open spec fn dec(n: nat) -> Seq<char>
    decreases n,
{
    if n < 10 {
        seq![digit_char(n)]
    } else {
        dec(n / 10).push(digit_char(n % 10))
    }
}

fn digit(d: u64) -> (c: char)
    requires
        d < 10,
    ensures
        c == digit_char(d as nat),
{
    if d == 0 {
        '0'
    } else if d == 1 {
        '1'
    } else if d == 2 {
        '2'
    } else if d == 3 {
        '3'
    } else if d == 4 {
        '4'
    } else if d == 5 {
        '5'
    } else if d == 6 {
        '6'
    } else if d == 7 {
        '7'
    } else if d == 8 {
        '8'
    } else {
        '9'
    }
}

/// Appends the decimal digits of `n` to `s`.
pub fn push_decimal(s: &mut String, n: u64)
    ensures
        final(s)@ == old(s)@ + dec(n as nat),
    decreases n,
{
    if n >= 10 {
        push_decimal(s, n / 10);
    }
    push_char(s, digit(n % 10));
    proof {
        if n >= 10 {
            assert(dec(n as nat) == dec((n / 10) as nat).push(digit_char((n % 10) as nat)));
        }
        assert(final(s)@ =~= old(s)@ + dec(n as nat));
    }
}

// ---------------------------------------------------------------------------
// Equality and structure lemmas
// ---------------------------------------------------------------------------

/// Character-wise equality of two sequences.
pub fn vec_chars_eq(a: &Vec<char>, b: &Vec<char>) -> (r: bool)
    ensures
        r == (a@ == b@),
{
    if a.len() != b.len() {
        return false;
    }
    let mut i: usize = 0;
    while i < a.len()
        invariant
            a.len() == b.len(),
            i <= a.len(),
            forall|k: int| 0 <= k < i ==> a@[k] == b@[k],
        decreases a.len() - i,
    {
        if a[i] != b[i] {
            return false;
        }
        i = i + 1;
    }
    assert(a@ =~= b@);
    true
}

/// `a == b` on string slices.
pub fn str_eq(a: &str, b: &str) -> (r: bool)
    ensures
        r == (a@ == b@),
{
    let va = chars_of(a);
    let vb = chars_of(b);
    vec_chars_eq(&va, &vb)
}

/// Where `strip_start` cuts: the index of the first kept character.
pub proof fn lemma_strip_start_index(s: Seq<char>, p: spec_fn(char) -> bool) -> (k: int)
    ensures
        0 <= k <= s.len(),
        strip_start(s, p) == s.subrange(k, s.len() as int),
        k < s.len() ==> !p(s[k]),
        forall|i: int| 0 <= i < k ==> p(#[trigger] s[i]),
    decreases s.len(),
{
    if s.len() > 0 && p(s[0]) {
        let t = s.drop_first();
        let k1 = lemma_strip_start_index(t, p);
        assert(t.subrange(k1, t.len() as int) =~= s.subrange(k1 + 1, s.len() as int));
        assert forall|i: int| 0 <= i < k1 + 1 implies p(#[trigger] s[i]) by {
            if i > 0 {
                assert(s[i] == t[i - 1]);
            }
        }
        if k1 + 1 < s.len() {
            assert(s[k1 + 1] == t[k1]);
        }
        k1 + 1
    } else {
        assert(s.subrange(0, s.len() as int) =~= s);
        0
    }
}

/// Where `strip_end` cuts: one past the last kept character.
pub proof fn lemma_strip_end_index(s: Seq<char>, p: spec_fn(char) -> bool) -> (j: int)
    ensures
        0 <= j <= s.len(),
        strip_end(s, p) == s.subrange(0, j),
        j > 0 ==> !p(s[j - 1]),
        forall|i: int| j <= i < s.len() ==> p(#[trigger] s[i]),
    decreases s.len(),
{
    if s.len() > 0 && p(s.last()) {
        let t = s.drop_last();
        let j1 = lemma_strip_end_index(t, p);
        assert(t.subrange(0, j1) =~= s.subrange(0, j1));
        assert forall|i: int| j1 <= i < s.len() implies p(#[trigger] s[i]) by {
            if i < t.len() {
                assert(s[i] == t[i]);
            }
        }
        if j1 > 0 {
            assert(s[j1 - 1] == t[j1 - 1]);
        }
        j1
    } else {
        assert(s.subrange(0, s.len() as int) =~= s);
        s.len() as int
    }
}

/// What `trim_by` keeps is a contiguous part of `s` whose two ends fail `p`.
pub proof fn lemma_trim_by_bounds(s: Seq<char>, p: spec_fn(char) -> bool) -> (r: (int, int))
    ensures
        0 <= r.0 <= r.1 <= s.len(),
        trim_by(s, p) == s.subrange(r.0, r.1),
        r.0 < r.1 ==> !p(s[r.0]) && !p(s[r.1 - 1]),
{
    let k = lemma_strip_start_index(s, p);
    let mid = s.subrange(k, s.len() as int);
    let j = lemma_strip_end_index(mid, p);
    assert(mid.subrange(0, j) =~= s.subrange(k, k + j));
    if j > 0 {
        assert(mid[0] == s[k]);
        assert(mid[j - 1] == s[k + j - 1]);
    }
    (k, k + j)
}

/// Trimming leaves a sequence unchanged when neither end matches.
pub proof fn lemma_trim_by_noop(s: Seq<char>, p: spec_fn(char) -> bool)
    requires
        s.len() > 0 ==> !p(s[0]) && !p(s.last()),
    ensures
        trim_by(s, p) == s,
{
    assert(strip_start(s, p) == s);
    assert(strip_end(s, p) == s);
}

/// The characters of an optional string.
pub open spec fn opt_view(o: Option<String>) -> Option<Seq<char>> {
    match o {
        Some(s) => Some(s@),
        None => None,
    }
}

/// `Some(string_of(v))` for `Some(v)`.
pub fn opt_string_of(o: Option<Vec<char>>) -> (r: Option<String>)
    ensures
        opt_view(r) == (match o {
            Some(v) => Some(v@),
            None => None,
        }),
{
    match o {
        Some(v) => Some(string_of(&v)),
        None => None,
    }
}

/// Trimming twice trims no more than once.
pub proof fn lemma_trim_idempotent(s: Seq<char>)
    ensures
        trim_ws(trim_ws(s)) == trim_ws(s),
{
    let p = trim_pred(TrimSet::Whitespace);
    let r = lemma_trim_by_bounds(s, p);
    let t = s.subrange(r.0, r.1);
    if t.len() > 0 {
        assert(t[0] == s[r.0]);
        assert(t.last() == s[r.1 - 1]);
    }
    lemma_trim_by_noop(t, p);
}

/// A text that trimming leaves alone stays so once upper-cased, and
/// upper-casing twice changes no more than once.
pub proof fn lemma_upper_trimmed(s: Seq<char>)
    requires
        trim_ws(s) == s,
    ensures
        trim_ws(upper_seq(s)) == upper_seq(s),
        upper_seq(upper_seq(s)) == upper_seq(s),
        upper_seq(s).len() == s.len(),
{
    let p = trim_pred(TrimSet::Whitespace);
    let u = upper_seq(s);
    assert(upper_seq(u) =~= u);
    if s.len() > 0 {
        let r = lemma_trim_by_bounds(s, p);
        assert(s.subrange(r.0, r.1).len() == s.len());
        assert(r.0 == 0 && r.1 == s.len());
        assert(!is_ws(s[0]) && !is_ws(s.last()));
        assert(u[0] == ascii_upper(s[0]));
        assert(u.last() == ascii_upper(s.last()));
        assert(!p(u[0]) && !p(u.last()));
    }
    lemma_trim_by_noop(u, p);
}

/// `trimmed_text` of a text already trimmed and not empty is that text.
pub proof fn lemma_trim_noop_literal(s: Seq<char>)
    requires
        forall|i: int| 0 <= i < s.len() ==> !is_ws(#[trigger] s[i]),
    ensures
        trim_ws(s) == s,
{
    let p = trim_pred(TrimSet::Whitespace);
    if s.len() > 0 {
        assert(!is_ws(s[0]));
        assert(!is_ws(s[s.len() - 1]));
    }
    lemma_trim_by_noop(s, p);
}

} // verus!
