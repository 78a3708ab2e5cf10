//! Character-level text model shared by the whole library: Unicode white
//! space, ASCII classes, trimming, prefixes, infixes, decimal rendering and
//! UTF-8 byte lengths, each as a spec function with an executable
//! counterpart proved against it.
use vstd::prelude::*;

verus! {

// ---------------------------------------------------------------------------
// Character classes
// ---------------------------------------------------------------------------

/// Unicode `White_Space`, the set `char::is_whitespace` and `str::trim` use.
pub open spec fn is_ws(c: char) -> bool {
    let u = c as u32;
    (0x09 <= u && u <= 0x0D) || u == 0x20 || u == 0x85 || u == 0xA0 || u == 0x1680
        || (0x2000 <= u && u <= 0x200A) || u == 0x2028 || u == 0x2029 || u == 0x202F
        || u == 0x205F || u == 0x3000
}

/// General category `Cc`, the set `char::is_control` answers for.
pub open spec fn is_ctrl(c: char) -> bool {
    let u = c as u32;
    u <= 0x1F || (0x7F <= u && u <= 0x9F)
}

pub open spec fn is_ascii_digit(c: char) -> bool {
    '0' <= c && c <= '9'
}

pub open spec fn is_ascii_upper(c: char) -> bool {
    'A' <= c && c <= 'Z'
}

pub open spec fn is_ascii_lower(c: char) -> bool {
    'a' <= c && c <= 'z'
}

pub open spec fn is_ascii_alnum(c: char) -> bool {
    is_ascii_digit(c) || is_ascii_upper(c) || is_ascii_lower(c)
}

pub open spec fn ascii_lower(c: char) -> char {
    if is_ascii_upper(c) {
        ((c as u32) + 32) as char
    } else {
        c
    }
}

pub open spec fn lower_seq(s: Seq<char>) -> Seq<char> {
    s.map_values(|c: char| ascii_lower(c))
}

/// The Unicode `Alphabetic` or `Numeric` property of a character, as
/// `char::is_alphanumeric` reports it.
pub uninterp spec fn unicode_alphanumeric(c: char) -> bool;

/// `char::is_alphanumeric`. The contract names the result and adds the
/// documented fact that ASCII letters and digits are alphanumeric.
#[verifier::external_body]
pub(crate) fn char_is_alphanumeric(c: char) -> (r: bool)
    ensures
        r == unicode_alphanumeric(c),
        is_ascii_alnum(c) ==> r,
{
    c.is_alphanumeric()
}

pub fn char_is_whitespace(c: char) -> (r: bool)
    ensures
        r == is_ws(c),
{
    let u = c as u32;
    (0x09 <= u && u <= 0x0D) || u == 0x20 || u == 0x85 || u == 0xA0 || u == 0x1680 || (0x2000
        <= u && u <= 0x200A) || u == 0x2028 || u == 0x2029 || u == 0x202F || u == 0x205F || u
        == 0x3000
}

pub fn char_is_control(c: char) -> (r: bool)
    ensures
        r == is_ctrl(c),
{
    let u = c as u32;
    u <= 0x1F || (0x7F <= u && u <= 0x9F)
}

pub fn char_is_ascii_alnum(c: char) -> (r: bool)
    ensures
        r == is_ascii_alnum(c),
{
    ('0' <= c && c <= '9') || ('A' <= c && c <= 'Z') || ('a' <= c && c <= 'z')
}

pub fn char_ascii_lower(c: char) -> (r: char)
    ensures
        r == ascii_lower(c),
{
    if 'A' <= c && c <= 'Z' {
        let u = (c as u32) + 32;
        assert(u < 128);
        (u as u8) as char
    } else {
        c
    }
}

// ---------------------------------------------------------------------------
// Sequences of characters
// ---------------------------------------------------------------------------

pub open spec fn trim_start(s: Seq<char>) -> Seq<char>
    decreases s.len(),
{
    if s.len() > 0 && is_ws(s[0]) {
        trim_start(s.drop_first())
    } else {
        s
    }
}

pub open spec fn trim_end(s: Seq<char>) -> Seq<char>
    decreases s.len(),
{
    if s.len() > 0 && is_ws(s.last()) {
        trim_end(s.drop_last())
    } else {
        s
    }
}

/// `str::trim`: white space removed at both ends.
pub open spec fn trim(s: Seq<char>) -> Seq<char> {
    trim_end(trim_start(s))
}

pub open spec fn min_nat(a: nat, b: int) -> int {
    if a < b {
        a as int
    } else {
        b
    }
}

/// The first `n` characters, or all of them where there are fewer.
pub open spec fn take_n(s: Seq<char>, n: int) -> Seq<char> {
    if n < s.len() {
        s.take(n)
    } else {
        s
    }
}

pub open spec fn starts(s: Seq<char>, p: Seq<char>) -> bool {
    p.len() <= s.len() && s.subrange(0, p.len() as int) == p
}

pub open spec fn ends(s: Seq<char>, p: Seq<char>) -> bool {
    p.len() <= s.len() && s.subrange(s.len() - p.len(), s.len() as int) == p
}

pub open spec fn infix_at(s: Seq<char>, p: Seq<char>, i: int) -> bool {
    0 <= i && i + p.len() <= s.len() && s.subrange(i, i + p.len()) == p
}

pub open spec fn has_infix(s: Seq<char>, p: Seq<char>) -> bool {
    exists|i: int| infix_at(s, p, i)
}

pub open spec fn has_char(s: Seq<char>, c: char) -> bool {
    s.contains(c)
}

pub open spec fn all_ws(s: Seq<char>) -> bool {
    forall|k: int| 0 <= k < s.len() ==> is_ws(#[trigger] s[k])
}

pub proof fn lemma_trim_start_skip(s: Seq<char>, i: int)
    requires
        0 <= i <= s.len(),
        forall|k: int| 0 <= k < i ==> is_ws(#[trigger] s[k]),
    ensures
        trim_start(s) == trim_start(s.subrange(i, s.len() as int)),
    decreases i,
{
    if i > 0 {
        assert(is_ws(s[0]));
        let t = s.drop_first();
        assert forall|k: int| 0 <= k < i - 1 implies is_ws(#[trigger] t[k]) by {
            assert(t[k] == s[k + 1]);
        }
        lemma_trim_start_skip(t, i - 1);
        assert(t.subrange(i - 1, t.len() as int) =~= s.subrange(i, s.len() as int));
    } else {
        assert(s.subrange(0, s.len() as int) =~= s);
    }
}

pub proof fn lemma_trim_end_cut(s: Seq<char>, j: int)
    requires
        0 <= j <= s.len(),
        forall|k: int| j <= k < s.len() ==> is_ws(#[trigger] s[k]),
    ensures
        trim_end(s) == trim_end(s.subrange(0, j)),
    decreases s.len() - j,
{
    if j < s.len() {
        assert(is_ws(s.last()));
        let t = s.drop_last();
        assert forall|k: int| j <= k < t.len() implies is_ws(#[trigger] t[k]) by {
            assert(t[k] == s[k]);
        }
        lemma_trim_end_cut(t, j);
        assert(t.subrange(0, j) =~= s.subrange(0, j));
    } else {
        assert(s.subrange(0, j) =~= s);
    }
}

/// Trimming is the subrange between the first and after the last non-space.
pub proof fn lemma_trim_bounds(s: Seq<char>, i: int, j: int)
    requires
        0 <= i <= j <= s.len(),
        forall|k: int| 0 <= k < i ==> is_ws(#[trigger] s[k]),
        forall|k: int| j <= k < s.len() ==> is_ws(#[trigger] s[k]),
        i < j ==> !is_ws(s[i]) && !is_ws(s[j - 1]),
        i == j ==> forall|k: int| 0 <= k < s.len() ==> is_ws(#[trigger] s[k]),
    ensures
        trim(s) == s.subrange(i, j),
{
    lemma_trim_start_skip(s, i);
    let t = s.subrange(i, s.len() as int);
    if i < j {
        assert(t[0] == s[i]);
        assert(trim_start(t) == t);
        assert forall|k: int| j - i <= k < t.len() implies is_ws(#[trigger] t[k]) by {
            assert(t[k] == s[k + i]);
        }
        lemma_trim_end_cut(t, j - i);
        let u = t.subrange(0, j - i);
        assert(u =~= s.subrange(i, j));
        assert(u.last() == s[j - 1]);
    } else {
        assert forall|k: int| 0 <= k < t.len() implies is_ws(#[trigger] t[k]) by {
            assert(t[k] == s[k + i]);
        }
        lemma_trim_start_skip(t, t.len() as int);
        assert(t.subrange(t.len() as int, t.len() as int) =~= Seq::<char>::empty());
        assert(s.subrange(i, j) =~= Seq::<char>::empty());
    }
}

proof fn lemma_trim_start_shape(s: Seq<char>)
    ensures
        trim_start(s).len() > 0 ==> !is_ws(trim_start(s)[0]),
    decreases s.len(),
{
    if s.len() > 0 && is_ws(s[0]) {
        lemma_trim_start_shape(s.drop_first());
    }
}

proof fn lemma_trim_end_shape(s: Seq<char>)
    ensures
        trim_end(s).len() <= s.len(),
        trim_end(s) == s.take(trim_end(s).len() as int),
        trim_end(s).len() > 0 ==> !is_ws(trim_end(s).last()),
    decreases s.len(),
{
    if s.len() > 0 && is_ws(s.last()) {
        lemma_trim_end_shape(s.drop_last());
        let t = trim_end(s.drop_last());
        assert(s.drop_last().take(t.len() as int) =~= s.take(t.len() as int));
    } else {
        assert(s.take(s.len() as int) =~= s);
    }
}

/// Trimming twice is trimming once.
pub proof fn lemma_trim_idempotent(s: Seq<char>)
    ensures
        trim(trim(s)) == trim(s),
{
    let t = trim_start(s);
    lemma_trim_start_shape(s);
    lemma_trim_end_shape(t);
    let u = trim_end(t);
    if u.len() > 0 {
        assert(u[0] == t[0]);
    }
    assert(trim_start(u) == u);
    assert(trim_end(u) == u);
}

pub proof fn lemma_trim_start_all_ws(s: Seq<char>)
    requires
        all_ws(s),
    ensures
        trim_start(s) == Seq::<char>::empty(),
    decreases s.len(),
{
    if s.len() > 0 {
        let t = s.drop_first();
        assert forall|k: int| 0 <= k < t.len() implies is_ws(#[trigger] t[k]) by {
            assert(t[k] == s[k + 1]);
        }
        lemma_trim_start_all_ws(t);
    }
}

// ---------------------------------------------------------------------------
// Executable helpers
// ---------------------------------------------------------------------------

/// The characters of a string slice, in order.
pub fn chars_of(s: &str) -> (out: Vec<char>)
    ensures
        out@ == s@,
{
    broadcast use vstd::string::group_string_axioms;

    let mut out: Vec<char> = Vec::new();
    for c in it: s.chars()
        invariant
            out@ == it.seq().take(it.index() as int),
            it.seq() == s@,
    {
        out.push(c);
    }
    out
}

/// `String::push`: appends one character.
#[verifier::external_body]
pub(crate) fn push_char(s: &mut String, c: char)
    ensures
        final(s)@ == old(s)@.push(c),
{
    s.push(c);
}

/// Appends a string slice.
pub fn push_str(s: &mut String, t: &str)
    ensures
        final(s)@ == old(s)@ + t@,
{
    s.append(t);
}

pub fn new_string() -> (s: String)
    ensures
        s@ == Seq::<char>::empty(),
{
    String::new()
}

pub fn string_of(t: &str) -> (s: String)
    ensures
        s@ == t@,
{
    String::from_str(t)
}

/// Appends characters `v[from..to]`.
pub fn push_range(s: &mut String, v: &Vec<char>, from: usize, to: usize)
    requires
        from <= to <= v.len(),
    ensures
        final(s)@ == old(s)@ + v@.subrange(from as int, to as int),
{
    let mut i = from;
    while i < to
        invariant
            from <= i <= to <= v.len(),
            s@ == old(s)@ + v@.subrange(from as int, i as int),
        decreases to - i,
    {
        push_char(s, v[i]);
        i = i + 1;
        assert(v@.subrange(from as int, i as int) =~= v@.subrange(from as int, (i - 1) as int).push(
            v@[i - 1],
        ));
    }
}

pub fn string_from_chars(v: &Vec<char>) -> (s: String)
    ensures
        s@ == v@,
{
    let mut s = new_string();
    push_range(&mut s, v, 0, v.len());
    assert(v@.subrange(0, v@.len() as int) =~= v@);
    s
}

pub fn subvec(v: &Vec<char>, from: usize, to: usize) -> (r: Vec<char>)
    requires
        from <= to <= v.len(),
    ensures
        r@ == v@.subrange(from as int, to as int),
{
    let mut r: Vec<char> = Vec::new();
    let mut i = from;
    while i < to
        invariant
            from <= i <= to <= v.len(),
            r@ == v@.subrange(from as int, i as int),
        decreases to - i,
    {
        r.push(v[i]);
        i = i + 1;
        assert(r@ =~= v@.subrange(from as int, i as int));
    }
    r
}

/// The trimmed characters of `v`.
pub fn trim_vec(v: &Vec<char>) -> (r: Vec<char>)
    ensures
        r@ == trim(v@),
{
    let n = v.len();
    let mut i: usize = 0;
    while i < n && char_is_whitespace(v[i])
        invariant
            0 <= i <= n == v.len(),
            forall|k: int| 0 <= k < i ==> is_ws(#[trigger] v@[k]),
        decreases n - i,
    {
        i = i + 1;
    }
    let mut j: usize = n;
    while j > i && char_is_whitespace(v[j - 1])
        invariant
            i <= j <= n == v.len(),
            forall|k: int| j <= k < n ==> is_ws(#[trigger] v@[k]),
            i < n ==> !is_ws(v@[i as int]),
        decreases j - i,
    {
        j = j - 1;
    }
    proof {
        if i == j {
            assert forall|k: int| 0 <= k < v@.len() implies is_ws(#[trigger] v@[k]) by {
                if k < i {
                } else {
                }
            }
        }
        lemma_trim_bounds(v@, i as int, j as int);
    }
    subvec(v, i, j)
}

/// The trimmed characters of a string slice.
pub fn trimmed(s: &str) -> (r: Vec<char>)
    ensures
        r@ == trim(s@),
{
    let v = chars_of(s);
    trim_vec(&v)
}

/// At most the first `n` characters of `v`.
pub fn take_vec(v: &Vec<char>, n: usize) -> (r: Vec<char>)
    ensures
        r@ == take_n(v@, n as int),
{
    if n < v.len() {
        subvec(v, 0, n)
    } else {
        v.clone()
    }
}

/// `s.trim().chars().take(n).collect::<String>()`.
pub fn clamp_text(s: &str, n: usize) -> (r: String)
    ensures
        r@ == take_n(trim(s@), n as int),
{
    let t = trimmed(s);
    let c = take_vec(&t, n);
    string_from_chars(&c)
}

/// `s.trim().to_string()`.
pub fn trim_string(s: &str) -> (r: String)
    ensures
        r@ == trim(s@),
{
    let t = trimmed(s);
    string_from_chars(&t)
}

pub fn vec_eq(a: &Vec<char>, b: &Vec<char>) -> (r: bool)
    ensures
        r == (a@ == b@),
{
    if a.len() != b.len() {
        return false;
    }
    let mut i: usize = 0;
    while i < a.len()
        invariant
            a.len() == b.len(),
            0 <= i <= a.len(),
            forall|k: int| 0 <= k < i ==> a@[k] == b@[k],
        decreases a.len() - i,
    {
        if a[i] != b[i] {
            return false;
        }
        i = i + 1;
    }
    assert(a@ =~= b@);
    true
}

/// `a == b` on string slices.
pub fn str_eq(a: &str, b: &str) -> (r: bool)
    ensures
        r == (a@ == b@),
{
    let x = chars_of(a);
    let y = chars_of(b);
    vec_eq(&x, &y)
}

/// Whether `v[at..]` begins with `p`.
pub fn matches_at(v: &Vec<char>, p: &Vec<char>, at: usize) -> (r: bool)
    requires
        at <= v.len(),
    ensures
        r == infix_at(v@, p@, at as int),
{
    if p.len() > v.len() - at {
        return false;
    }
    let mut k: usize = 0;
    while k < p.len()
        invariant
            at + p.len() <= v.len(),
            0 <= k <= p.len(),
            forall|m: int| 0 <= m < k ==> v@[at + m] == p@[m],
        decreases p.len() - k,
    {
        if v[at + k] != p[k] {
            assert(v@.subrange(at as int, at + p@.len())[k as int] != p@[k as int]);
            return false;
        }
        k = k + 1;
    }
    assert(v@.subrange(at as int, at + p@.len()) =~= p@);
    true
}

pub fn starts_with(v: &Vec<char>, p: &str) -> (r: bool)
    ensures
        r == starts(v@, p@),
{
    let pv = chars_of(p);
    matches_at(v, &pv, 0)
}

pub fn ends_with(v: &Vec<char>, p: &str) -> (r: bool)
    ensures
        r == ends(v@, p@),
{
    let pv = chars_of(p);
    if pv.len() > v.len() {
        return false;
    }
    matches_at(v, &pv, v.len() - pv.len())
}

/// The first position at which `p` occurs in `v`, if any.
pub fn find_seq(v: &Vec<char>, p: &Vec<char>) -> (r: Option<usize>)
    ensures
        match r {
            Some(i) => infix_at(v@, p@, i as int) && forall|j: int| 0 <= j < i ==> !infix_at(
                v@,
                p@,
                j,
            ),
            None => !has_infix(v@, p@),
        },
{
    let mut i: usize = 0;
    loop
        invariant
            0 <= i <= v.len(),
            forall|j: int| 0 <= j < i ==> !infix_at(v@, p@, j),
        ensures
            forall|j: int| 0 <= j <= v.len() ==> !infix_at(v@, p@, j),
        decreases v.len() - i,
    {
        if matches_at(v, p, i) {
            return Some(i);
        }
        if i == v.len() {
            break;
        }
        i = i + 1;
    }
    proof {
        assert forall|j: int| !infix_at(v@, p@, j) by {
            if 0 <= j <= v.len() {
            }
        }
    }
    None
}

pub fn contains_str(v: &Vec<char>, p: &str) -> (r: bool)
    ensures
        r == has_infix(v@, p@),
{
    let pv = chars_of(p);
    find_seq(v, &pv).is_some()
}

pub fn contains_char(v: &Vec<char>, c: char) -> (r: bool)
    ensures
        r == v@.contains(c),
{
    let mut i: usize = 0;
    while i < v.len()
        invariant
            0 <= i <= v.len(),
            forall|k: int| 0 <= k < i ==> v@[k] != c,
        decreases v.len() - i,
    {
        if v[i] == c {
            return true;
        }
        i = i + 1;
    }
    false
}

pub fn contains_ws(v: &Vec<char>) -> (r: bool)
    ensures
        r == exists|k: int| 0 <= k < v@.len() && is_ws(#[trigger] v@[k]),
{
    let mut i: usize = 0;
    while i < v.len()
        invariant
            0 <= i <= v.len(),
            forall|k: int| 0 <= k < i ==> !is_ws(#[trigger] v@[k]),
        decreases v.len() - i,
    {
        if char_is_whitespace(v[i]) {
            return true;
        }
        i = i + 1;
    }
    false
}

pub fn lower_vec(v: &Vec<char>) -> (r: Vec<char>)
    ensures
        r@ == lower_seq(v@),
{
    let mut r: Vec<char> = Vec::new();
    let mut i: usize = 0;
    while i < v.len()
        invariant
            0 <= i <= v.len(),
            r@ == lower_seq(v@.subrange(0, i as int)),
        decreases v.len() - i,
    {
        r.push(char_ascii_lower(v[i]));
        i = i + 1;
        assert(lower_seq(v@.subrange(0, i as int)) =~= lower_seq(
            v@.subrange(0, (i - 1) as int),
        ).push(ascii_lower(v@[i - 1])));
    }
    assert(v@.subrange(0, v@.len() as int) =~= v@);
    r
}

// ---------------------------------------------------------------------------
// Decimal rendering
// ---------------------------------------------------------------------------

pub open spec fn digit_char(d: nat) -> char {
    ((d % 10) + 48) as char
}

/// The decimal digits of a natural number, most significant first.
pub open spec fn nat_dec(n: nat) -> Seq<char>
    decreases n,
{
    if n < 10 {
        seq![digit_char(n)]
    } else {
        nat_dec(n / 10).push(digit_char(n % 10))
    }
}

/// The decimal form of an integer, with a leading `-` when it is negative.
pub open spec fn int_dec(i: int) -> Seq<char> {
    if i < 0 {
        seq!['-'] + nat_dec((-i) as nat)
    } else {
        nat_dec(i as nat)
    }
}

pub fn push_u64(s: &mut String, n: u64)
    ensures
        final(s)@ == old(s)@ + nat_dec(n as nat),
    decreases n,
{
    if n >= 10 {
        push_u64(s, n / 10);
    }
    let d = (n % 10) as u8 + 48;
    assert(d < 128);
    push_char(s, d as char);
    proof {
        if n >= 10 {
            assert(nat_dec(n as nat) == nat_dec((n / 10) as nat).push(digit_char((n % 10) as nat)));
        }
    }
}

pub fn push_u128(s: &mut String, n: u128)
    ensures
        final(s)@ == old(s)@ + nat_dec(n as nat),
    decreases n,
{
    if n >= 10 {
        push_u128(s, n / 10);
    }
    let d = (n % 10) as u8 + 48;
    assert(d < 128);
    push_char(s, d as char);
    proof {
        if n >= 10 {
            assert(nat_dec(n as nat) == nat_dec((n / 10) as nat).push(digit_char((n % 10) as nat)));
        }
    }
}

pub fn push_i64(s: &mut String, n: i64)
    ensures
        final(s)@ == old(s)@ + int_dec(n as int),
{
    if n < 0 {
        push_char(s, '-');
        let m: u64 = (0 - (n as i128)) as u64;
        push_u64(s, m);
        assert(final(s)@ =~= old(s)@ + int_dec(n as int)) by {
            assert(int_dec(n as int) == seq!['-'] + nat_dec((-n) as nat));
        }
    } else {
        push_u64(s, n as u64);
    }
}

pub fn push_usize(s: &mut String, n: usize)
    ensures
        final(s)@ == old(s)@ + nat_dec(n as nat),
{
    push_u64(s, n as u64);
}

// ---------------------------------------------------------------------------
// UTF-8 byte lengths
// ---------------------------------------------------------------------------

pub open spec fn utf8_width(c: char) -> nat {
    let u = c as u32;
    if u < 0x80 {
        1
    } else if u < 0x800 {
        2
    } else if u < 0x10000 {
        3
    } else {
        4
    }
}

/// The number of bytes of the UTF-8 encoding, the length `str::len` reports.
pub open spec fn utf8_len(s: Seq<char>) -> nat
    decreases s.len(),
{
    if s.len() == 0 {
        0
    } else {
        utf8_len(s.drop_last()) + utf8_width(s.last())
    }
}

pub fn char_utf8_width(c: char) -> (w: usize)
    ensures
        w == utf8_width(c),
{
    let u = c as u32;
    if u < 0x80 {
        1
    } else if u < 0x800 {
        2
    } else if u < 0x10000 {
        3
    } else {
        4
    }
}

/// The UTF-8 byte length of `v`, saturating at `usize::MAX`.
pub fn utf8_len_of(v: &Vec<char>) -> (n: usize)
    ensures
        n == if utf8_len(v@) <= usize::MAX {
            utf8_len(v@)
        } else {
            usize::MAX as nat
        },
{
    let mut n: usize = 0;
    let mut i: usize = 0;
    let mut saturated = false;
    while i < v.len()
        invariant
            0 <= i <= v.len(),
            !saturated ==> n == utf8_len(v@.subrange(0, i as int)),
            saturated ==> n == usize::MAX && utf8_len(v@.subrange(0, i as int)) > usize::MAX,
        decreases v.len() - i,
    {
        let w = char_utf8_width(v[i]);
        assert(v@.subrange(0, (i + 1) as int).drop_last() =~= v@.subrange(0, i as int));
        if saturated || n > usize::MAX - w {
            saturated = true;
            n = usize::MAX;
        } else {
            n = n + w;
        }
        i = i + 1;
    }
    assert(v@.subrange(0, v@.len() as int) =~= v@);
    n
}


/// `k` characters of `s` take exactly `n` bytes of its UTF-8 encoding.
pub open spec fn is_byte_prefix(s: Seq<char>, k: int, n: nat) -> bool {
    0 <= k <= s.len() && utf8_len(s.take(k)) == n
}

pub proof fn lemma_utf8_len_take_step(s: Seq<char>, k: int)
    requires
        0 <= k < s.len(),
    ensures
        utf8_len(s.take(k + 1)) == utf8_len(s.take(k)) + utf8_width(s[k]),
{
    assert(s.take(k + 1).drop_last() =~= s.take(k));
}

pub proof fn lemma_utf8_len_take_mono(s: Seq<char>, j: int, k: int)
    requires
        0 <= j < k <= s.len(),
    ensures
        utf8_len(s.take(j)) < utf8_len(s.take(k)),
    decreases k - j,
{
    lemma_utf8_len_take_step(s, k - 1);
    if j < k - 1 {
        lemma_utf8_len_take_mono(s, j, k - 1);
    }
}

pub proof fn lemma_byte_prefix_unique(s: Seq<char>, j: int, k: int, n: nat)
    requires
        is_byte_prefix(s, j, n),
        is_byte_prefix(s, k, n),
    ensures
        j == k,
{
    if j < k {
        lemma_utf8_len_take_mono(s, j, k);
    } else if k < j {
        lemma_utf8_len_take_mono(s, k, j);
    }
}

/// The number of leading characters that take exactly `n` bytes, if the
/// `n`-th byte is a character boundary.
pub fn chars_for_bytes(v: &Vec<char>, n: usize) -> (r: Option<usize>)
    ensures
        match r {
            Some(k) => is_byte_prefix(v@, k as int, n as nat),
            None => forall|k: int| !is_byte_prefix(v@, k, n as nat),
        },
{
    let mut k: usize = 0;
    let mut sum: usize = 0;
    assert(v@.take(0) =~= Seq::<char>::empty());
    loop
        invariant
            0 <= k <= v.len(),
            sum <= n,
            sum == utf8_len(v@.take(k as int)),
            forall|j: int| 0 <= j < k ==> !is_byte_prefix(v@, j, n as nat),
        decreases v.len() - k,
    {
        if sum == n {
            return Some(k);
        }
        if k == v.len() {
            proof {
                assert forall|j: int| !is_byte_prefix(v@, j, n as nat) by {
                    if 0 <= j < k {
                    }
                }
            }
            return None;
        }
        let w = char_utf8_width(v[k]);
        proof {
            lemma_utf8_len_take_step(v@, k as int);
        }
        if w > n - sum {
            proof {
                assert forall|j: int| !is_byte_prefix(v@, j, n as nat) by {
                    if k < j <= v@.len() {
                        if k + 1 < j {
                            lemma_utf8_len_take_mono(v@, k + 1, j);
                        }
                    }
                }
            }
            return None;
        }
        sum = sum + w;
        k = k + 1;
    }
}

/// `s.get(..n)`: the leading characters that take `n` bytes, where the
/// `n`-th byte is a character boundary.
pub open spec fn byte_prefix(s: Seq<char>, n: nat) -> Option<Seq<char>> {
    if exists|k: int| is_byte_prefix(s, k, n) {
        Some(s.take(choose|k: int| is_byte_prefix(s, k, n)))
    } else {
        None
    }
}

pub fn byte_prefix_of(v: &Vec<char>, n: usize) -> (r: Option<Vec<char>>)
    ensures
        match r {
            Some(p) => byte_prefix(v@, n as nat) == Some(p@),
            None => byte_prefix(v@, n as nat) is None,
        },
{
    match chars_for_bytes(v, n) {
        Some(k) => {
            proof {
                let c = choose|j: int| is_byte_prefix(v@, j, n as nat);
                lemma_byte_prefix_unique(v@, c, k as int, n as nat);
            }
            let p = subvec(v, 0, k);
            assert(p@ =~= v@.take(k as int));
            Some(p)
        },
        None => None,
    }
}

/// `str::lines().next()` on a string: the text before the first `\n`,
/// without a `\r` that ends it; the whole text when there is no `\n`.
pub open spec fn first_line(s: Seq<char>) -> Seq<char> {
    if s.contains('\n') {
        let k = choose|k: int|
            0 <= k < s.len() && s[k] == '\n' && forall|j: int| 0 <= j < k ==> s[j] != '\n';
        let l = s.take(k);
        if l.len() > 0 && l.last() == '\r' {
            l.drop_last()
        } else {
            l
        }
    } else {
        s
    }
}

pub fn first_line_of(v: &Vec<char>) -> (r: Vec<char>)
    ensures
        r@ == first_line(v@),
{
    let mut i: usize = 0;
    while i < v.len()
        invariant
            0 <= i <= v.len(),
            forall|j: int| 0 <= j < i ==> v@[j] != '\n',
        decreases v.len() - i,
    {
        if v[i] == '\n' {
            proof {
                let c = choose|k: int|
                    0 <= k < v@.len() && v@[k] == '\n' && forall|j: int|
                        0 <= j < k ==> v@[j] != '\n';
                assert(v@[i as int] == '\n');
                if c < i {
                    assert(v@[c] != '\n');
                }
                if i < c {
                    assert(v@[i as int] != '\n');
                }
            }
            if i > 0 && v[i - 1] == '\r' {
                let r = subvec(v, 0, i - 1);
                assert(r@ =~= v@.take(i as int).drop_last());
                return r;
            }
            let r = subvec(v, 0, i);
            assert(r@ =~= v@.take(i as int));
            return r;
        }
        i = i + 1;
    }
    v.clone()
}

/// At most `max` characters of `s`, with an ellipsis added where some were
/// cut.
pub open spec fn ellipsize(s: Seq<char>, max: nat) -> Seq<char> {
    if s.len() > max {
        s.take(max as int).push('\u{2026}')
    } else {
        s
    }
}

pub fn ellipsize_vec(v: &Vec<char>, max: usize) -> (r: String)
    ensures
        r@ == ellipsize(v@, max as nat),
{
    if v.len() > max {
        let mut s = new_string();
        push_range(&mut s, v, 0, max);
        push_char(&mut s, '\u{2026}');
        assert(v@.subrange(0, max as int) =~= v@.take(max as int));
        s
    } else {
        string_from_chars(v)
    }
}

/// White space squeezed: runs of white space become one space, and none is
/// left at either end (`split_whitespace` joined with single spaces).
pub open spec fn squash_from(s: Seq<char>, acc: Seq<char>, gap: bool) -> Seq<char>
    decreases s.len(),
{
    if s.len() == 0 {
        acc
    } else if is_ws(s[0]) {
        squash_from(s.drop_first(), acc, acc.len() > 0)
    } else {
        squash_from(
            s.drop_first(),
            (if gap {
                acc.push(' ')
            } else {
                acc
            }).push(s[0]),
            false,
        )
    }
}

pub open spec fn squash(s: Seq<char>) -> Seq<char> {
    squash_from(s, Seq::empty(), false)
}

pub fn squash_vec(v: &Vec<char>) -> (r: Vec<char>)
    ensures
        r@ == squash(v@),
{
    let mut acc: Vec<char> = Vec::new();
    let mut gap = false;
    let mut i: usize = 0;
    assert(v@.subrange(0, v@.len() as int) =~= v@);
    while i < v.len()
        invariant
            0 <= i <= v.len(),
            squash(v@) == squash_from(v@.subrange(i as int, v@.len() as int), acc@, gap),
        decreases v.len() - i,
    {
        let ghost rest = v@.subrange(i as int, v@.len() as int);
        assert(rest.drop_first() =~= v@.subrange(i + 1, v@.len() as int));
        assert(rest[0] == v@[i as int]);
        let c = v[i];
        if char_is_whitespace(c) {
            gap = acc.len() > 0;
        } else {
            if gap {
                acc.push(' ');
            }
            acc.push(c);
            gap = false;
        }
        i = i + 1;
    }
    assert(v@.subrange(v@.len() as int, v@.len() as int) =~= Seq::<char>::empty());
    acc
}

pub open spec fn count_non_ws(s: Seq<char>) -> nat
    decreases s.len(),
{
    if s.len() == 0 {
        0
    } else {
        count_non_ws(s.drop_last()) + if is_ws(s.last()) {
            0nat
        } else {
            1nat
        }
    }
}

/// The number of characters that are not white space.
pub fn count_non_ws_of(v: &Vec<char>) -> (n: usize)
    ensures
        n == count_non_ws(v@),
{
    let mut n: usize = 0;
    let mut i: usize = 0;
    assert(v@.take(0) =~= Seq::<char>::empty());
    while i < v.len()
        invariant
            0 <= i <= v.len(),
            n == count_non_ws(v@.take(i as int)),
            n <= i,
        decreases v.len() - i,
    {
        assert(v@.take(i + 1).drop_last() =~= v@.take(i as int));
        if !char_is_whitespace(v[i]) {
            n = n + 1;
        }
        i = i + 1;
    }
    assert(v@.take(v@.len() as int) =~= v@);
    n
}


// ---------------------------------------------------------------------------
// Reading integers
// ---------------------------------------------------------------------------

pub open spec fn digit_value(c: char) -> int {
    (c as int) - ('0' as int)
}

pub open spec fn all_digits(s: Seq<char>) -> bool {
    forall|i: int| 0 <= i < s.len() ==> is_ascii_digit(#[trigger] s[i])
}

/// The number a run of decimal digits spells.
pub open spec fn digits_value(s: Seq<char>) -> int
    decreases s.len(),
{
    if s.len() == 0 {
        0
    } else {
        10 * digits_value(s.drop_last()) + digit_value(s.last())
    }
}

/// What `str::parse::<i64>` reads: an optional `+` or `-`, then one or
/// more ASCII digits and nothing else, in the range of `i64`.
pub open spec fn i64_value(s: Seq<char>) -> Option<int> {
    let signed = s.len() > 0 && (s[0] == '-' || s[0] == '+');
    let d = if signed {
        s.skip(1)
    } else {
        s
    };
    if d.len() == 0 || !all_digits(d) {
        None
    } else {
        let v = if s[0] == '-' {
            -digits_value(d)
        } else {
            digits_value(d)
        };
        if i64::MIN <= v && v <= i64::MAX {
            Some(v)
        } else {
            None
        }
    }
}

proof fn lemma_digits_value_nonneg(d: Seq<char>, j: int)
    requires
        0 <= j <= d.len(),
        all_digits(d),
    ensures
        0 <= digits_value(d.take(j)),
    decreases j,
{
    if j > 0 {
        assert(d.take(j).drop_last() =~= d.take(j - 1));
        assert(is_ascii_digit(d[j - 1]));
        lemma_digits_value_nonneg(d, j - 1);
    }
}

proof fn lemma_digits_value_grows(d: Seq<char>, i: int, j: int)
    requires
        0 <= i <= j <= d.len(),
        all_digits(d),
    ensures
        digits_value(d.take(i)) <= digits_value(d.take(j)),
    decreases j,
{
    if i < j {
        assert(d.take(j).drop_last() =~= d.take(j - 1));
        assert(is_ascii_digit(d[j - 1]));
        lemma_digits_value_grows(d, i, j - 1);
        lemma_digits_value_nonneg(d, j - 1);
    }
}

/// `str::parse::<i64>`, read as `i64_value` says.
pub fn parse_i64(s: &str) -> (r: Option<i64>)
    ensures
        match r {
            Some(v) => i64_value(s@) == Some(v as int),
            None => i64_value(s@) is None,
        },
{
    let v = chars_of(s);
    let n = v.len();
    if n == 0 {
        return None;
    }
    let neg = v[0] == '-';
    let start: usize = if v[0] == '-' || v[0] == '+' {
        1
    } else {
        0
    };
    if start == n {
        return None;
    }
    let ghost d = if start == 1 {
        v@.skip(1)
    } else {
        v@
    };
    assert(d =~= v@.subrange(start as int, n as int));
    let mut acc: u64 = 0;
    let mut i: usize = start;
    let mut too_big = false;
    assert(d.take(0) =~= Seq::<char>::empty());
    while i < n
        invariant
            start <= i <= n,
            n == v.len(),
            n > 0,
            v@ == s@,
            start == (if v@[0] == '-' || v@[0] == '+' {
                1usize
            } else {
                0usize
            }),
            neg == (v@[0] == '-'),
            d == v@.subrange(start as int, n as int),
            forall|k: int| 0 <= k < i - start ==> is_ascii_digit(#[trigger] d[k]),
            !too_big ==> acc == digits_value(d.take(i - start)),
            !too_big ==> acc <= 9223372036854775808,
            too_big ==> digits_value(d.take(i - start)) > 9223372036854775808,
        decreases n - i,
    {
        let c = v[i];
        if !('0' <= c && c <= '9') {
            assert(d[i - start] == c);
            assert(!is_ascii_digit(d[i - start]));
            return None;
        }
        assert(d[i - start] == c);
        let dv: u64 = (c as u32 - '0' as u32) as u64;
        assert(d.take(i - start + 1).drop_last() =~= d.take(i - start));
        assert(d.take(i - start + 1).last() == c);
        if !too_big {
            if acc > 922337203685477580 || (acc == 922337203685477580 && dv > 8) {
                too_big = true;
            } else {
                acc = acc * 10 + dv;
            }
        } else {
            assert(digits_value(d.take(i - start + 1)) >= 10 * digits_value(d.take(i - start)));
        }
        i = i + 1;
    }
    assert(d.take(n - start) =~= d);
    assert(all_digits(d));
    if too_big {
        proof {
            lemma_digits_value_nonneg(d, d.len() as int);
        }
        return None;
    }
    if neg {
        if acc == 9223372036854775808 {
            Some(i64::MIN)
        } else {
            Some(0 - (acc as i64))
        }
    } else if acc > 9223372036854775807 {
        None
    } else {
        Some(acc as i64)
    }
}


/// Reading back the decimal form of a number gives the number.
pub proof fn lemma_nat_dec_value(n: nat)
    ensures
        digits_value(nat_dec(n)) == n,
        nat_dec(n).len() > 0,
    decreases n,
{
    let d = (n % 10) as nat;
    assert(digit_value(digit_char(d)) == d % 10);
    if n < 10 {
        assert(seq![digit_char(n)].drop_last() =~= Seq::<char>::empty());
        assert(digits_value(Seq::<char>::empty()) == 0);
        assert(digits_value(nat_dec(n)) == 10 * digits_value(nat_dec(n).drop_last()) + digit_value(
            nat_dec(n).last(),
        ));
    } else {
        lemma_nat_dec_value(n / 10);
        assert(nat_dec(n).drop_last() =~= nat_dec(n / 10));
        assert(nat_dec(n).last() == digit_char(d));
        assert(digits_value(nat_dec(n)) == 10 * digits_value(nat_dec(n / 10)) + digit_value(
            digit_char(d),
        ));
    }
}

/// Different numbers have different decimal forms.
pub proof fn lemma_nat_dec_injective(a: nat, b: nat)
    requires
        nat_dec(a) == nat_dec(b),
    ensures
        a == b,
{
    lemma_nat_dec_value(a);
    lemma_nat_dec_value(b);
}


// ---------------------------------------------------------------------------
// UTF-8 bytes and percent-encoding
// ---------------------------------------------------------------------------

/// The UTF-8 encoding of a character.
pub open spec fn utf8_bytes(c: char) -> Seq<u8> {
    let u = c as u32;
    if u < 0x80 {
        seq![u as u8]
    } else if u < 0x800 {
        seq![(0xC0u32 | (u >> 6u32)) as u8, (0x80u32 | (u & 0x3Fu32)) as u8]
    } else if u < 0x10000 {
        seq![
            (0xE0u32 | (u >> 12u32)) as u8,
            (0x80u32 | ((u >> 6u32) & 0x3Fu32)) as u8,
            (0x80u32 | (u & 0x3Fu32)) as u8,
        ]
    } else {
        seq![
            (0xF0u32 | (u >> 18u32)) as u8,
            (0x80u32 | ((u >> 12u32) & 0x3Fu32)) as u8,
            (0x80u32 | ((u >> 6u32) & 0x3Fu32)) as u8,
            (0x80u32 | (u & 0x3Fu32)) as u8,
        ]
    }
}

pub fn char_utf8_bytes(c: char) -> (r: Vec<u8>)
    ensures
        r@ == utf8_bytes(c),
{
    let u = c as u32;
    let mut r: Vec<u8> = Vec::new();
    if u < 0x80 {
        r.push(u as u8);
    } else if u < 0x800 {
        r.push((0xC0u32 | (u >> 6u32)) as u8);
        r.push((0x80u32 | (u & 0x3Fu32)) as u8);
    } else if u < 0x10000 {
        r.push((0xE0u32 | (u >> 12u32)) as u8);
        r.push((0x80u32 | ((u >> 6u32) & 0x3Fu32)) as u8);
        r.push((0x80u32 | (u & 0x3Fu32)) as u8);
    } else {
        r.push((0xF0u32 | (u >> 18u32)) as u8);
        r.push((0x80u32 | ((u >> 12u32) & 0x3Fu32)) as u8);
        r.push((0x80u32 | ((u >> 6u32) & 0x3Fu32)) as u8);
        r.push((0x80u32 | (u & 0x3Fu32)) as u8);
    }
    assert(r@ =~= utf8_bytes(c));
    r
}

/// The bytes a URL carries as they are.
pub open spec fn url_unreserved(b: u8) -> bool {
    (65 <= b && b <= 90) || (97 <= b && b <= 122) || (48 <= b && b <= 57) || b == 45 || b == 95
        || b == 46 || b == 126
}

pub open spec fn hex_upper(n: int) -> char {
    if n < 10 {
        (n + 48) as char
    } else {
        (n + 55) as char
    }
}

/// One byte percent-encoded: unreserved bytes as they are, a space as `+`
/// where `plus` is asked for, anything else as `%` and two upper-case hex
/// digits.
pub open spec fn url_encode_byte(b: u8, plus: bool) -> Seq<char> {
    if url_unreserved(b) {
        seq![b as char]
    } else if plus && b == 32 {
        seq!['+']
    } else {
        seq!['%', hex_upper((b / 16) as int), hex_upper((b % 16) as int)]
    }
}

pub open spec fn url_encode_bytes(bs: Seq<u8>, plus: bool) -> Seq<char>
    decreases bs.len(),
{
    if bs.len() == 0 {
        Seq::empty()
    } else {
        url_encode_bytes(bs.drop_last(), plus) + url_encode_byte(bs.last(), plus)
    }
}

/// The UTF-8 bytes of `s`, percent-encoded.
pub open spec fn url_encode(s: Seq<char>, plus: bool) -> Seq<char>
    decreases s.len(),
{
    if s.len() == 0 {
        Seq::empty()
    } else {
        url_encode(s.drop_last(), plus) + url_encode_bytes(utf8_bytes(s.last()), plus)
    }
}

fn push_url_byte(out: &mut String, b: u8, plus: bool)
    ensures
        final(out)@ == old(out)@ + url_encode_byte(b, plus),
{
    if (65 <= b && b <= 90) || (97 <= b && b <= 122) || (48 <= b && b <= 57) || b == 45 || b == 95
        || b == 46 || b == 126 {
        push_char(out, b as char);
        assert(final(out)@ =~= old(out)@ + url_encode_byte(b, plus));
    } else if plus && b == 32 {
        push_char(out, '+');
        assert(final(out)@ =~= old(out)@ + url_encode_byte(b, plus));
    } else {
        let hi = b / 16;
        let lo = b % 16;
        let ch = if hi < 10 {
            (hi + 48) as char
        } else {
            (hi + 55) as char
        };
        let cl = if lo < 10 {
            (lo + 48) as char
        } else {
            (lo + 55) as char
        };
        push_char(out, '%');
        push_char(out, ch);
        push_char(out, cl);
        assert(final(out)@ =~= old(out)@ + url_encode_byte(b, plus));
    }
}

/// Percent-encodes the UTF-8 bytes of `s` (see `url_encode_byte`).
pub fn url_encode_str(s: &str, plus: bool) -> (r: String)
    ensures
        r@ == url_encode(s@, plus),
{
    let v = chars_of(s);
    let mut out = new_string();
    let mut i: usize = 0;
    assert(v@.take(0) =~= Seq::<char>::empty());
    while i < v.len()
        invariant
            0 <= i <= v.len(),
            v@ == s@,
            out@ == url_encode(v@.take(i as int), plus),
        decreases v.len() - i,
    {
        assert(v@.take(i + 1).drop_last() =~= v@.take(i as int));
        let bs = char_utf8_bytes(v[i]);
        let ghost before = out@;
        let mut j: usize = 0;
        assert(bs@.take(0) =~= Seq::<u8>::empty());
        assert(before + url_encode_bytes(Seq::<u8>::empty(), plus) =~= before);
        while j < bs.len()
            invariant
                0 <= j <= bs.len(),
                out@ == before + url_encode_bytes(bs@.take(j as int), plus),
            decreases bs.len() - j,
        {
            assert(bs@.take(j + 1).drop_last() =~= bs@.take(j as int));
            push_url_byte(&mut out, bs[j], plus);
            assert(out@ =~= before + url_encode_bytes(bs@.take(j + 1), plus));
            j = j + 1;
        }
        assert(bs@.take(bs@.len() as int) =~= bs@);
        i = i + 1;
    }
    assert(v@.take(v@.len() as int) =~= v@);
    out
}


/// The UTF-8 encoding of a text.
pub open spec fn utf8_encode(s: Seq<char>) -> Seq<u8>
    decreases s.len(),
{
    if s.len() == 0 {
        Seq::empty()
    } else {
        utf8_encode(s.drop_last()) + utf8_bytes(s.last())
    }
}

/// The bytes of a text (`String::into_bytes`).
pub fn string_bytes(s: &str) -> (r: Vec<u8>)
    ensures
        r@ == utf8_encode(s@),
{
    let v = chars_of(s);
    let mut out: Vec<u8> = Vec::new();
    let mut i: usize = 0;
    assert(v@.take(0) =~= Seq::<char>::empty());
    while i < v.len()
        invariant
            0 <= i <= v.len(),
            v@ == s@,
            out@ == utf8_encode(v@.take(i as int)),
        decreases v.len() - i,
    {
        assert(v@.take(i + 1).drop_last() =~= v@.take(i as int));
        let mut b = char_utf8_bytes(v[i]);
        let ghost before = out@;
        out.append(&mut b);
        assert(out@ =~= before + utf8_bytes(v@[i as int]));
        i = i + 1;
    }
    assert(v@.take(v@.len() as int) =~= v@);
    out
}

} // verus!
