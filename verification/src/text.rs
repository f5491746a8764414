//! Character-level text handling: Unicode whitespace, trimming,
//! lower-casing and lexicographic comparison.
use vstd::prelude::*;
use vstd::utf8::is_ascii_chars;

verus! {

/// The Unicode `White_Space` property, which `char::is_whitespace` and
/// `str::trim` go by.
pub open spec fn is_white_space(c: char) -> bool {
    let u: u32 = c as u32;
    ||| 0x09 <= u <= 0x0D
    ||| u == 0x20
    ||| u == 0x85
    ||| u == 0xA0
    ||| u == 0x1680
    ||| 0x2000 <= u <= 0x200A
    ||| u == 0x2028
    ||| u == 0x2029
    ||| u == 0x202F
    ||| u == 0x205F
    ||| u == 0x3000
}

/// Whether `c` is Unicode whitespace.
pub fn is_white_space_char(c: char) -> (r: bool)
    ensures
        r == is_white_space(c),
{
    let u: u32 = c as u32;
    (0x09 <= u && u <= 0x0D) || u == 0x20 || u == 0x85 || u == 0xA0 || u == 0x1680 || (0x2000
        <= u && u <= 0x200A) || u == 0x2028 || u == 0x2029 || u == 0x202F || u == 0x205F || u
        == 0x3000
}

/// The characters of `s`, in order.
pub fn chars_of(s: &str) -> (v: Vec<char>)
    ensures
        v@ == s@,
{
    let mut v: Vec<char> = Vec::new();
    for c in it: s.chars()
        invariant
            v@ == it.history(),
    {
        v.push(c);
    }
    v
}


/// `s` without its leading whitespace.
pub open spec fn trim_start(s: Seq<char>) -> Seq<char>
    decreases s.len(),
{
    if s.len() > 0 && is_white_space(s[0]) {
        trim_start(s.drop_first())
    } else {
        s
    }
}

/// `s` without its trailing whitespace.
pub open spec fn trim_end(s: Seq<char>) -> Seq<char>
    decreases s.len(),
{
    if s.len() > 0 && is_white_space(s.last()) {
        trim_end(s.drop_last())
    } else {
        s
    }
}

/// `s` without leading and trailing whitespace, as `str::trim` returns it.
pub open spec fn trimmed(s: Seq<char>) -> Seq<char> {
    trim_end(trim_start(s))
}

/// The slice of `s` that remains once leading and trailing whitespace is
/// removed.
pub fn trim(s: &str) -> (r: &str)
    ensures
        r@ == trimmed(s@),
{
    let v = chars_of(s);
    let n: usize = v.len();
    let mut i: usize = 0;
    assert(v@.subrange(0, n as int) =~= v@);
    while i < n && is_white_space_char(v[i])
        invariant
            0 <= i <= n,
            n == v@.len(),
            trim_start(v@) == trim_start(v@.subrange(i as int, n as int)),
        decreases n - i,
    {
        assert(v@.subrange(i as int, n as int).drop_first() =~= v@.subrange(i + 1, n as int));
        i = i + 1;
    }
    assert(trim_start(v@) == v@.subrange(i as int, n as int));
    let mut j: usize = n;
    while j > i && is_white_space_char(v[j - 1])
        invariant
            i <= j <= n,
            n == v@.len(),
            trim_end(v@.subrange(i as int, n as int)) == trim_end(v@.subrange(i as int, j as int)),
        decreases j,
    {
        assert(v@.subrange(i as int, j as int).drop_last() =~= v@.subrange(i as int, j - 1));
        j = j - 1;
    }
    assert(trim_end(v@.subrange(i as int, j as int)) == v@.subrange(i as int, j as int));
    s.substring_char(i, j)
}


/// `c` with the ASCII capitals `A`..`Z` turned into `a`..`z`; every other
/// character stays.
pub open spec fn ascii_lower(c: char) -> char {
    if 65 <= (c as u32) <= 90 {
        ((c as u32) + 32) as char
    } else {
        c
    }
}

/// `s` with each character passed through [`ascii_lower`].
pub open spec fn ascii_lowercase(s: Seq<char>) -> Seq<char> {
    Seq::new(s.len(), |i: int| ascii_lower(s[i]))
}

/// What `str::to_lowercase` returns for a text: the full Unicode
/// lower-case mapping.
pub uninterp spec fn lowercase_of(s: Seq<char>) -> Seq<char>;

/// Calls `str::to_lowercase`. Its result is named [`lowercase_of`]; for a
/// text made only of ASCII characters the Unicode mapping is the ASCII
/// one, which the second clause states. What the mapping does to other
/// characters is not stated.
#[verifier::external_body]
fn to_lowercase(s: &str) -> (r: String)
    ensures
        r@ == lowercase_of(s@),
        is_ascii_chars(s@) ==> r@ == ascii_lowercase(s@),
{
    s.to_lowercase()
}

/// The lower-case form of a text: fully stated for ASCII text, the Unicode
/// mapping [`lowercase_of`] otherwise.
pub open spec fn lowered(s: Seq<char>) -> Seq<char> {
    if is_ascii_chars(s) {
        ascii_lowercase(s)
    } else {
        lowercase_of(s)
    }
}

/// The lower-case form of `s`.
pub fn lower(s: &str) -> (r: String)
    ensures
        r@ == lowered(s@),
{
    to_lowercase(s)
}

/// Whether two texts hold the same characters.
pub fn same_text(a: &str, b: &str) -> (r: bool)
    ensures
        r == (a@ == b@),
{
    let va = chars_of(a);
    let vb = chars_of(b);
    if va.len() != vb.len() {
        return false;
    }
    let n: usize = va.len();
    let mut k: usize = 0;
    while k < n
        invariant
            0 <= k <= n,
            n == va@.len(),
            n == vb@.len(),
            va@ == a@,
            vb@ == b@,
            forall|m: int| 0 <= m < k ==> va@[m] == vb@[m],
        decreases n - k,
    {
        if va[k] != vb[k] {
            assert(va@[k as int] != vb@[k as int]);
            return false;
        }
        k = k + 1;
    }
    assert(va@ =~= vb@);
    true
}

/// Lexicographic order of texts by Unicode code point, the order of
/// `Ord` on `str` and `String` (byte order of UTF-8 is code point order).
pub open spec fn seq_less(a: Seq<char>, b: Seq<char>) -> bool
    decreases a.len(),
{
    if a.len() == 0 {
        b.len() > 0
    } else if b.len() == 0 {
        false
    } else if a[0] != b[0] {
        b[0] > a[0]
    } else {
        seq_less(a.drop_first(), b.drop_first())
    }
}

/// Whether `a` comes strictly before `b` in [`seq_less`] order.
pub fn text_less(a: &Vec<char>, b: &Vec<char>) -> (r: bool)
    ensures
        r == seq_less(a@, b@),
{
    let mut k: usize = 0;
    assert(a@.skip(0) =~= a@);
    assert(b@.skip(0) =~= b@);
    while k < a.len() && k < b.len() && a[k] == b[k]
        invariant
            0 <= k <= a.len(),
            k <= b.len(),
            seq_less(a@, b@) == seq_less(a@.skip(k as int), b@.skip(k as int)),
        decreases a.len() - k,
    {
        assert(a@.skip(k as int).drop_first() =~= a@.skip(k + 1));
        assert(b@.skip(k as int).drop_first() =~= b@.skip(k + 1));
        k = k + 1;
    }
    if k == a.len() {
        k < b.len()
    } else if k == b.len() {
        false
    } else {
        b[k] > a[k]
    }
}

/// Where two texts first differ, the one with the smaller character
/// comes first: after a common prefix `p`, `x` against `y` decides.
pub proof fn lemma_less_at_first_difference(
    p: Seq<char>,
    x: char,
    y: char,
    s: Seq<char>,
    t: Seq<char>,
)
    requires
        x != y,
    ensures
        seq_less(p + seq![x] + s, p + seq![y] + t) == (x < y),
    decreases p.len(),
{
    let a = p + seq![x] + s;
    let b = p + seq![y] + t;
    if p.len() == 0 {
        assert(a[0] == x);
        assert(b[0] == y);
    } else {
        assert(a[0] == p[0]);
        assert(b[0] == p[0]);
        assert(a.drop_first() =~= p.drop_first() + seq![x] + s);
        assert(b.drop_first() =~= p.drop_first() + seq![y] + t);
        lemma_less_at_first_difference(p.drop_first(), x, y, s, t);
    }
}

/// A proper prefix comes before the longer text, never after it.
pub proof fn lemma_less_proper_prefix(p: Seq<char>, x: char, s: Seq<char>)
    ensures
        seq_less(p, p + seq![x] + s),
        !seq_less(p + seq![x] + s, p),
    decreases p.len(),
{
    let b = p + seq![x] + s;
    if p.len() > 0 {
        assert(b[0] == p[0]);
        assert(b.drop_first() =~= p.drop_first() + seq![x] + s);
        lemma_less_proper_prefix(p.drop_first(), x, s);
    }
}

/// No text comes before itself.
pub proof fn lemma_less_irreflexive(a: Seq<char>)
    ensures
        !seq_less(a, a),
    decreases a.len(),
{
    if a.len() > 0 {
        lemma_less_irreflexive(a.drop_first());
    }
}

/// Of two texts, at most one comes before the other.
pub proof fn lemma_less_asymmetric(a: Seq<char>, b: Seq<char>)
    ensures
        seq_less(a, b) ==> !seq_less(b, a),
    decreases a.len(),
{
    if a.len() > 0 && b.len() > 0 && a[0] == b[0] {
        lemma_less_asymmetric(a.drop_first(), b.drop_first());
    }
}

/// The order of texts is transitive.
pub proof fn lemma_less_transitive(a: Seq<char>, b: Seq<char>, c: Seq<char>)
    ensures
        seq_less(a, b) && seq_less(b, c) ==> seq_less(a, c),
    decreases a.len(),
{
    if a.len() > 0 && b.len() > 0 && c.len() > 0 && a[0] == b[0] && b[0] == c[0] {
        lemma_less_transitive(a.drop_first(), b.drop_first(), c.drop_first());
    }
}

/// Of two different texts, one comes before the other.
pub proof fn lemma_less_total(a: Seq<char>, b: Seq<char>)
    ensures
        a != b ==> seq_less(a, b) || seq_less(b, a),
    decreases a.len(),
{
    if a.len() > 0 && b.len() > 0 && a[0] == b[0] {
        lemma_less_total(a.drop_first(), b.drop_first());
        if a.drop_first() == b.drop_first() {
            assert(a =~= b) by {
                assert forall|i: int| 0 <= i < a.len() implies a[i] == b[i] by {
                    if i > 0 {
                        assert(a[i] == a.drop_first()[i - 1]);
                        assert(b[i] == b.drop_first()[i - 1]);
                    }
                }
            }
        }
    } else if a.len() == 0 && b.len() == 0 {
        assert(a =~= b);
    }
}


/// A text that starts and ends with a non-whitespace character is its own
/// trimmed form.
pub proof fn lemma_trimmed_unchanged(s: Seq<char>)
    requires
        s.len() > 0,
        !is_white_space(s[0]),
        !is_white_space(s.last()),
    ensures
        trimmed(s) == s,
{
}

/// Lower-casing leaves a text without ASCII capitals as it is.
pub proof fn lemma_ascii_lowercase_unchanged(s: Seq<char>)
    requires
        forall|i: int| 0 <= i < s.len() ==> !(65 <= (#[trigger] s[i] as u32) <= 90),
    ensures
        ascii_lowercase(s) == s,
{
    assert(ascii_lowercase(s) =~= s);
}


/// Every character of `s` is whitespace.
pub open spec fn all_white_space(s: Seq<char>) -> bool {
    forall|i: int| 0 <= i < s.len() ==> is_white_space(#[trigger] s[i])
}

proof fn lemma_trim_start_skips(p: Seq<char>, x: Seq<char>)
    requires
        all_white_space(p),
    ensures
        trim_start(p + x) == trim_start(x),
    decreases p.len(),
{
    if p.len() > 0 {
        assert((p + x)[0] == p[0]);
        assert((p + x).drop_first() =~= p.drop_first() + x);
        lemma_trim_start_skips(p.drop_first(), x);
    } else {
        assert(p + x =~= x);
    }
}

proof fn lemma_trim_end_skips(x: Seq<char>, q: Seq<char>)
    requires
        all_white_space(q),
    ensures
        trim_end(x + q) == trim_end(x),
    decreases q.len(),
{
    if q.len() > 0 {
        assert((x + q).last() == q.last());
        assert((x + q).drop_last() =~= x + q.drop_last());
        lemma_trim_end_skips(x, q.drop_last());
    } else {
        assert(x + q =~= x);
    }
}

proof fn lemma_trimmed_append_white(s: Seq<char>, q: Seq<char>)
    requires
        all_white_space(q),
    ensures
        trimmed(s + q) == trimmed(s),
    decreases s.len(),
{
    if s.len() == 0 {
        assert(s + q =~= q);
        lemma_trim_start_skips(q, Seq::<char>::empty());
        assert(q + Seq::<char>::empty() =~= q);
    } else if is_white_space(s[0]) {
        assert((s + q)[0] == s[0]);
        assert((s + q).drop_first() =~= s.drop_first() + q);
        lemma_trimmed_append_white(s.drop_first(), q);
    } else {
        assert((s + q)[0] == s[0]);
        lemma_trim_end_skips(s, q);
    }
}

/// Whitespace before and after a text does not change its trimmed form.
pub proof fn lemma_trimmed_ignores_padding(p: Seq<char>, s: Seq<char>, q: Seq<char>)
    requires
        all_white_space(p),
        all_white_space(q),
    ensures
        trimmed(p + s + q) == trimmed(s),
{
    assert(p + s + q =~= p + (s + q));
    lemma_trim_start_skips(p, s + q);
    lemma_trimmed_append_white(s, q);
}


proof fn lemma_ascii_lower_keeps_white_space(c: char)
    ensures
        is_white_space(ascii_lower(c)) == is_white_space(c),
        ascii_lower(ascii_lower(c)) == ascii_lower(c),
{
    if 65 <= (c as u32) <= 90 {
        let d = ((c as u32) + 32) as char;
        assert(d as u32 == (c as u32) + 32);
    }
}

proof fn lemma_trim_start_lowercase(s: Seq<char>)
    ensures
        trim_start(ascii_lowercase(s)) == ascii_lowercase(trim_start(s)),
    decreases s.len(),
{
    if s.len() > 0 {
        lemma_ascii_lower_keeps_white_space(s[0]);
        assert(ascii_lowercase(s)[0] == ascii_lower(s[0]));
        assert(ascii_lowercase(s).drop_first() =~= ascii_lowercase(s.drop_first()));
        lemma_trim_start_lowercase(s.drop_first());
    }
}

proof fn lemma_trim_end_lowercase(s: Seq<char>)
    ensures
        trim_end(ascii_lowercase(s)) == ascii_lowercase(trim_end(s)),
    decreases s.len(),
{
    if s.len() > 0 {
        lemma_ascii_lower_keeps_white_space(s.last());
        assert(ascii_lowercase(s).last() == ascii_lower(s.last()));
        assert(ascii_lowercase(s).drop_last() =~= ascii_lowercase(s.drop_last()));
        lemma_trim_end_lowercase(s.drop_last());
    }
}

/// Lower-casing ASCII letters commutes with trimming, and lower-casing
/// twice is lower-casing once.
pub proof fn lemma_trimmed_lowercase(s: Seq<char>)
    ensures
        trimmed(ascii_lowercase(s)) == ascii_lowercase(trimmed(s)),
        ascii_lowercase(ascii_lowercase(s)) == ascii_lowercase(s),
{
    lemma_trim_start_lowercase(s);
    lemma_trim_end_lowercase(trim_start(s));
    assert forall|i: int| 0 <= i < s.len() implies #[trigger] ascii_lowercase(
        ascii_lowercase(s),
    )[i] == ascii_lowercase(s)[i] by {
        lemma_ascii_lower_keeps_white_space(s[i]);
    }
    assert(ascii_lowercase(ascii_lowercase(s)) =~= ascii_lowercase(s));
}


/// Trimming and ASCII lower-casing keep an ASCII text ASCII.
pub proof fn lemma_ascii_stays_ascii(s: Seq<char>)
    requires
        is_ascii_chars(s),
    ensures
        is_ascii_chars(trimmed(s)),
        is_ascii_chars(ascii_lowercase(s)),
{
    lemma_trim_start_ascii(s);
    lemma_trim_end_ascii(trim_start(s));
    assert forall|i: int| 0 <= i < s.len() implies '\0' <= #[trigger] ascii_lowercase(s)[i]
        <= '\u{7f}' by {
        if 65 <= (s[i] as u32) <= 90 {
            let d = ((s[i] as u32) + 32) as char;
            assert(d as u32 == (s[i] as u32) + 32);
        }
    }
}

proof fn lemma_trim_start_ascii(s: Seq<char>)
    requires
        is_ascii_chars(s),
    ensures
        is_ascii_chars(trim_start(s)),
    decreases s.len(),
{
    if s.len() > 0 && is_white_space(s[0]) {
        assert forall|i: int| 0 <= i < s.len() - 1 implies '\0' <= #[trigger] s.drop_first()[i]
            <= '\u{7f}' by {
            assert(s.drop_first()[i] == s[i + 1]);
        }
        lemma_trim_start_ascii(s.drop_first());
    }
}

proof fn lemma_trim_end_ascii(s: Seq<char>)
    requires
        is_ascii_chars(s),
    ensures
        is_ascii_chars(trim_end(s)),
    decreases s.len(),
{
    if s.len() > 0 && is_white_space(s.last()) {
        assert forall|i: int| 0 <= i < s.len() - 1 implies '\0' <= #[trigger] s.drop_last()[i]
            <= '\u{7f}' by {
            assert(s.drop_last()[i] == s[i]);
        }
        lemma_trim_end_ascii(s.drop_last());
    }
}


/// If `a` does not come before `x` and `b` does not come before `a`, then
/// `b` does not come before `x`.
pub proof fn lemma_not_less_chain(x: Seq<char>, a: Seq<char>, b: Seq<char>)
    requires
        !seq_less(x, a),
        !seq_less(a, b),
    ensures
        !seq_less(x, b),
{
    lemma_less_total(x, a);
    lemma_less_total(a, b);
    if seq_less(x, b) {
        if x == a {
        } else {
            lemma_less_transitive(a, x, b);
        }
    }
}


proof fn lemma_trim_start_shape(s: Seq<char>) -> (i: int)
    ensures
        0 <= i <= s.len(),
        trim_start(s) == s.subrange(i, s.len() as int),
        forall|k: int| 0 <= k < i ==> is_white_space(#[trigger] s[k]),
        i < s.len() ==> !is_white_space(s[i]),
    decreases s.len(),
{
    if s.len() > 0 && is_white_space(s[0]) {
        let i0 = lemma_trim_start_shape(s.drop_first());
        assert forall|k: int| 0 <= k < i0 + 1 implies is_white_space(#[trigger] s[k]) by {
            if k > 0 {
                assert(s[k] == s.drop_first()[k - 1]);
            }
        }
        assert(s.drop_first().subrange(i0, s.len() - 1) =~= s.subrange(i0 + 1, s.len() as int));
        i0 + 1
    } else {
        assert(s.subrange(0, s.len() as int) =~= s);
        0
    }
}

proof fn lemma_trim_end_shape(s: Seq<char>) -> (j: int)
    ensures
        0 <= j <= s.len(),
        trim_end(s) == s.subrange(0, j),
        forall|k: int| j <= k < s.len() ==> is_white_space(#[trigger] s[k]),
        j > 0 ==> !is_white_space(s[j - 1]),
    decreases s.len(),
{
    if s.len() > 0 && is_white_space(s.last()) {
        let j0 = lemma_trim_end_shape(s.drop_last());
        assert forall|k: int| j0 <= k < s.len() implies is_white_space(#[trigger] s[k]) by {
            if k < s.len() - 1 {
                assert(s[k] == s.drop_last()[k]);
            }
        }
        assert(s.drop_last().subrange(0, j0) =~= s.subrange(0, j0));
        j0
    } else {
        assert(s.subrange(0, s.len() as int) =~= s);
        s.len() as int
    }
}

/// The trimmed form of `s` is the stretch of `s` between a whitespace-only
/// start and a whitespace-only end, and where it is not empty it begins and
/// ends with a character that is not whitespace.
pub proof fn lemma_trimmed_shape(s: Seq<char>) -> (ij: (int, int))
    ensures
        0 <= ij.0 <= ij.1 <= s.len(),
        trimmed(s) == s.subrange(ij.0, ij.1),
        forall|k: int| 0 <= k < ij.0 ==> is_white_space(#[trigger] s[k]),
        forall|k: int| ij.1 <= k < s.len() ==> is_white_space(#[trigger] s[k]),
        ij.0 < ij.1 ==> !is_white_space(s[ij.0]) && !is_white_space(s[ij.1 - 1]),
{
    let i = lemma_trim_start_shape(s);
    let rest = s.subrange(i, s.len() as int);
    let j0 = lemma_trim_end_shape(rest);
    assert(rest.subrange(0, j0) =~= s.subrange(i, i + j0));
    assert forall|k: int| i + j0 <= k < s.len() implies is_white_space(#[trigger] s[k]) by {
        assert(s[k] == rest[k - i]);
    }
    if j0 > 0 {
        assert(s[i + j0 - 1] == rest[j0 - 1]);
        assert(s[i] == rest[0]);
    }
    (i, i + j0)
}

} // verus!
