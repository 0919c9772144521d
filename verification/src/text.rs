//! Character-level string helpers, each specified over `Seq<char>`.
//!
//! The library reads strings as sequences of Unicode scalar values, the way
//! `str::chars` yields them; every helper here states its result over those
//! sequences so that callers can state theirs the same way.
use vstd::prelude::*;
use vstd::string::StringExecFns;

verus! {

broadcast use vstd::string::group_string_axioms;

// ---------------------------------------------------------------------------
// Conversions
// ---------------------------------------------------------------------------

/// The characters of a string slice, in order.
pub fn chars_of(s: &str) -> (v: Vec<char>)
    ensures
        v@ == s@,
{
    let mut v: Vec<char> = Vec::new();
    for c in it: s.chars()
        invariant
            v@ == it.seq().take(it.index() as int),
            it.seq() == s@,
    {
        v.push(c);
    }
    v
}

/// Appends one character to a string (std's `String::push`).
#[verifier::external_body]
pub(crate) fn push_char(s: &mut String, c: char)
    ensures
        final(s)@ == old(s)@.push(c),
{
    s.push(c);
}

/// The string made of the characters `v[lo..hi]`.
pub fn string_of_range(v: &Vec<char>, lo: usize, hi: usize) -> (s: String)
    requires
        lo <= hi <= v.len(),
    ensures
        s@ == v@.subrange(lo as int, hi as int),
{
    let mut s = String::new();
    let mut i = lo;
    while i < hi
        invariant
            lo <= i <= hi <= v.len(),
            s@ == v@.subrange(lo as int, i as int),
        decreases hi - i,
    {
        push_char(&mut s, v[i]);
        assert(v@.subrange(lo as int, i + 1) == v@.subrange(lo as int, i as int).push(v@[i as int]));
        i += 1;
    }
    s
}

/// The string made of all the characters of `v`.
pub fn string_of(v: &Vec<char>) -> (s: String)
    ensures
        s@ == v@,
{
    let s = string_of_range(v, 0, v.len());
    assert(v@.subrange(0, v@.len() as int) == v@);
    s
}

/// A copy of a string slice.
pub fn owned(s: &str) -> (r: String)
    ensures
        r@ == s@,
{
    String::from_str(s)
}

/// `a` followed by `b`.
pub fn concat2(a: &str, b: &str) -> (r: String)
    ensures
        r@ == a@ + b@,
{
    let s = String::from_str(a);
    s.concat(b)
}

/// `a`, `b` and `c` one after the other.
pub fn concat3(a: &str, b: &str, c: &str) -> (r: String)
    ensures
        r@ == a@ + b@ + c@,
{
    let s = String::from_str(a);
    let s = s.concat(b);
    s.concat(c)
}

/// Whether two strings hold the same characters.
pub fn str_eq(a: &str, b: &str) -> (r: bool)
    ensures
        r <==> a@ == b@,
{
    let x = chars_of(a);
    let y = chars_of(b);
    seq_eq(&x, &y)
}

/// Whether two character vectors are equal.
pub fn seq_eq(x: &Vec<char>, y: &Vec<char>) -> (r: bool)
    ensures
        r <==> x@ == y@,
{
    if x.len() != y.len() {
        return false;
    }
    let mut i: usize = 0;
    while i < x.len()
        invariant
            x.len() == y.len(),
            i <= x.len(),
            forall|k: int| 0 <= k < i ==> x@[k] == y@[k],
        decreases x.len() - i,
    {
        if x[i] != y[i] {
            return false;
        }
        i += 1;
    }
    assert(x@ =~= y@);
    true
}

/// The first `n` characters of `s` (all of them if it has fewer).
pub open spec fn take_chars(s: Seq<char>, n: nat) -> Seq<char> {
    if s.len() <= n {
        s
    } else {
        s.take(n as int)
    }
}

/// `s.chars().take(n).collect()`.
pub fn first_chars(s: &str, n: usize) -> (r: String)
    ensures
        r@ == take_chars(s@, n as nat),
{
    let v = chars_of(s);
    if v.len() <= n {
        string_of(&v)
    } else {
        string_of_range(&v, 0, n)
    }
}

// ---------------------------------------------------------------------------
// Whitespace and trimming
// ---------------------------------------------------------------------------

/// Unicode `White_Space`, the property that `char::is_whitespace` and
/// `str::trim` go by.
pub open spec fn is_ws(c: char) -> bool {
    let u = c as u32;
    ||| 0x09 <= u <= 0x0D
    ||| u == 0x20
    ||| u == 0x85
    ||| u == 0xA0
    ||| u == 0x1680
    ||| 0x2000 <= u <= 0x200A
    ||| u == 0x2028
    ||| u == 0x2029
    ||| u == 0x202F
    ||| u == 0x205F
    ||| u == 0x3000
}

/// `char::is_whitespace`.
pub fn is_whitespace(c: char) -> (r: bool)
    ensures
        r == is_ws(c),
{
    let u = c as u32;
    (0x09 <= u && u <= 0x0D) || u == 0x20 || u == 0x85 || u == 0xA0 || u == 0x1680 || (0x2000
        <= u && u <= 0x200A) || u == 0x2028 || u == 0x2029 || u == 0x202F || u == 0x205F || u
        == 0x3000
}

/// The index of the first non-whitespace character at or after `i`
/// (`s.len()` when there is none).
pub open spec fn lead_end(s: Seq<char>, i: int) -> int
    decreases s.len() - i,
{
    if 0 <= i < s.len() && is_ws(s[i]) {
        lead_end(s, i + 1)
    } else {
        i
    }
}

/// The end of `s[lo..j]` once the whitespace at its end is cut off.
pub open spec fn trail_start(s: Seq<char>, lo: int, j: int) -> int
    decreases j - lo,
{
    if lo < j && is_ws(s[j - 1]) {
        trail_start(s, lo, j - 1)
    } else {
        j
    }
}

/// `str::trim`: `s` without its leading and trailing whitespace.
pub open spec fn trim_seq(s: Seq<char>) -> Seq<char> {
    let lo = lead_end(s, 0);
    s.subrange(lo, trail_start(s, lo, s.len() as int))
}

/// `str::trim_end`: `s` without its trailing whitespace.
pub open spec fn trim_end_seq(s: Seq<char>) -> Seq<char> {
    s.subrange(0, trail_start(s, 0, s.len() as int))
}

pub proof fn lemma_lead_end_bounds(s: Seq<char>, i: int)
    requires
        0 <= i <= s.len(),
    ensures
        i <= lead_end(s, i) <= s.len(),
        lead_end(s, i) < s.len() ==> !is_ws(s[lead_end(s, i)]),
        forall|k: int| i <= k < lead_end(s, i) ==> is_ws(#[trigger] s[k]),
    decreases s.len() - i,
{
    if i < s.len() && is_ws(s[i]) {
        lemma_lead_end_bounds(s, i + 1);
    }
}

pub proof fn lemma_trail_start_bounds(s: Seq<char>, lo: int, j: int)
    requires
        0 <= lo <= j <= s.len(),
    ensures
        lo <= trail_start(s, lo, j) <= j,
        lo < trail_start(s, lo, j) ==> !is_ws(s[trail_start(s, lo, j) - 1]),
        forall|k: int| trail_start(s, lo, j) <= k < j ==> is_ws(#[trigger] s[k]),
    decreases j - lo,
{
    if lo < j && is_ws(s[j - 1]) {
        lemma_trail_start_bounds(s, lo, j - 1);
    }
}

/// The bounds of `trim_seq(v)` inside `v`.
fn trim_bounds(v: &Vec<char>) -> (r: (usize, usize))
    ensures
        r.0 == lead_end(v@, 0),
        r.1 == trail_start(v@, r.0 as int, v@.len() as int),
        r.0 <= r.1 <= v.len(),
{
    let n = v.len();
    let mut i: usize = 0;
    while i < n && is_whitespace(v[i])
        invariant
            i <= n == v.len(),
            lead_end(v@, i as int) == lead_end(v@, 0),
        decreases n - i,
    {
        i += 1;
    }
    let mut j: usize = n;
    while j > i && is_whitespace(v[j - 1])
        invariant
            i <= j <= n == v.len(),
            trail_start(v@, i as int, j as int) == trail_start(v@, i as int, n as int),
        decreases j,
    {
        j -= 1;
    }
    (i, j)
}

/// `s.trim()` as characters.
pub fn trim_chars(v: &Vec<char>) -> (r: Vec<char>)
    ensures
        r@ == trim_seq(v@),
{
    let (lo, hi) = trim_bounds(v);
    let mut r: Vec<char> = Vec::new();
    let mut i = lo;
    while i < hi
        invariant
            lo <= i <= hi <= v.len(),
            r@ == v@.subrange(lo as int, i as int),
        decreases hi - i,
    {
        r.push(v[i]);
        assert(v@.subrange(lo as int, i + 1) == v@.subrange(lo as int, i as int).push(v@[i as int]));
        i += 1;
    }
    r
}

/// `s.trim().to_string()`.
pub fn trim(s: &str) -> (r: String)
    ensures
        r@ == trim_seq(s@),
{
    let v = chars_of(s);
    let (lo, hi) = trim_bounds(&v);
    string_of_range(&v, lo, hi)
}

/// `s.trim_end().to_string()`.
pub fn trim_end(s: &str) -> (r: String)
    ensures
        r@ == trim_end_seq(s@),
{
    let v = chars_of(s);
    let n = v.len();
    let mut j: usize = n;
    while j > 0 && is_whitespace(v[j - 1])
        invariant
            j <= n == v.len(),
            trail_start(v@, 0, j as int) == trail_start(v@, 0, n as int),
        decreases j,
    {
        j -= 1;
    }
    string_of_range(&v, 0, j)
}

/// Whether `s.trim()` is empty.
pub fn is_blank(s: &str) -> (r: bool)
    ensures
        r <==> trim_seq(s@).len() == 0,
{
    let v = chars_of(s);
    let (lo, hi) = trim_bounds(&v);
    lo == hi
}


// ---------------------------------------------------------------------------
// Searching
// ---------------------------------------------------------------------------

/// `needle` occurs in `hay` starting at index `i`.
pub open spec fn occurs_at(hay: Seq<char>, needle: Seq<char>, i: int) -> bool {
    0 <= i && i + needle.len() <= hay.len() && hay.subrange(i, i + needle.len()) == needle
}

/// `str::contains` with a string pattern.
pub open spec fn contains_seq(hay: Seq<char>, needle: Seq<char>) -> bool {
    exists|i: int| occurs_at(hay, needle, i)
}

/// `str::starts_with` with a string pattern.
pub open spec fn starts_with_seq(s: Seq<char>, p: Seq<char>) -> bool {
    p.len() <= s.len() && s.subrange(0, p.len() as int) == p
}

/// `str::ends_with` with a string pattern.
pub open spec fn ends_with_seq(s: Seq<char>, p: Seq<char>) -> bool {
    p.len() <= s.len() && s.subrange(s.len() - p.len(), s.len() as int) == p
}

/// Whether `needle` occurs in `hay` at index `i`.
fn matches_at(hay: &Vec<char>, needle: &Vec<char>, i: usize) -> (r: bool)
    requires
        i + needle.len() <= hay.len(),
    ensures
        r <==> occurs_at(hay@, needle@, i as int),
{
    let mut k: usize = 0;
    while k < needle.len()
        invariant
            i + needle.len() <= hay.len(),
            k <= needle.len(),
            forall|j: int| 0 <= j < k ==> hay@[i + j] == needle@[j],
        decreases needle.len() - k,
    {
        if hay[i + k] != needle[k] {
            assert(hay@.subrange(i as int, i + needle.len())[k as int] != needle@[k as int]);
            return false;
        }
        k += 1;
    }
    assert(hay@.subrange(i as int, i + needle.len()) =~= needle@);
    true
}

/// Whether `needle` occurs somewhere in `hay`.
pub fn contains_chars(hay: &Vec<char>, needle: &Vec<char>) -> (r: bool)
    ensures
        r <==> contains_seq(hay@, needle@),
{
    if needle.len() > hay.len() {
        return false;
    }
    let last = hay.len() - needle.len();
    let mut i: usize = 0;
    loop
        invariant
            last + needle.len() == hay.len(),
            i <= last,
            forall|j: int| 0 <= j < i ==> !occurs_at(hay@, needle@, j),
        ensures
            forall|j: int| 0 <= j <= last ==> !occurs_at(hay@, needle@, j),
        decreases last - i,
    {
        if matches_at(hay, needle, i) {
            return true;
        }
        if i == last {
            break;
        }
        i += 1;
    }
    proof {
        true_if_none_occurs(hay@, needle@, last as int);
    }
    false
}

proof fn true_if_none_occurs(hay: Seq<char>, needle: Seq<char>, last: int)
    requires
        last + needle.len() == hay.len(),
        forall|j: int| 0 <= j < last + 1 ==> !occurs_at(hay, needle, j),
    ensures
        !contains_seq(hay, needle),
{
}

/// `hay.contains(needle)`.
pub fn contains(hay: &str, needle: &str) -> (r: bool)
    ensures
        r <==> contains_seq(hay@, needle@),
{
    let h = chars_of(hay);
    let n = chars_of(needle);
    contains_chars(&h, &n)
}

/// `s.starts_with(p)`.
pub fn starts_with(s: &str, p: &str) -> (r: bool)
    ensures
        r <==> starts_with_seq(s@, p@),
{
    let v = chars_of(s);
    let w = chars_of(p);
    if w.len() > v.len() {
        return false;
    }
    let r = matches_at(&v, &w, 0);
    r
}

/// `s.ends_with(p)`.
pub fn ends_with(s: &str, p: &str) -> (r: bool)
    ensures
        r <==> ends_with_seq(s@, p@),
{
    let v = chars_of(s);
    let w = chars_of(p);
    if w.len() > v.len() {
        return false;
    }
    matches_at(&v, &w, v.len() - w.len())
}

// ---------------------------------------------------------------------------
// Splitting
// ---------------------------------------------------------------------------

/// The index of the first `c` in `s`, or `s.len()` when there is none.
pub open spec fn first_index(s: Seq<char>, c: char) -> int
    decreases s.len(),
{
    if s.len() == 0 {
        0
    } else if s[0] == c {
        0
    } else {
        1 + first_index(s.drop_first(), c)
    }
}

pub proof fn lemma_first_index(s: Seq<char>, c: char)
    ensures
        0 <= first_index(s, c) <= s.len(),
        first_index(s, c) < s.len() ==> s[first_index(s, c)] == c,
        forall|k: int| 0 <= k < first_index(s, c) ==> s[k] != c,
    decreases s.len(),
{
    if s.len() > 0 && s[0] != c {
        lemma_first_index(s.drop_first(), c);
        assert forall|k: int| 0 <= k < first_index(s, c) implies s[k] != c by {
            if k > 0 {
                assert(s[k] == s.drop_first()[k - 1]);
            }
        }
    }
}

pub proof fn lemma_first_index_is(s: Seq<char>, c: char, j: int)
    requires
        0 <= j <= s.len(),
        j < s.len() ==> s[j] == c,
        forall|k: int| 0 <= k < j ==> s[k] != c,
    ensures
        first_index(s, c) == j,
    decreases s.len(),
{
    if s.len() > 0 && s[0] != c {
        assert forall|k: int| 0 <= k < j - 1 implies s.drop_first()[k] != c by {
            assert(s.drop_first()[k] == s[k + 1]);
        }
        lemma_first_index_is(s.drop_first(), c, j - 1);
    }
}

/// `str::split` on a single character: the pieces between the occurrences of `c`.
pub open spec fn split_seq(s: Seq<char>, c: char) -> Seq<Seq<char>>
    decreases s.len(),
{
    let k = first_index(s, c);
    if k >= s.len() {
        seq![s]
    } else {
        proof {
            lemma_first_index(s, c);
        }
        seq![s.take(k)] + split_seq(s.skip(k + 1), c)
    }
}

/// The pieces of `v` between the occurrences of `c`.
pub fn split_chars(v: &Vec<char>, c: char) -> (r: Vec<Vec<char>>)
    ensures
        r@.len() == split_seq(v@, c).len(),
        forall|i: int| 0 <= i < r@.len() ==> #[trigger] r@[i]@ == split_seq(v@, c)[i],
{
    let mut pieces: Vec<Vec<char>> = Vec::new();
    let mut cur: Vec<char> = Vec::new();
    let mut start: usize = 0;
    let mut i: usize = 0;
    let ghost s = v@;
    assert(s.skip(0) =~= s);
    while i < v.len()
        invariant
            s == v@,
            start <= i <= v.len(),
            cur@ == s.subrange(start as int, i as int),
            forall|k: int| start <= k < i ==> s[k] != c,
            pieces@.len() + split_seq(s.skip(start as int), c).len() == split_seq(s, c).len(),
            forall|j: int|
                0 <= j < pieces@.len() ==> #[trigger] pieces@[j]@ == split_seq(s, c)[j],
            forall|j: int|
                0 <= j < split_seq(s.skip(start as int), c).len() ==> split_seq(s, c)[pieces@.len()
                    + j] == #[trigger] split_seq(s.skip(start as int), c)[j],
        decreases v.len() - i,
    {
        if v[i] == c {
            let ghost rest = s.skip(start as int);
            proof {
                assert forall|k: int| 0 <= k < i - start implies rest[k] != c by {
                    assert(rest[k] == s[start + k]);
                }
                lemma_first_index_is(rest, c, i - start);
                assert(rest.take(i - start) =~= cur@);
                assert(rest.skip(i - start + 1) =~= s.skip(i + 1));
                assert(split_seq(rest, c) == seq![rest.take(i - start)] + split_seq(
                    s.skip(i + 1),
                    c,
                ));
                assert(split_seq(s, c)[pieces@.len() as int] == split_seq(rest, c)[0]);
                assert forall|j: int| 0 <= j < split_seq(s.skip(i + 1), c).len() implies split_seq(
                    s,
                    c,
                )[pieces@.len() + 1 + j] == #[trigger] split_seq(s.skip(i + 1), c)[j] by {
                    assert(split_seq(s.skip(i + 1), c)[j] == split_seq(rest, c)[1 + j]);
                }
            }
            pieces.push(cur);
            cur = Vec::new();
            start = i + 1;
        } else {
            cur.push(v[i]);
            assert(s.subrange(start as int, i + 1) == s.subrange(start as int, i as int).push(s[i as int]));
        }
        i += 1;
    }
    let ghost rest = s.skip(start as int);
    proof {
        assert forall|k: int| 0 <= k < rest.len() implies rest[k] != c by {
            assert(rest[k] == s[start + k]);
        }
        lemma_first_index_is(rest, c, rest.len() as int);
        assert(rest =~= cur@);
        assert(split_seq(rest, c) == seq![rest]);
        assert(split_seq(s, c)[pieces@.len() as int] == split_seq(rest, c)[0]);
    }
    pieces.push(cur);
    pieces
}

/// The last piece of `str::rsplit` on `c` (what `rsplit(c).next()` yields).
pub open spec fn last_piece(s: Seq<char>, c: char) -> Seq<char> {
    split_seq(s, c).last()
}

pub proof fn lemma_split_nonempty(s: Seq<char>, c: char)
    ensures
        split_seq(s, c).len() >= 1,
    decreases s.len(),
{
    lemma_first_index(s, c);
    if first_index(s, c) < s.len() {
        lemma_split_nonempty(s.skip(first_index(s, c) + 1), c);
    }
}

/// The first line of `s` as `str::lines` yields it: text up to the first
/// line feed, without a trailing carriage return; `None` for an empty `s`.
pub open spec fn first_line_seq(s: Seq<char>) -> Option<Seq<char>> {
    if s.len() == 0 {
        None
    } else {
        let l = split_seq(s, '\n')[0];
        if l.len() > 0 && l.last() == '\r' {
            Some(l.drop_last())
        } else {
            Some(l)
        }
    }
}

/// `s.lines().next()`.
pub fn first_line(s: &str) -> (r: Option<String>)
    ensures
        match r {
            Some(l) => first_line_seq(s@) == Some(l@),
            None => first_line_seq(s@) is None,
        },
{
    let v = chars_of(s);
    if v.len() == 0 {
        return None;
    }
    let pieces = split_chars(&v, '\n');
    proof {
        lemma_split_nonempty(v@, '\n');
    }
    let l = &pieces[0];
    if l.len() > 0 && l[l.len() - 1] == '\r' {
        Some(string_of_range(l, 0, l.len() - 1))
    } else {
        Some(string_of(l))
    }
}

// ---------------------------------------------------------------------------
// Case
// ---------------------------------------------------------------------------

/// `char::to_ascii_lowercase`.
pub open spec fn ascii_lower(c: char) -> char {
    if 'A' <= c <= 'Z' {
        ((c as u32) + 32) as char
    } else {
        c
    }
}

/// `str::to_ascii_lowercase` as characters.
pub open spec fn ascii_lower_seq(s: Seq<char>) -> Seq<char> {
    s.map_values(|c: char| ascii_lower(c))
}

/// Every character of `s` is ASCII.
pub open spec fn all_ascii(s: Seq<char>) -> bool {
    forall|i: int| 0 <= i < s.len() ==> (s[i] as u32) < 128
}

/// `str::eq_ignore_ascii_case`.
pub open spec fn eq_ignore_ascii_case_seq(a: Seq<char>, b: Seq<char>) -> bool {
    ascii_lower_seq(a) == ascii_lower_seq(b)
}

fn lower_ascii_char(c: char) -> (r: char)
    ensures
        r == ascii_lower(c),
{
    if 'A' <= c && c <= 'Z' {
        let b: u8 = (c as u8) + 32;
        b as char
    } else {
        c
    }
}

/// `a.eq_ignore_ascii_case(b)`.
pub fn eq_ignore_ascii_case(a: &str, b: &str) -> (r: bool)
    ensures
        r <==> eq_ignore_ascii_case_seq(a@, b@),
{
    let x = chars_of(a);
    let y = chars_of(b);
    if x.len() != y.len() {
        assert(ascii_lower_seq(a@).len() != ascii_lower_seq(b@).len());
        return false;
    }
    let mut i: usize = 0;
    while i < x.len()
        invariant
            x@ == a@,
            y@ == b@,
            x.len() == y.len(),
            i <= x.len(),
            forall|k: int| 0 <= k < i ==> ascii_lower(x@[k]) == ascii_lower(y@[k]),
        decreases x.len() - i,
    {
        if lower_ascii_char(x[i]) != lower_ascii_char(y[i]) {
            assert(ascii_lower_seq(a@)[i as int] != ascii_lower_seq(b@)[i as int]);
            return false;
        }
        i += 1;
    }
    assert(ascii_lower_seq(a@) =~= ascii_lower_seq(b@));
    true
}

/// What `str::to_lowercase` returns for a string: the Unicode lowercase
/// mapping of each character, which can change the length of the text.
pub uninterp spec fn unicode_lowercase(s: Seq<char>) -> Seq<char>;

/// `str::to_lowercase`: ASCII text is lowered letter by letter; other text
/// is lowered by the Unicode mapping, which `unicode_lowercase` names.
pub open spec fn lowercase_seq(s: Seq<char>) -> Seq<char> {
    if all_ascii(s) {
        ascii_lower_seq(s)
    } else {
        unicode_lowercase(s)
    }
}

/// std's `str::to_lowercase`. Trusted: the result is `unicode_lowercase` of
/// the argument, and for ASCII text it is the ASCII lowercase of it (the
/// Unicode lowercase of an ASCII letter is its ASCII lowercase, and other ASCII
/// characters map to themselves). Nothing else about non-ASCII text is stated.
#[verifier::external_body]
pub(crate) fn to_lowercase(s: &str) -> (r: String)
    ensures
        all_ascii(s@) ==> r@ == ascii_lower_seq(s@),
        !all_ascii(s@) ==> r@ == unicode_lowercase(s@),
{
    s.to_lowercase()
}

// ---------------------------------------------------------------------------
// Decimal numbers
// ---------------------------------------------------------------------------

/// The ASCII digit for `d` (`0 <= d < 10`).
pub open spec fn digit_char(d: nat) -> char {
    (('0' as u32) + d) as char
}

/// The decimal digits of `n`, most significant first, without leading zeros.
pub open spec fn digits_of(n: nat) -> Seq<char>
    decreases n,
{
    if n < 10 {
        seq![digit_char(n)]
    } else {
        digits_of(n / 10).push(digit_char(n % 10))
    }
}

/// `n` written in decimal as `format!("{}", n)` writes an integer.
pub open spec fn decimal(n: int) -> Seq<char> {
    if n < 0 {
        seq!['-'] + digits_of((-n) as nat)
    } else {
        digits_of(n as nat)
    }
}

fn digit(d: u64) -> (c: char)
    requires
        d < 10,
    ensures
        c == digit_char(d as nat),
{
    let b: u8 = 48u8 + (d as u8);
    b as char
}

/// The decimal digits of `m`.
fn digits_u64(m: u64) -> (v: Vec<char>)
    ensures
        v@ == digits_of(m as nat),
    decreases m,
{
    if m < 10 {
        let mut v = Vec::new();
        v.push(digit(m));
        v
    } else {
        let mut v = digits_u64(m / 10);
        v.push(digit(m % 10));
        v
    }
}

/// `n.to_string()` for a 64-bit integer.
pub fn decimal_i64(n: i64) -> (r: String)
    ensures
        r@ == decimal(n as int),
{
    if n < 0 {
        let m: u64 = if n == i64::MIN {
            9223372036854775808u64
        } else {
            (-n) as u64
        };
        let mut v: Vec<char> = Vec::new();
        v.push('-');
        let d = digits_u64(m);
        let mut i: usize = 0;
        while i < d.len()
            invariant
                i <= d.len(),
                v@ == seq!['-'] + d@.take(i as int),
            decreases d.len() - i,
        {
            v.push(d[i]);
            assert(d@.take(i + 1) == d@.take(i as int).push(d@[i as int]));
            i += 1;
        }
        assert(d@.take(d.len() as int) == d@);
        string_of(&v)
    } else {
        let d = digits_u64(n as u64);
        string_of(&d)
    }
}


// ---------------------------------------------------------------------------
// Joining
// ---------------------------------------------------------------------------

/// `[T]::join` with a one-character separator.
pub open spec fn join_seq(parts: Seq<Seq<char>>, sep: char) -> Seq<char>
    decreases parts.len(),
{
    if parts.len() == 0 {
        seq![]
    } else if parts.len() == 1 {
        parts[0]
    } else {
        parts[0] + seq![sep] + join_seq(parts.drop_first(), sep)
    }
}

/// The character sequences held by a vector of character vectors.
pub open spec fn char_views(v: Seq<Vec<char>>) -> Seq<Seq<char>> {
    v.map_values(|p: Vec<char>| p@)
}

/// The character sequences held by a vector of strings.
pub open spec fn string_views(v: Seq<String>) -> Seq<Seq<char>> {
    v.map_values(|p: String| p@)
}

pub proof fn lemma_join_push(parts: Seq<Seq<char>>, x: Seq<char>, sep: char)
    requires
        parts.len() >= 1,
    ensures
        join_seq(parts.push(x), sep) == join_seq(parts, sep) + seq![sep] + x,
    decreases parts.len(),
{
    let q = parts.push(x);
    assert(q[0] == parts[0]);
    if parts.len() == 1 {
        assert(q.drop_first() =~= seq![x]);
        assert(join_seq(seq![x], sep) == x);
        assert(join_seq(q, sep) == parts[0] + seq![sep] + join_seq(q.drop_first(), sep));
        assert(join_seq(parts, sep) == parts[0]);
    } else {
        assert(q.drop_first() =~= parts.drop_first().push(x));
        lemma_join_push(parts.drop_first(), x, sep);
        assert(join_seq(q, sep) == parts[0] + seq![sep] + join_seq(q.drop_first(), sep));
        assert(join_seq(parts, sep) == parts[0] + seq![sep] + join_seq(parts.drop_first(), sep));
        assert(join_seq(q, sep) =~= join_seq(parts, sep) + seq![sep] + x);
    }
}

/// `parts.join(sep)` over character vectors.
pub fn join_chars(parts: &Vec<Vec<char>>, sep: char) -> (r: Vec<char>)
    ensures
        r@ == join_seq(char_views(parts@), sep),
{
    let mut r: Vec<char> = Vec::new();
    let mut i: usize = 0;
    while i < parts.len()
        invariant
            i <= parts.len(),
            r@ == join_seq(char_views(parts@).take(i as int), sep),
        decreases parts.len() - i,
    {
        let ghost before = r@;
        if i > 0 {
            r.push(sep);
        }
        let p = &parts[i];
        let mut k: usize = 0;
        while k < p.len()
            invariant
                k <= p.len(),
                i > 0 ==> r@ == before + seq![sep] + p@.take(k as int),
                i == 0 ==> r@ == before + p@.take(k as int),
            decreases p.len() - k,
        {
            r.push(p[k]);
            assert(p@.take(k + 1) == p@.take(k as int).push(p@[k as int]));
            k += 1;
        }
        proof {
            assert(p@.take(p.len() as int) == p@);
            let v = char_views(parts@);
            assert(v.take(i + 1) == v.take(i as int).push(v[i as int]));
            if i > 0 {
                lemma_join_push(v.take(i as int), v[i as int], sep);
            } else {
                assert(v.take(0) == Seq::<Seq<char>>::empty());
                assert(join_seq(v.take(1), sep) == v.take(1)[0]);
            }
        }
        i += 1;
    }
    assert(char_views(parts@).take(parts.len() as int) == char_views(parts@));
    r
}

/// `parts.join(sep)` over strings.
pub fn join_strings(parts: &Vec<String>, sep: char) -> (r: String)
    ensures
        r@ == join_seq(string_views(parts@), sep),
{
    let mut cv: Vec<Vec<char>> = Vec::new();
    let mut i: usize = 0;
    while i < parts.len()
        invariant
            i <= parts.len(),
            cv.len() == i,
            char_views(cv@) == string_views(parts@).take(i as int),
        decreases parts.len() - i,
    {
        let ghost old_cv = cv@;
        let c = chars_of(parts[i].as_str());
        cv.push(c);
        proof {
            assert(cv@ == old_cv.push(c));
            assert forall|k: int| 0 <= k < i + 1 implies #[trigger] char_views(cv@)[k]
                == string_views(parts@).take(i + 1)[k] by {
                if k < i {
                    assert(char_views(cv@)[k] == cv@[k]@);
                    assert(cv@[k] == old_cv[k]);
                    assert(char_views(old_cv)[k] == old_cv[k]@);
                }
            }
            assert(char_views(cv@) =~= string_views(parts@).take(i + 1));
        }
        i += 1;
    }
    assert(string_views(parts@).take(parts.len() as int) == string_views(parts@));
    let j = join_chars(&cv, sep);
    string_of(&j)
}

/// No element of `s` is `c`.
pub open spec fn lacks(s: Seq<char>, c: char) -> bool {
    forall|j: int| 0 <= j < s.len() ==> s[j] != c
}

/// Splitting a joined list at its separator gives the list back, when no
/// piece holds the separator.
pub proof fn lemma_split_join(parts: Seq<Seq<char>>, c: char)
    requires
        parts.len() >= 1,
        forall|i: int| 0 <= i < parts.len() ==> lacks(#[trigger] parts[i], c),
    ensures
        split_seq(join_seq(parts, c), c) == parts,
    decreases parts.len(),
{
    let p0 = parts[0];
    if parts.len() == 1 {
        lemma_first_index_is(p0, c, p0.len() as int);
        assert(split_seq(p0, c) =~= seq![p0]);
    } else {
        let rest = parts.drop_first();
        assert forall|i: int| 0 <= i < rest.len() implies lacks(#[trigger] rest[i], c) by {
            assert(rest[i] == parts[i + 1]);
        }
        lemma_split_join(rest, c);
        let j = join_seq(parts, c);
        assert(j == p0 + seq![c] + join_seq(rest, c));
        assert forall|k: int| 0 <= k < p0.len() implies j[k] != c by {
            assert(j[k] == p0[k]);
        }
        lemma_first_index_is(j, c, p0.len() as int);
        assert(j.take(p0.len() as int) =~= p0);
        assert(j.skip(p0.len() as int + 1) =~= join_seq(rest, c));
        assert(split_seq(j, c) =~= seq![p0] + rest);
        assert(seq![p0] + rest =~= parts);
    }
}


// ---------------------------------------------------------------------------
// Trimming a given character
// ---------------------------------------------------------------------------

/// The index of the first character other than `c` at or after `i`.
pub open spec fn lead_end_char(s: Seq<char>, c: char, i: int) -> int
    decreases s.len() - i,
{
    if 0 <= i < s.len() && s[i] == c {
        lead_end_char(s, c, i + 1)
    } else {
        i
    }
}

/// The end of `s[lo..j]` once the copies of `c` at its end are cut off.
pub open spec fn trail_start_char(s: Seq<char>, c: char, lo: int, j: int) -> int
    decreases j - lo,
{
    if lo < j && s[j - 1] == c {
        trail_start_char(s, c, lo, j - 1)
    } else {
        j
    }
}

/// `str::trim_matches(c)`: `s` without the copies of `c` at either end.
pub open spec fn trim_char_seq(s: Seq<char>, c: char) -> Seq<char> {
    let lo = lead_end_char(s, c, 0);
    s.subrange(lo, trail_start_char(s, c, lo, s.len() as int))
}

/// `str::trim_end_matches(c)`: `s` without the copies of `c` at its end.
pub open spec fn trim_end_char_seq(s: Seq<char>, c: char) -> Seq<char> {
    s.subrange(0, trail_start_char(s, c, 0, s.len() as int))
}

/// `s.trim_matches(c)` as characters.
pub fn trim_char_chars(v: &Vec<char>, c: char) -> (r: Vec<char>)
    ensures
        r@ == trim_char_seq(v@, c),
{
    let n = v.len();
    let mut i: usize = 0;
    while i < n && v[i] == c
        invariant
            i <= n == v.len(),
            lead_end_char(v@, c, i as int) == lead_end_char(v@, c, 0),
        decreases n - i,
    {
        i += 1;
    }
    let mut j: usize = n;
    while j > i && v[j - 1] == c
        invariant
            i <= j <= n == v.len(),
            trail_start_char(v@, c, i as int, j as int) == trail_start_char(v@, c, i as int, n as int),
        decreases j,
    {
        j -= 1;
    }
    let mut r: Vec<char> = Vec::new();
    let mut k = i;
    while k < j
        invariant
            i <= k <= j <= v.len(),
            r@ == v@.subrange(i as int, k as int),
        decreases j - k,
    {
        r.push(v[k]);
        assert(v@.subrange(i as int, k + 1) == v@.subrange(i as int, k as int).push(v@[k as int]));
        k += 1;
    }
    r
}

/// `s.trim_matches(c).to_string()`.
pub fn trim_char(s: &str, c: char) -> (r: String)
    ensures
        r@ == trim_char_seq(s@, c),
{
    let v = chars_of(s);
    let t = trim_char_chars(&v, c);
    string_of(&t)
}

/// `s.trim_end_matches(c).to_string()`.
pub fn trim_end_char(s: &str, c: char) -> (r: String)
    ensures
        r@ == trim_end_char_seq(s@, c),
{
    let v = chars_of(s);
    let n = v.len();
    let mut j: usize = n;
    while j > 0 && v[j - 1] == c
        invariant
            j <= n == v.len(),
            trail_start_char(v@, c, 0, j as int) == trail_start_char(v@, c, 0, n as int),
        decreases j,
    {
        j -= 1;
    }
    string_of_range(&v, 0, j)
}

/// The index of the first occurrence of `needle` in `hay` at or after `i`.
pub open spec fn index_of(hay: Seq<char>, needle: Seq<char>, i: int) -> Option<int>
    decreases hay.len() + 1 - i,
{
    if i < 0 || i + needle.len() > hay.len() {
        None
    } else if occurs_at(hay, needle, i) {
        Some(i)
    } else {
        index_of(hay, needle, i + 1)
    }
}

/// `str::find` with a string pattern, as a character index.
pub fn find(hay: &Vec<char>, needle: &Vec<char>) -> (r: Option<usize>)
    ensures
        match r {
            Some(i) => index_of(hay@, needle@, 0) == Some(i as int) && occurs_at(
                hay@,
                needle@,
                i as int,
            ),
            None => index_of(hay@, needle@, 0) is None,
        },
{
    if needle.len() > hay.len() {
        return None;
    }
    let last = hay.len() - needle.len();
    let mut i: usize = 0;
    loop
        invariant
            last + needle.len() == hay.len(),
            i <= last,
            index_of(hay@, needle@, i as int) == index_of(hay@, needle@, 0),
        decreases last - i,
    {
        if matches_at(hay, needle, i) {
            return Some(i);
        }
        if i == last {
            assert(index_of(hay@, needle@, i + 1) is None);
            return None;
        }
        i += 1;
    }
}


// ---------------------------------------------------------------------------
// More splitting and joining
// ---------------------------------------------------------------------------

/// The non-empty pieces of `ps`, in order.
pub open spec fn nonempty_pieces(ps: Seq<Seq<char>>) -> Seq<Seq<char>>
    decreases ps.len(),
{
    if ps.len() == 0 {
        ps
    } else if ps.last().len() == 0 {
        nonempty_pieces(ps.drop_last())
    } else {
        nonempty_pieces(ps.drop_last()).push(ps.last())
    }
}

/// `s.split(c).filter(|p| !p.is_empty())`.
pub fn nonempty_split(v: &Vec<char>, c: char) -> (r: Vec<Vec<char>>)
    ensures
        char_views(r@) == nonempty_pieces(split_seq(v@, c)),
{
    let pieces = split_chars(v, c);
    let ghost sp = split_seq(v@, c);
    let mut r: Vec<Vec<char>> = Vec::new();
    let mut i: usize = 0;
    while i < pieces.len()
        invariant
            pieces@.len() == sp.len(),
            forall|j: int| 0 <= j < pieces@.len() ==> #[trigger] pieces@[j]@ == sp[j],
            i <= pieces.len(),
            char_views(r@) == nonempty_pieces(sp.take(i as int)),
        decreases pieces.len() - i,
    {
        proof {
            assert(sp.take(i + 1).drop_last() =~= sp.take(i as int));
            assert(sp.take(i + 1).last() == sp[i as int]);
        }
        if pieces[i].len() > 0 {
            let ghost before = r@;
            let p = pieces[i].clone();
            r.push(p);
            proof {
                assert(p@ == pieces@[i as int]@);
                assert(char_views(r@) =~= char_views(before).push(sp[i as int]));
            }
        }
        i += 1;
    }
    assert(sp.take(pieces.len() as int) =~= sp);
    r
}

/// `str::split_once(c)`: the text before and after the first `c`.
pub open spec fn split_once_seq(s: Seq<char>, c: char) -> Option<(Seq<char>, Seq<char>)> {
    let k = first_index(s, c);
    if k < s.len() {
        Some((s.take(k), s.skip(k + 1)))
    } else {
        None
    }
}

/// `s.split_once(c)` over characters.
pub fn split_once_chars(v: &Vec<char>, c: char) -> (r: Option<(Vec<char>, Vec<char>)>)
    ensures
        match r {
            Some((a, b)) => split_once_seq(v@, c) == Some((a@, b@)),
            None => split_once_seq(v@, c) is None,
        },
{
    let mut i: usize = 0;
    while i < v.len()
        invariant
            i <= v.len(),
            forall|k: int| 0 <= k < i ==> v@[k] != c,
        decreases v.len() - i,
    {
        if v[i] == c {
            proof {
                lemma_first_index_is(v@, c, i as int);
            }
            let mut a: Vec<char> = Vec::new();
            let mut j: usize = 0;
            while j < i
                invariant
                    j <= i < v.len(),
                    a@ == v@.take(j as int),
                decreases i - j,
            {
                a.push(v[j]);
                assert(v@.take(j + 1) == v@.take(j as int).push(v@[j as int]));
                j += 1;
            }
            let mut b: Vec<char> = Vec::new();
            let mut k: usize = i + 1;
            while k < v.len()
                invariant
                    i + 1 <= k <= v.len(),
                    b@ == v@.subrange(i + 1, k as int),
                decreases v.len() - k,
            {
                b.push(v[k]);
                assert(v@.subrange(i + 1, k + 1) == v@.subrange(i + 1, k as int).push(v@[k as int]));
                k += 1;
            }
            assert(b@ =~= v@.skip(i + 1));
            return Some((a, b));
        }
        i += 1;
    }
    proof {
        lemma_first_index_is(v@, c, v@.len() as int);
    }
    None
}

/// `[T]::join` with a string separator.
pub open spec fn join_sep(parts: Seq<Seq<char>>, sep: Seq<char>) -> Seq<char>
    decreases parts.len(),
{
    if parts.len() == 0 {
        seq![]
    } else if parts.len() == 1 {
        parts[0]
    } else {
        parts[0] + sep + join_sep(parts.drop_first(), sep)
    }
}

proof fn lemma_join_sep_push(parts: Seq<Seq<char>>, x: Seq<char>, sep: Seq<char>)
    requires
        parts.len() >= 1,
    ensures
        join_sep(parts.push(x), sep) == join_sep(parts, sep) + sep + x,
    decreases parts.len(),
{
    let q = parts.push(x);
    assert(q[0] == parts[0]);
    if parts.len() == 1 {
        assert(q.drop_first() =~= seq![x]);
        assert(join_sep(seq![x], sep) == x);
        assert(join_sep(q, sep) == parts[0] + sep + join_sep(q.drop_first(), sep));
        assert(join_sep(parts, sep) == parts[0]);
    } else {
        assert(q.drop_first() =~= parts.drop_first().push(x));
        lemma_join_sep_push(parts.drop_first(), x, sep);
        assert(join_sep(q, sep) == parts[0] + sep + join_sep(q.drop_first(), sep));
        assert(join_sep(parts, sep) == parts[0] + sep + join_sep(parts.drop_first(), sep));
        assert(join_sep(q, sep) =~= join_sep(parts, sep) + sep + x);
    }
}

/// `parts.join(sep)` over strings, with a string separator.
pub fn join_with(parts: &Vec<String>, sep: &str) -> (r: String)
    ensures
        r@ == join_sep(string_views(parts@), sep@),
{
    let mut r = String::new();
    let mut i: usize = 0;
    while i < parts.len()
        invariant
            i <= parts.len(),
            r@ == join_sep(string_views(parts@).take(i as int), sep@),
        decreases parts.len() - i,
    {
        let ghost v = string_views(parts@);
        proof {
            assert(v.take(i + 1) == v.take(i as int).push(v[i as int]));
            assert(v[i as int] == parts@[i as int]@);
            if i > 0 {
                lemma_join_sep_push(v.take(i as int), v[i as int], sep@);
            } else {
                assert(join_sep(v.take(1), sep@) == v.take(1)[0]);
                assert(v.take(0) =~= Seq::<Seq<char>>::empty());
            }
        }
        if i > 0 {
            r.append(sep);
        }
        r.append(parts[i].as_str());
        i += 1;
    }
    assert(string_views(parts@).take(parts.len() as int) =~= string_views(parts@));
    r
}

// ---------------------------------------------------------------------------
// Reading integers
// ---------------------------------------------------------------------------

/// An ASCII decimal digit.
pub open spec fn is_digit(c: char) -> bool {
    '0' <= c <= '9'
}

/// The value of a string of decimal digits.
pub open spec fn digits_value(s: Seq<char>) -> int
    decreases s.len(),
{
    if s.len() == 0 {
        0
    } else {
        10 * digits_value(s.drop_last()) + ((s.last() as u32) - ('0' as u32))
    }
}

/// Every character of `s` is a decimal digit.
pub open spec fn all_digits(s: Seq<char>) -> bool {
    forall|i: int| 0 <= i < s.len() ==> is_digit(#[trigger] s[i])
}

/// `str::parse::<i64>`: an optional `+` or `-`, then one or more decimal
/// digits, whose value must fit in an `i64`.
pub open spec fn parse_i64_seq(s: Seq<char>) -> Option<i64> {
    let neg = s.len() > 0 && s[0] == '-';
    let signed = s.len() > 0 && (s[0] == '-' || s[0] == '+');
    let ds = if signed {
        s.skip(1)
    } else {
        s
    };
    if ds.len() == 0 || !all_digits(ds) {
        None
    } else {
        let v = if neg {
            -digits_value(ds)
        } else {
            digits_value(ds)
        };
        if i64::MIN <= v <= i64::MAX {
            Some(v as i64)
        } else {
            None
        }
    }
}

proof fn lemma_digits_monotone(s: Seq<char>, i: int)
    requires
        0 <= i <= s.len(),
        forall|k: int| 0 <= k < s.len() ==> is_digit(#[trigger] s[k]),
    ensures
        0 <= digits_value(s.take(i)) <= digits_value(s),
    decreases s.len() - i,
{
    if i < s.len() {
        lemma_digits_monotone(s, i + 1);
        assert(s.take(i + 1).drop_last() =~= s.take(i));
        lemma_digits_nonneg(s.take(i));
    } else {
        assert(s.take(i) =~= s);
        lemma_digits_nonneg(s);
    }
}

proof fn lemma_digits_nonneg(s: Seq<char>)
    requires
        forall|k: int| 0 <= k < s.len() ==> is_digit(#[trigger] s[k]),
    ensures
        0 <= digits_value(s),
    decreases s.len(),
{
    if s.len() > 0 {
        assert forall|k: int| 0 <= k < s.drop_last().len() implies is_digit(
            #[trigger] s.drop_last()[k],
        ) by {
            assert(s.drop_last()[k] == s[k]);
        }
        lemma_digits_nonneg(s.drop_last());
    }
}

proof fn lemma_digits_of(m: nat)
    ensures
        digits_of(m).len() >= 1,
        all_digits(digits_of(m)),
        digits_value(digits_of(m)) == m,
    decreases m,
{
    let s = digits_of(m);
    if m < 10 {
        assert(s == seq![digit_char(m)]);
        assert(s.drop_last() =~= Seq::<char>::empty());
        assert(digits_value(s.drop_last()) == 0);
        assert(digit_char(m) as u32 == ('0' as u32) + m);
        assert(s.last() == digit_char(m));
    } else {
        lemma_digits_of(m / 10);
        let p = digits_of(m / 10);
        assert(s == p.push(digit_char(m % 10)));
        assert(s.drop_last() =~= p);
        assert(digit_char(m % 10) as u32 == ('0' as u32) + m % 10);
        assert(s.last() == digit_char(m % 10));
        assert(digits_value(s) == 10 * digits_value(p) + m % 10);
        assert(10 * (m / 10) + m % 10 == m);
        assert forall|i: int| 0 <= i < s.len() implies is_digit(#[trigger] s[i]) by {
            if i < p.len() {
                assert(s[i] == p[i]);
            }
        }
    }
}

/// Reading back what `decimal` writes gives the number: every `i64` written
/// in decimal parses as itself.
pub proof fn lemma_decimal_parses(n: i64)
    ensures
        parse_i64_seq(decimal(n as int)) == Some(n),
        decimal(n as int).len() > 0,
        forall|k: int|
            0 <= k < decimal(n as int).len() ==> #[trigger] decimal(n as int)[k] == '-' || is_digit(
                decimal(n as int)[k],
            ),
{
    if n >= 0 {
        lemma_digits_of(n as nat);
        let s = digits_of(n as nat);
        assert(is_digit(s[0]));
    } else {
        let m = (-(n as int)) as nat;
        lemma_digits_of(m);
        let s = decimal(n as int);
        assert(s == seq!['-'] + digits_of(m));
        assert(s.skip(1) =~= digits_of(m));
        assert forall|k: int| 0 <= k < s.len() implies #[trigger] s[k] == '-' || is_digit(s[k]) by {
            if k > 0 {
                assert(s[k] == digits_of(m)[k - 1]);
            }
        }
    }
}

/// `s.parse::<i64>().ok()`.
pub fn parse_i64(s: &str) -> (r: Option<i64>)
    ensures
        r == parse_i64_seq(s@),
{
    let v = chars_of(s);
    let signed = v.len() > 0 && (v[0] == '-' || v[0] == '+');
    let neg = v.len() > 0 && v[0] == '-';
    let start: usize = if signed {
        1
    } else {
        0
    };
    let ghost ds = if signed {
        s@.skip(1)
    } else {
        s@
    };
    assert(ds =~= v@.skip(start as int));
    if v.len() == start {
        return None;
    }
    let mut acc: u64 = 0;
    let mut i: usize = start;
    while i < v.len()
        invariant
            v@ == s@,
            signed == (s@.len() > 0 && (s@[0] == '-' || s@[0] == '+')),
            neg == (s@.len() > 0 && s@[0] == '-'),
            start == (if signed { 1usize } else { 0usize }),
            ds == (if signed { s@.skip(1) } else { s@ }),
            start < v.len(),
            start <= i <= v.len(),
            ds == v@.skip(start as int),
            forall|k: int| 0 <= k < i - start ==> is_digit(#[trigger] ds[k]),
            acc == digits_value(ds.take(i - start)),
        decreases v.len() - i,
    {
        let c = v[i];
        assert(ds[i - start] == c);
        if !('0' <= c && c <= '9') {
            assert(!is_digit(ds[i - start]));
            return None;
        }
        let d = ((c as u32) - 48) as u64;
        assert(ds.take(i - start + 1).drop_last() =~= ds.take(i - start));
        assert(ds.take(i - start + 1).last() == c);
        let next = match acc.checked_mul(10) {
            Some(m) => m.checked_add(d),
            None => None,
        };
        match next {
            Some(n) => {
                acc = n;
            },
            None => {
                proof {
                    assert forall|k: int| 0 <= k < i - start + 1 implies is_digit(
                        #[trigger] ds.take(i - start + 1)[k],
                    ) by {
                        assert(ds.take(i - start + 1)[k] == ds[k]);
                    }
                    lemma_digits_nonneg(ds.take(i - start));
                    assert(digits_value(ds.take(i - start + 1)) > u64::MAX);
                    let rest_all_digits = forall|k: int| 0 <= k < ds.len() ==> is_digit(#[trigger] ds[k]);
                    if rest_all_digits {
                        lemma_digits_monotone(ds, i - start + 1);
                    }
                }
                return None;
            },
        }
        i += 1;
    }
    assert(ds.take(v.len() - start) =~= ds);
    if neg {
        if acc <= 9223372036854775807 {
            Some(-(acc as i64))
        } else if acc == 9223372036854775808 {
            Some(i64::MIN)
        } else {
            None
        }
    } else {
        if acc <= 9223372036854775807 {
            Some(acc as i64)
        } else {
            None
        }
    }
}


// ---------------------------------------------------------------------------
// Prefixes and the last occurrence of a character
// ---------------------------------------------------------------------------

/// `str::trim_start_matches` with a string pattern: `s` without any number
/// of leading copies of `p`.
pub open spec fn strip_prefixes(s: Seq<char>, p: Seq<char>) -> Seq<char>
    decreases s.len(),
{
    if p.len() > 0 && starts_with_seq(s, p) {
        strip_prefixes(s.skip(p.len() as int), p)
    } else {
        s
    }
}

/// `s.trim_start_matches(p)` as characters.
pub fn strip_prefixes_chars(v: &Vec<char>, p: &Vec<char>) -> (r: Vec<char>)
    ensures
        r@ == strip_prefixes(v@, p@),
{
    let mut i: usize = 0;
    if p.len() == 0 {
        return v.clone();
    }
    assert(v@.skip(0) =~= v@);
    while p.len() <= v.len() - i && matches_at(v, p, i)
        invariant
            p.len() > 0,
            i <= v.len(),
            strip_prefixes(v@.skip(i as int), p@) == strip_prefixes(v@, p@),
        decreases v.len() - i,
    {
        proof {
            assert(v@.skip(i as int).subrange(0, p@.len() as int) =~= v@.subrange(
                i as int,
                i + p@.len(),
            ));
            assert(v@.skip(i as int).skip(p@.len() as int) =~= v@.skip(i + p@.len()));
        }
        i += p.len();
    }
    proof {
        if i + p.len() <= v.len() {
            assert(v@.skip(i as int).subrange(0, p@.len() as int) =~= v@.subrange(
                i as int,
                i + p@.len(),
            ));
        }
    }
    let mut r: Vec<char> = Vec::new();
    let mut k = i;
    while k < v.len()
        invariant
            i <= k <= v.len(),
            r@ == v@.subrange(i as int, k as int),
        decreases v.len() - k,
    {
        r.push(v[k]);
        assert(v@.subrange(i as int, k + 1) == v@.subrange(i as int, k as int).push(v@[k as int]));
        k += 1;
    }
    assert(r@ =~= v@.skip(i as int));
    r
}

/// The index of the last `c` in `s[..j]`, if any.
pub open spec fn last_index_before(s: Seq<char>, c: char, j: int) -> Option<int>
    decreases j,
{
    if j <= 0 {
        None
    } else if s[j - 1] == c {
        Some(j - 1)
    } else {
        last_index_before(s, c, j - 1)
    }
}

/// `str::rfind` with a character: the index of the last `c` in `s`.
pub open spec fn last_index(s: Seq<char>, c: char) -> Option<int> {
    last_index_before(s, c, s.len() as int)
}

/// `s.rfind(c)` as a character index.
pub fn rfind_char(v: &Vec<char>, c: char) -> (r: Option<usize>)
    ensures
        match r {
            Some(i) => last_index(v@, c) == Some(i as int) && i < v.len(),
            None => last_index(v@, c) is None,
        },
{
    let mut j: usize = v.len();
    while j > 0
        invariant
            j <= v.len(),
            last_index_before(v@, c, j as int) == last_index(v@, c),
        decreases j,
    {
        if v[j - 1] == c {
            return Some(j - 1);
        }
        j -= 1;
    }
    None
}

/// `s.find(c)` as a character index (`first_index` is `s.len()` when there
/// is no `c`).
pub fn find_char(v: &Vec<char>, c: char) -> (r: Option<usize>)
    ensures
        match r {
            Some(i) => first_index(v@, c) == i && i < v.len(),
            None => first_index(v@, c) >= v@.len(),
        },
{
    let mut i: usize = 0;
    while i < v.len()
        invariant
            i <= v.len(),
            forall|k: int| 0 <= k < i ==> v@[k] != c,
        decreases v.len() - i,
    {
        if v[i] == c {
            proof {
                lemma_first_index_is(v@, c, i as int);
            }
            return Some(i);
        }
        i += 1;
    }
    proof {
        lemma_first_index_is(v@, c, v@.len() as int);
    }
    None
}

} // verus!
