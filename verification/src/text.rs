//! Character-level text operations over `Seq<char>`, with the exact meaning
//! of the `str` methods the dialog contract is written in (trim, split,
//! split_once, prefix tests, integer and decimal parsing).

use vstd::prelude::*;
use vstd::string::*;

verus! {

broadcast use vstd::string::group_string_axioms;

/// Unicode `White_Space`, the set `char::is_whitespace` (and so `str::trim`) uses.
pub open spec fn is_ws(c: char) -> bool {
    let u = c as u32;
    ||| 0x9 <= u <= 0xD
    ||| u == 0x20
    ||| u == 0x85
    ||| u == 0xA0
    ||| u == 0x1680
    ||| 0x2000 <= u <= 0x200A
    ||| u == 0x2028
    ||| u == 0x2029
    ||| u == 0x202F
    ||| u == 0x205F
    ||| u == 0x3000
}

/// `str::trim_start`.
pub open spec fn trim_start(s: Seq<char>) -> Seq<char>
    decreases s.len(),
{
    if s.len() > 0 && is_ws(s[0]) {
        trim_start(s.subrange(1, s.len() as int))
    } else {
        s
    }
}

/// `str::trim_end`.
pub open spec fn trim_end(s: Seq<char>) -> Seq<char>
    decreases s.len(),
{
    if s.len() > 0 && is_ws(s[s.len() - 1]) {
        trim_end(s.subrange(0, s.len() - 1))
    } else {
        s
    }
}

/// `str::trim`.
pub open spec fn trim(s: Seq<char>) -> Seq<char> {
    trim_end(trim_start(s))
}

/// Lower-case mapping of `str::to_lowercase` (Unicode case tables).
pub uninterp spec fn lowercase(s: Seq<char>) -> Seq<char>;

/// Text made only of ASCII characters.
pub open spec fn is_ascii_text(s: Seq<char>) -> bool {
    forall|k: int| 0 <= k < s.len() ==> (#[trigger] s[k] as u32) < 128
}

/// Unicode lower case of an ASCII character: `A`–`Z` become `a`–`z`, every
/// other ASCII character stays.
pub open spec fn ascii_lower_char(c: char) -> char {
    if 'A' <= c && c <= 'Z' {
        ((c as u32) + 32) as char
    } else {
        c
    }
}

pub open spec fn ascii_lower(s: Seq<char>) -> Seq<char> {
    s.map_values(|c: char| ascii_lower_char(c))
}

/// What `str::to_lowercase` gives: for ASCII text the ASCII mapping, for
/// other text the Unicode mapping `lowercase`.
pub open spec fn lower_text(s: Seq<char>) -> Seq<char> {
    if is_ascii_text(s) {
        ascii_lower(s)
    } else {
        lowercase(s)
    }
}

/// `str::to_lowercase`. Claimed: the result is the Unicode lower case of the
/// text, which for ASCII text maps `A`–`Z` to `a`–`z` and keeps every other
/// character; for other text it is `lowercase` of the text, a function of
/// the text alone whose case tables are not stated here.
#[verifier::external_body]
pub(crate) fn to_lowercase(s: &str) -> (r: String)
    ensures
        is_ascii_text(s@) ==> r@ == ascii_lower(s@),
        !is_ascii_text(s@) ==> r@ == lowercase(s@),
{
    s.to_lowercase()
}

/// `String::push`. Claimed, as its documentation says: the character is
/// appended and nothing else changes.
#[verifier::external_body]
pub(crate) fn push_char(s: &mut String, c: char)
    ensures
        final(s)@ == old(s)@.push(c),
{
    s.push(c);
}

/// No occurrence of `c` in `s`.
pub open spec fn no_char(s: Seq<char>, c: char) -> bool {
    forall|k: int| 0 <= k < s.len() ==> s[k] != c
}

/// Index of the first `c` in `s`.
pub open spec fn is_first_index(s: Seq<char>, c: char, i: int) -> bool {
    0 <= i < s.len() && s[i] == c && no_char(s.subrange(0, i), c)
}

/// Index of the last `c` in `s`.
pub open spec fn is_last_index(s: Seq<char>, c: char, i: int) -> bool {
    0 <= i < s.len() && s[i] == c && no_char(s.subrange(i + 1, s.len() as int), c)
}

/// `str::find(c)`.
pub open spec fn find_char(s: Seq<char>, c: char) -> Option<int> {
    if exists|i: int| is_first_index(s, c, i) {
        Some(choose|i: int| is_first_index(s, c, i))
    } else {
        None
    }
}

/// `str::rfind(c)`.
pub open spec fn rfind_char(s: Seq<char>, c: char) -> Option<int> {
    if exists|i: int| is_last_index(s, c, i) {
        Some(choose|i: int| is_last_index(s, c, i))
    } else {
        None
    }
}

/// `str::split_once(c)`.
pub open spec fn split_once(s: Seq<char>, c: char) -> Option<(Seq<char>, Seq<char>)> {
    match find_char(s, c) {
        Some(i) => Some((s.subrange(0, i), s.subrange(i + 1, s.len() as int))),
        None => None,
    }
}

/// `str::rsplit_once(c)`.
pub open spec fn rsplit_once(s: Seq<char>, c: char) -> Option<(Seq<char>, Seq<char>)> {
    match rfind_char(s, c) {
        Some(i) => Some((s.subrange(0, i), s.subrange(i + 1, s.len() as int))),
        None => None,
    }
}

pub proof fn lemma_first_index_unique(s: Seq<char>, c: char, i: int, j: int)
    requires
        is_first_index(s, c, i),
        is_first_index(s, c, j),
    ensures
        i == j,
{
    if i < j {
        assert(s.subrange(0, j)[i] == c);
    } else if j < i {
        assert(s.subrange(0, i)[j] == c);
    }
}

pub proof fn lemma_last_index_unique(s: Seq<char>, c: char, i: int, j: int)
    requires
        is_last_index(s, c, i),
        is_last_index(s, c, j),
    ensures
        i == j,
{
    if i < j {
        assert(s.subrange(i + 1, s.len() as int)[j - i - 1] == c);
    } else if j < i {
        assert(s.subrange(j + 1, s.len() as int)[i - j - 1] == c);
    }
}

pub proof fn lemma_find_some(s: Seq<char>, c: char, i: int)
    requires
        is_first_index(s, c, i),
    ensures
        find_char(s, c) == Some(i),
{
    let j = choose|j: int| is_first_index(s, c, j);
    lemma_first_index_unique(s, c, i, j);
}

pub proof fn lemma_find_facts(s: Seq<char>, c: char)
    ensures
        find_char(s, c) matches Some(i) ==> is_first_index(s, c, i),
        find_char(s, c) is None ==> no_char(s, c),
{
    if find_char(s, c) is None {
        assert forall|k: int| 0 <= k < s.len() implies s[k] != c by {
            if s[k] == c {
                lemma_first_exists(s, c, k);
            }
        }
    }
}

/// A `c` at index `k` means a first occurrence exists.
pub proof fn lemma_first_exists(s: Seq<char>, c: char, k: int)
    requires
        0 <= k < s.len(),
        s[k] == c,
    ensures
        exists|i: int| is_first_index(s, c, i),
    decreases k,
{
    if no_char(s.subrange(0, k), c) {
        assert(is_first_index(s, c, k));
    } else {
        let k2 = choose|k2: int| 0 <= k2 < k && s.subrange(0, k)[k2] == c;
        assert(s[k2] == c);
        lemma_first_exists(s, c, k2);
    }
}

/// A `c` at index `k` means a last occurrence exists.
pub proof fn lemma_last_exists(s: Seq<char>, c: char, k: int)
    requires
        0 <= k < s.len(),
        s[k] == c,
    ensures
        exists|i: int| is_last_index(s, c, i),
    decreases s.len() - k,
{
    if no_char(s.subrange(k + 1, s.len() as int), c) {
        assert(is_last_index(s, c, k));
    } else {
        let t = s.subrange(k + 1, s.len() as int);
        let k2 = choose|k2: int| 0 <= k2 < t.len() && #[trigger] t[k2] == c;
        assert(s[k + 1 + k2] == c);
        lemma_last_exists(s, c, k + 1 + k2);
    }
}

pub proof fn lemma_rfind_facts(s: Seq<char>, c: char)
    ensures
        rfind_char(s, c) matches Some(i) ==> is_last_index(s, c, i),
        rfind_char(s, c) is None ==> no_char(s, c),
{
    if rfind_char(s, c) is None {
        assert forall|k: int| 0 <= k < s.len() implies s[k] != c by {
            if s[k] == c {
                lemma_last_exists(s, c, k);
            }
        }
    }
}

pub proof fn lemma_rfind_some(s: Seq<char>, c: char, i: int)
    requires
        is_last_index(s, c, i),
    ensures
        rfind_char(s, c) == Some(i),
{
    let j = choose|j: int| is_last_index(s, c, j);
    lemma_last_index_unique(s, c, i, j);
}

/// The characters of `s`.
pub fn chars_of(s: &str) -> (v: Vec<char>)
    ensures
        v@ == s@,
{
    let mut v: Vec<char> = Vec::new();
    for c in it: s.chars()
        invariant
            v@ == it.seq().take(it.index() as int),
            it.seq() == s@,
    {
        v.push(c);
    }
    v
}

/// `char::is_whitespace`.
pub fn is_whitespace(c: char) -> (r: bool)
    ensures
        r == is_ws(c),
{
    let u = c as u32;
    (0x9 <= u && u <= 0xD) || u == 0x20 || u == 0x85 || u == 0xA0 || u == 0x1680 || (0x2000 <= u
        && u <= 0x200A) || u == 0x2028 || u == 0x2029 || u == 0x202F || u == 0x205F || u == 0x3000
}

/// Bounds of `trim_start` of `v[a..b]`.
pub fn trim_start_from(v: &Vec<char>, a: usize, b: usize) -> (i: usize)
    requires
        a <= b <= v.len(),
    ensures
        a <= i <= b,
        v@.subrange(i as int, b as int) == trim_start(v@.subrange(a as int, b as int)),
{
    let mut i = a;
    while i < b && is_whitespace(v[i])
        invariant
            a <= i <= b <= v.len(),
            trim_start(v@.subrange(a as int, b as int)) == trim_start(
                v@.subrange(i as int, b as int),
            ),
        decreases b - i,
    {
        assert(v@.subrange(i as int, b as int).subrange(1, (b - i) as int) =~= v@.subrange(
            i + 1,
            b as int,
        ));
        i = i + 1;
    }
    i
}

/// Bounds of `trim_end` of `v[a..b]`.
pub fn trim_end_to(v: &Vec<char>, a: usize, b: usize) -> (j: usize)
    requires
        a <= b <= v.len(),
    ensures
        a <= j <= b,
        v@.subrange(a as int, j as int) == trim_end(v@.subrange(a as int, b as int)),
{
    let mut j = b;
    while j > a && is_whitespace(v[j - 1])
        invariant
            a <= j <= b <= v.len(),
            trim_end(v@.subrange(a as int, b as int)) == trim_end(v@.subrange(a as int, j as int)),
        decreases j - a,
    {
        assert(v@.subrange(a as int, j as int).subrange(0, (j - a - 1) as int) =~= v@.subrange(
            a as int,
            j - 1,
        ));
        j = j - 1;
    }
    j
}

/// Bounds of `trim` of `v[a..b]`.
pub fn trim_bounds(v: &Vec<char>, a: usize, b: usize) -> (r: (usize, usize))
    requires
        a <= b <= v.len(),
    ensures
        a <= r.0 <= r.1 <= b,
        v@.subrange(r.0 as int, r.1 as int) == trim(v@.subrange(a as int, b as int)),
{
    let i = trim_start_from(v, a, b);
    let j = trim_end_to(v, i, b);
    (i, j)
}

/// First index of `c` in `v[a..b]`, relative to `a`.
pub fn find_in(v: &Vec<char>, a: usize, b: usize, c: char) -> (r: Option<usize>)
    requires
        a <= b <= v.len(),
    ensures
        r matches Some(i) ==> find_char(v@.subrange(a as int, b as int), c) == Some(i as int),
        r is None ==> find_char(v@.subrange(a as int, b as int), c) is None,
        r matches Some(i) ==> a + i < b,
{
    let ghost s = v@.subrange(a as int, b as int);
    let mut i = a;
    while i < b
        invariant
            a <= i <= b <= v.len(),
            s == v@.subrange(a as int, b as int),
            no_char(s.subrange(0, i - a), c),
        decreases b - i,
    {
        if v[i] == c {
            assert(is_first_index(s, c, (i - a) as int));
            proof {
                lemma_find_some(s, c, (i - a) as int);
            }
            return Some(i - a);
        }
        let ghost t = s.subrange(0, i + 1 - a);
        assert forall|k: int| 0 <= k < t.len() implies t[k] != c by {
            if k < i - a {
                assert(s.subrange(0, i - a)[k] == s[k]);
            }
        }
        i = i + 1;
    }
    assert(s.subrange(0, (b - a) as int) =~= s);
    None
}

/// Last index of `c` in `v[a..b]`, relative to `a`.
pub fn rfind_in(v: &Vec<char>, a: usize, b: usize, c: char) -> (r: Option<usize>)
    requires
        a <= b <= v.len(),
    ensures
        r matches Some(i) ==> rfind_char(v@.subrange(a as int, b as int), c) == Some(i as int),
        r is None ==> rfind_char(v@.subrange(a as int, b as int), c) is None,
        r matches Some(i) ==> a + i < b,
{
    let ghost s = v@.subrange(a as int, b as int);
    let mut j = b;
    while j > a
        invariant
            a <= j <= b <= v.len(),
            s == v@.subrange(a as int, b as int),
            no_char(s.subrange(j - a, s.len() as int), c),
        decreases j - a,
    {
        if v[j - 1] == c {
            assert(is_last_index(s, c, (j - 1 - a) as int));
            proof {
                lemma_rfind_some(s, c, (j - 1 - a) as int);
            }
            return Some(j - 1 - a);
        }
        let ghost t = s.subrange(j - 1 - a, s.len() as int);
        let ghost t2 = s.subrange(j - a, s.len() as int);
        assert forall|k: int| 0 <= k < t.len() implies t[k] != c by {
            if k > 0 {
                assert(t[k] == t2[k - 1]);
            }
        }
        j = j - 1;
    }
    assert(s.subrange(0, s.len() as int) =~= s);
    proof {
        lemma_rfind_facts(s, c);
    }
    None
}


/// `str::split(c)`: the pieces between occurrences of `c`, empty ones included.
pub open spec fn split_on(s: Seq<char>, c: char) -> Seq<Seq<char>>
    decreases s.len(),
{
    match find_char(s, c) {
        Some(i) => {
            proof {
                lemma_find_facts(s, c);
            }
            seq![s.subrange(0, i)] + split_on(s.subrange(i + 1, s.len() as int), c)
        },
        None => seq![s],
    }
}

/// `str::starts_with`.
pub open spec fn starts_with(s: Seq<char>, p: Seq<char>) -> bool {
    p.len() <= s.len() && s.subrange(0, p.len() as int) == p
}

/// `str::ends_with`.
pub open spec fn ends_with(s: Seq<char>, p: Seq<char>) -> bool {
    p.len() <= s.len() && s.subrange(s.len() - p.len(), s.len() as int) == p
}

/// A `String` holding `v[a..b]`.
pub fn string_of(v: &Vec<char>, a: usize, b: usize) -> (s: String)
    requires
        a <= b <= v.len(),
    ensures
        s@ == v@.subrange(a as int, b as int),
{
    let mut s = String::new();
    let mut i = a;
    while i < b
        invariant
            a <= i <= b <= v.len(),
            s@ == v@.subrange(a as int, i as int),
        decreases b - i,
    {
        push_char(&mut s, v[i]);
        assert(v@.subrange(a as int, i + 1) =~= v@.subrange(a as int, i as int).push(v@[i as int]));
        i = i + 1;
    }
    s
}

/// A `String` holding all of `v`.
pub fn string_of_all(v: &Vec<char>) -> (s: String)
    ensures
        s@ == v@,
{
    let s = string_of(v, 0, v.len());
    assert(v@.subrange(0, v@.len() as int) =~= v@);
    s
}

/// Whether `v[a..b]` is exactly the characters of `lit`.
pub fn range_is(v: &Vec<char>, a: usize, b: usize, lit: &str) -> (r: bool)
    requires
        a <= b <= v.len(),
    ensures
        r == (v@.subrange(a as int, b as int) == lit@),
{
    let w = chars_of(lit);
    if b - a != w.len() {
        return false;
    }
    let mut i: usize = 0;
    while i < w.len()
        invariant
            a <= b <= v.len(),
            b - a == w.len(),
            w@ == lit@,
            i <= w.len(),
            forall|k: int| 0 <= k < i ==> v@[a + k] == w@[k],
        decreases w.len() - i,
    {
        if v[a + i] != w[i] {
            assert(v@.subrange(a as int, b as int)[i as int] != lit@[i as int]);
            return false;
        }
        i = i + 1;
    }
    assert(v@.subrange(a as int, b as int) =~= lit@);
    true
}

/// `str == str`.
pub fn str_eq(x: &str, y: &str) -> (r: bool)
    ensures
        r == (x@ == y@),
{
    let v = chars_of(x);
    let r = range_is(&v, 0, v.len(), y);
    assert(v@.subrange(0, v@.len() as int) =~= v@);
    r
}

/// Whether `v[a..b]` starts with `lit`.
pub fn range_starts_with(v: &Vec<char>, a: usize, b: usize, lit: &str) -> (r: bool)
    requires
        a <= b <= v.len(),
    ensures
        r == starts_with(v@.subrange(a as int, b as int), lit@),
{
    let n = lit.unicode_len();
    if n > b - a {
        return false;
    }
    let r = range_is(v, a, a + n, lit);
    assert(v@.subrange(a as int, b as int).subrange(0, n as int) =~= v@.subrange(
        a as int,
        a + n,
    ));
    r
}

/// Whether `v[a..b]` ends with `lit`.
pub fn range_ends_with(v: &Vec<char>, a: usize, b: usize, lit: &str) -> (r: bool)
    requires
        a <= b <= v.len(),
    ensures
        r == ends_with(v@.subrange(a as int, b as int), lit@),
{
    let n = lit.unicode_len();
    if n > b - a {
        return false;
    }
    let r = range_is(v, b - n, b, lit);
    assert(v@.subrange(a as int, b as int).subrange((b - a - n) as int, (b - a) as int)
        =~= v@.subrange(b - n, b as int));
    r
}

/// `str::to_lowercase` of `v[a..b]`, as characters.
pub fn lower_range(v: &Vec<char>, a: usize, b: usize) -> (r: Vec<char>)
    requires
        a <= b <= v.len(),
    ensures
        r@ == lower_text(v@.subrange(a as int, b as int)),
{
    let s = string_of(v, a, b);
    let l = to_lowercase(s.as_str());
    chars_of(l.as_str())
}

/// The ranges of the pieces of `v[a..b].split(c)`.
pub fn split_ranges(v: &Vec<char>, a: usize, b: usize, c: char) -> (r: Vec<(usize, usize)>)
    requires
        a <= b <= v.len(),
    ensures
        r@.len() == split_on(v@.subrange(a as int, b as int), c).len(),
        forall|k: int|
            0 <= k < r@.len() ==> a <= (#[trigger] r@[k]).0 <= r@[k].1 <= b && v@.subrange(
                r@[k].0 as int,
                r@[k].1 as int,
            ) == split_on(v@.subrange(a as int, b as int), c)[k],
{
    let mut r: Vec<(usize, usize)> = Vec::new();
    let mut start = a;
    loop
        invariant
            a <= start <= b <= v.len(),
            forall|k: int|
                0 <= k < r@.len() ==> a <= (#[trigger] r@[k]).0 <= r@[k].1 <= b && v@.subrange(
                    r@[k].0 as int,
                    r@[k].1 as int,
                ) == split_on(v@.subrange(a as int, b as int), c)[k],
            split_on(v@.subrange(a as int, b as int), c) == r@.map_values(
                |p: (usize, usize)| v@.subrange(p.0 as int, p.1 as int),
            ) + split_on(v@.subrange(start as int, b as int), c),
        decreases b - start,
    {
        let ghost rest = v@.subrange(start as int, b as int);
        let ghost before = r@.map_values(|p: (usize, usize)| v@.subrange(p.0 as int, p.1 as int));
        match find_in(v, start, b, c) {
            Some(i) => {
                proof {
                    lemma_find_facts(rest, c);
                    assert(rest.subrange(0, i as int) =~= v@.subrange(start as int, start + i));
                    assert(rest.subrange(i + 1, rest.len() as int) =~= v@.subrange(
                        start + i + 1,
                        b as int,
                    ));
                }
                r.push((start, start + i));
                proof {
                    assert(r@.map_values(|p: (usize, usize)| v@.subrange(p.0 as int, p.1 as int))
                        =~= before.push(v@.subrange(start as int, start + i)));
                    assert(split_on(rest, c) == seq![v@.subrange(start as int, start + i)]
                        + split_on(v@.subrange(start + i + 1, b as int), c));
                    assert(before.push(v@.subrange(start as int, start + i)) + split_on(
                        v@.subrange(start + i + 1, b as int),
                        c,
                    ) =~= before + (seq![v@.subrange(start as int, start + i)] + split_on(
                        v@.subrange(start + i + 1, b as int),
                        c,
                    )));
                }
                start = start + i + 1;
            },
            None => {
                r.push((start, b));
                proof {
                    assert(split_on(rest, c) == seq![rest]);
                    assert(r@.map_values(|p: (usize, usize)| v@.subrange(p.0 as int, p.1 as int))
                        =~= before.push(rest));
                    assert(before + seq![rest] =~= before.push(rest));
                    assert(r@.len() == split_on(v@.subrange(a as int, b as int), c).len());
                    assert forall|k: int| 0 <= k < r@.len() implies a <= (#[trigger] r@[k]).0
                        <= r@[k].1 <= b && v@.subrange(r@[k].0 as int, r@[k].1 as int)
                        == split_on(v@.subrange(a as int, b as int), c)[k] by {
                        if k == r@.len() - 1 {
                            assert(split_on(v@.subrange(a as int, b as int), c)[k] == rest);
                        }
                    }
                }
                return r;
            },
        }
    }
}
/// The decimal digit character for `d` (`0..=9`).
pub open spec fn digit_char(d: int) -> char {
    if d == 0 { '0' } else if d == 1 { '1' } else if d == 2 { '2' } else if d == 3 { '3' }
    else if d == 4 { '4' } else if d == 5 { '5' } else if d == 6 { '6' } else if d == 7 { '7' }
    else if d == 8 { '8' } else { '9' }
}

/// Decimal text of a natural number, without leading zeros (`0` is `"0"`).
pub open spec fn nat_text(n: nat) -> Seq<char>
    decreases n,
{
    if n < 10 {
        seq![digit_char(n as int)]
    } else {
        nat_text(n / 10).push(digit_char((n % 10) as int))
    }
}

/// Decimal text of an integer as `Display` writes it: a `-` before negatives.
pub open spec fn int_text(i: int) -> Seq<char> {
    if i < 0 {
        seq!['-'] + nat_text((-i) as nat)
    } else {
        nat_text(i as nat)
    }
}

fn digit(d: u64) -> (c: char)
    requires
        d < 10,
    ensures
        c == digit_char(d as int),
{
    if d == 0 { '0' } else if d == 1 { '1' } else if d == 2 { '2' } else if d == 3 { '3' }
    else if d == 4 { '4' } else if d == 5 { '5' } else if d == 6 { '6' } else if d == 7 { '7' }
    else if d == 8 { '8' } else { '9' }
}

fn push_nat(s: &mut String, n: u64)
    ensures
        final(s)@ == old(s)@ + nat_text(n as nat),
    decreases n,
{
    let ghost start = old(s)@;
    if n >= 10 {
        push_nat(s, n / 10);
    }
    let d = digit(n % 10);
    push_char(s, d);
    if n >= 10 {
        assert(start + nat_text((n / 10) as nat) + seq![d] =~= start + nat_text((n / 10) as nat).push(d));
    }
    assert(s@ =~= start + nat_text(n as nat));
}

/// Appends the decimal text of `i`.
pub fn push_int(s: &mut String, i: i64)
    ensures
        final(s)@ == old(s)@ + int_text(i as int),
{
    if i < 0 {
        push_char(s, '-');
        let m: i128 = 0i128 - (i as i128);
        push_nat(s, m as u64);
        assert(old(s)@.push('-') + nat_text(m as nat) =~= old(s)@ + (seq!['-'] + nat_text(m as nat)));
    } else {
        push_nat(s, i as u64);
    }
}

/// Appends `t`.
pub fn push_text(s: &mut String, t: &str)
    ensures
        final(s)@ == old(s)@ + t@,
{
    s.append(t);
}
/// `trim_end` keeps a prefix.
pub proof fn lemma_trim_end_prefix(s: Seq<char>)
    ensures
        trim_end(s).len() <= s.len(),
        trim_end(s) == s.subrange(0, trim_end(s).len() as int),
    decreases s.len(),
{
    if s.len() > 0 && is_ws(s[s.len() - 1]) {
        let p = s.subrange(0, s.len() - 1);
        lemma_trim_end_prefix(p);
        assert(p.subrange(0, trim_end(p).len() as int) =~= s.subrange(0, trim_end(p).len() as int));
    } else {
        assert(s.subrange(0, s.len() as int) =~= s);
    }
}

/// A non-empty `trim_start` begins with a non-whitespace character.
pub proof fn lemma_trim_start_head(s: Seq<char>)
    ensures
        trim_start(s).len() > 0 ==> !is_ws(trim_start(s)[0]),
    decreases s.len(),
{
    if s.len() > 0 && is_ws(s[0]) {
        lemma_trim_start_head(s.subrange(1, s.len() as int));
    }
}

/// A non-empty `trim_end` ends with a non-whitespace character.
pub proof fn lemma_trim_end_last(s: Seq<char>)
    ensures
        trim_end(s).len() > 0 ==> !is_ws(trim_end(s).last()),
    decreases s.len(),
{
    if s.len() > 0 && is_ws(s[s.len() - 1]) {
        lemma_trim_end_last(s.subrange(0, s.len() - 1));
    }
}

/// A non-empty trimmed text starts and ends with non-whitespace.
pub proof fn lemma_trim_edges(s: Seq<char>)
    ensures
        trim(s).len() > 0 ==> !is_ws(trim(s)[0]) && !is_ws(trim(s).last()),
{
    let a = trim_start(s);
    lemma_trim_start_head(s);
    lemma_trim_end_prefix(a);
    lemma_trim_end_last(a);
    if trim(s).len() > 0 {
        assert(trim(s)[0] == a.subrange(0, trim(s).len() as int)[0]);
    }
}

/// Text that starts and ends with non-whitespace is its own trim.
pub proof fn lemma_trim_fixed(s: Seq<char>)
    requires
        s.len() > 0,
        !is_ws(s[0]),
        !is_ws(s.last()),
    ensures
        trim(s) == s,
{
}

} // verus!
