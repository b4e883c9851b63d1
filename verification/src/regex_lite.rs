//! A deliberately small regex matcher covering the anchored character-class
//! patterns endpoint scripts use (`^[A-Z0-9]{10}$`, `^.+@.+\..+$`, etc.).
//! Not a general engine: a pattern it cannot model counts as a match, so
//! validation never traps the user behind a pattern it does not understand.

use crate::number::spec_parse_usize;
use crate::number::parse_usize;
use crate::text::{chars_of, find_char, find_in, split_once};
use vstd::prelude::*;

verus! {

/// What one pattern position matches.
pub enum Class {
    Any,
    Literal(char),
    Bracket { ranges: Vec<(char, char)>, negate: bool },
}

/// A class with its repetition bounds (`usize::MAX` is unbounded).
pub struct Token {
    pub class: Class,
    pub min: usize,
    pub max: usize,
}

pub enum ClassV {
    Any,
    Literal(char),
    Bracket { ranges: Seq<(char, char)>, negate: bool },
}

pub struct TokenV {
    pub class: ClassV,
    pub min: usize,
    pub max: usize,
}

impl View for Class {
    type V = ClassV;

    open spec fn view(&self) -> ClassV {
        match self {
            Class::Any => ClassV::Any,
            Class::Literal(c) => ClassV::Literal(*c),
            Class::Bracket { ranges, negate } => ClassV::Bracket { ranges: ranges@, negate: *negate },
        }
    }
}

impl View for Token {
    type V = TokenV;

    open spec fn view(&self) -> TokenV {
        TokenV { class: self.class@, min: self.min, max: self.max }
    }
}

pub open spec fn tokens_view(t: Seq<Token>) -> Seq<TokenV> {
    t.map_values(|k: Token| k@)
}

// ---- the pattern grammar ----

/// The ranges of a bracket body: `a-z` is a range (when a character follows
/// the `-`), anything else a single character.
pub open spec fn spec_ranges(body: Seq<char>) -> Seq<(char, char)>
    decreases body.len(),
{
    if body.len() == 0 {
        Seq::empty()
    } else if 2 < body.len() && body[1] == '-' {
        seq![(body[0], body[2])] + spec_ranges(body.subrange(3, body.len() as int))
    } else {
        seq![(body[0], body[0])] + spec_ranges(body.subrange(1, body.len() as int))
    }
}

/// The class of a bracket body; a leading `^` negates it.
pub open spec fn set_class(body: Seq<char>) -> ClassV {
    if body.len() > 0 && body[0] == '^' {
        ClassV::Bracket { ranges: spec_ranges(body.subrange(1, body.len() as int)), negate: true }
    } else {
        ClassV::Bracket { ranges: spec_ranges(body), negate: false }
    }
}

/// The class that starts at `i`, with the position after it; `None` for an
/// unclosed `[`, a trailing `\`, or a group, alternation or `?`.
pub open spec fn class_at(p: Seq<char>, i: int) -> Option<(ClassV, int)> {
    let c = p[i];
    if c == '.' {
        Some((ClassV::Any, i + 1))
    } else if c == '[' {
        match find_char(p.subrange(i, p.len() as int), ']') {
            Some(k) => Some((set_class(p.subrange(i + 1, i + k)), i + k + 1)),
            None => None,
        }
    } else if c == '\\' {
        if i + 1 < p.len() {
            Some((ClassV::Literal(p[i + 1]), i + 2))
        } else {
            None
        }
    } else if c == '(' || c == ')' || c == '|' || c == '?' {
        None
    } else {
        Some((ClassV::Literal(c), i + 1))
    }
}

/// The bounds inside `{..}`: `n`, `n,` or `n,m`.
pub open spec fn bounds_of(body: Seq<char>) -> Option<(usize, usize)> {
    match split_once(body, ',') {
        Some((a, b)) => if b.len() == 0 {
            match spec_parse_usize(a) {
                Some(n) => Some((n, usize::MAX)),
                None => None,
            }
        } else {
            match (spec_parse_usize(a), spec_parse_usize(b)) {
                (Some(x), Some(y)) => Some((x, y)),
                _ => None,
            }
        },
        None => match spec_parse_usize(body) {
            Some(n) => Some((n, n)),
            None => None,
        },
    }
}

/// The quantifier at `j` (`+`, `*`, `{..}`, or none: exactly once), with the
/// position after it.
pub open spec fn quant_at(p: Seq<char>, j: int) -> Option<(usize, usize, int)> {
    if j < p.len() && p[j] == '+' {
        Some((1, usize::MAX, j + 1))
    } else if j < p.len() && p[j] == '*' {
        Some((0, usize::MAX, j + 1))
    } else if j < p.len() && p[j] == '{' {
        match find_char(p.subrange(j, p.len() as int), '}') {
            Some(k) => match bounds_of(p.subrange(j + 1, j + k)) {
                Some((lo, hi)) => Some((lo, hi, j + k + 1)),
                None => None,
            },
            None => None,
        }
    } else {
        Some((1, 1, j))
    }
}

pub proof fn lemma_find_positive(s: Seq<char>, c: char)
    requires
        s.len() > 0,
        s[0] != c,
    ensures
        find_char(s, c) matches Some(k) ==> 0 < k < s.len(),
{
    crate::text::lemma_find_facts(s, c);
}

pub proof fn lemma_class_advances(p: Seq<char>, i: int)
    requires
        0 <= i < p.len(),
    ensures
        class_at(p, i) matches Some((_, j)) ==> i < j <= p.len(),
{
    if p[i] == '[' {
        lemma_find_positive(p.subrange(i, p.len() as int), ']');
    }
}

pub proof fn lemma_quant_advances(p: Seq<char>, j: int)
    requires
        0 <= j <= p.len(),
    ensures
        quant_at(p, j) matches Some((_, _, k)) ==> j <= k <= p.len(),
{
    if j < p.len() && p[j] == '{' {
        lemma_find_positive(p.subrange(j, p.len() as int), '}');
    }
}

/// The tokens of `p` from position `i` on; `None` where the pattern uses
/// syntax outside the supported subset.
pub open spec fn tokens_from(p: Seq<char>, i: int) -> Option<Seq<TokenV>>
    decreases p.len() - i,
{
    if i < 0 || i >= p.len() {
        Some(Seq::empty())
    } else {
        match class_at(p, i) {
            None => None,
            Some((class, j)) => {
                proof {
                    lemma_class_advances(p, i);
                }
                match quant_at(p, j) {
                    None => None,
                    Some((min, max, k)) => {
                        proof {
                            lemma_quant_advances(p, j);
                        }
                        match tokens_from(p, k) {
                            None => None,
                            Some(rest) => Some(seq![TokenV { class, min, max }] + rest),
                        }
                    },
                }
            },
        }
    }
}

// ---- matching ----

pub open spec fn in_ranges(ranges: Seq<(char, char)>, c: char) -> bool {
    exists|r: int|
        0 <= r < ranges.len() && (ranges[r].0 as u32) <= (c as u32) && (c as u32) <= (
        ranges[r].1 as u32)
}

pub open spec fn class_matches_spec(class: ClassV, c: char) -> bool {
    match class {
        ClassV::Any => true,
        ClassV::Literal(l) => l == c,
        ClassV::Bracket { ranges, negate } => in_ranges(ranges, c) != negate,
    }
}

/// Every character of `text[pos..end]` is in `class`.
pub open spec fn run_matches(class: ClassV, text: Seq<char>, pos: int, end: int) -> bool {
    forall|q: int| pos <= q < end ==> class_matches_spec(class, #[trigger] text[q])
}

/// Token `tok` may take the run `text[start..end]`: a length within its
/// bounds, every character in its class.
pub open spec fn run_ok(tok: TokenV, text: Seq<char>, start: int, end: int) -> bool {
    &&& start + tok.min <= end <= start + tok.max
    &&& end <= text.len()
    &&& run_matches(tok.class, text, start, end)
}

/// Where the run of the `j`-th token of a split starts.
pub open spec fn run_start(pos: int, ends: Seq<int>, j: int) -> int {
    if j == 0 {
        pos
    } else {
        ends[j - 1]
    }
}

/// `ends` splits `text[pos..]` among the tokens from `ti` on: the `j`-th of
/// them takes `text[run_start(pos, ends, j)..ends[j]]`, and the runs reach
/// the end of the text.
pub open spec fn is_split(toks: Seq<TokenV>, ti: int, text: Seq<char>, pos: int, ends: Seq<int>) -> bool {
    &&& ends.len() == toks.len() - ti
    &&& forall|j: int|
        0 <= j < ends.len() ==> run_ok(toks[ti + j], text, run_start(pos, ends, j), #[trigger] ends[j])
    &&& (if ends.len() == 0 {
        pos
    } else {
        ends.last()
    }) == text.len()
}

/// `text[pos..]` splits into consecutive runs, one per token from `ti` on.
pub open spec fn matches_from(toks: Seq<TokenV>, ti: int, text: Seq<char>, pos: int) -> bool {
    exists|ends: Seq<int>| is_split(toks, ti, text, pos, ends)
}

/// The meaning of [`matches`]: an anchored `^…$` pattern of the supported
/// subset must match the whole text; any other pattern counts as a match.
pub open spec fn spec_matches(pattern: Seq<char>, text: Seq<char>) -> bool {
    if pattern.len() >= 2 && pattern[0] == '^' && pattern.last() == '$' {
        match tokens_from(pattern.subrange(1, pattern.len() - 1), 0) {
            Some(toks) => matches_from(toks, 0, text, 0),
            None => true,
        }
    } else {
        true
    }
}

// ---- executable matcher ----

fn in_ranges_exec(ranges: &Vec<(char, char)>, c: char) -> (r: bool)
    ensures
        r == in_ranges(ranges@, c),
{
    let mut i: usize = 0;
    while i < ranges.len()
        invariant
            i <= ranges.len(),
            forall|r: int|
                0 <= r < i ==> !((ranges@[r].0 as u32) <= (c as u32) && (c as u32) <= (
                ranges@[r].1 as u32)),
        decreases ranges.len() - i,
    {
        if (ranges[i].0 as u32) <= (c as u32) && (c as u32) <= (ranges[i].1 as u32) {
            return true;
        }
        i = i + 1;
    }
    false
}

fn class_matches(class: &Class, c: char) -> (r: bool)
    ensures
        r == class_matches_spec(class@, c),
{
    match class {
        Class::Any => true,
        Class::Literal(l) => *l == c,
        Class::Bracket { ranges, negate } => in_ranges_exec(ranges, c) != *negate,
    }
}

/// With no token left, the match is exactly reaching the end of the text.
proof fn lemma_match_done(toks: Seq<TokenV>, text: Seq<char>, pos: int)
    ensures
        matches_from(toks, toks.len() as int, text, pos) == (pos == text.len()),
{
    if pos == text.len() {
        assert(is_split(toks, toks.len() as int, text, pos, Seq::<int>::empty()));
    }
}

/// A first run ending at `end` that lets the rest match makes the whole match.
proof fn lemma_match_step(toks: Seq<TokenV>, ti: int, text: Seq<char>, pos: int, end: int)
    requires
        0 <= ti < toks.len(),
        run_ok(toks[ti], text, pos, end),
        matches_from(toks, ti + 1, text, end),
    ensures
        matches_from(toks, ti, text, pos),
{
    let rest = choose|ends: Seq<int>| #[trigger] is_split(toks, ti + 1, text, end, ends);
    let ends = seq![end] + rest;
    assert forall|j: int| 0 <= j < ends.len() implies run_ok(
        toks[ti + j],
        text,
        run_start(pos, ends, j),
        #[trigger] ends[j],
    ) by {
        if j > 0 {
            assert(ends[j] == rest[j - 1]);
            assert(toks[ti + j] == toks[(ti + 1) + (j - 1)]);
            assert(run_start(pos, ends, j) == run_start(end, rest, j - 1));
        }
    }
    assert(is_split(toks, ti, text, pos, ends));
}

/// A match has a first run, ending somewhere the rest matches.
proof fn lemma_match_split(toks: Seq<TokenV>, ti: int, text: Seq<char>, pos: int) -> (end: int)
    requires
        0 <= ti < toks.len(),
        matches_from(toks, ti, text, pos),
    ensures
        run_ok(toks[ti], text, pos, end),
        matches_from(toks, ti + 1, text, end),
{
    let ends = choose|ends: Seq<int>| #[trigger] is_split(toks, ti, text, pos, ends);
    let end = ends[0];
    assert(run_ok(toks[ti + 0], text, run_start(pos, ends, 0), ends[0]));
    let rest = ends.subrange(1, ends.len() as int);
    assert forall|j: int| 0 <= j < rest.len() implies run_ok(
        toks[(ti + 1) + j],
        text,
        run_start(end, rest, j),
        #[trigger] rest[j],
    ) by {
        assert(rest[j] == ends[j + 1]);
        assert(run_ok(toks[ti + (j + 1)], text, run_start(pos, ends, j + 1), ends[j + 1]));
    }
    assert(is_split(toks, ti + 1, text, end, rest));
    end
}

/// No split exists where the first run is longer than `avail`, the longest
/// run of class characters (within the token's maximum) at `pos`.
proof fn lemma_longer_runs_fail(toks: Seq<TokenV>, ti: int, text: Seq<char>, pos: int, avail: int)
    requires
        0 <= ti < toks.len(),
        0 <= pos,
        0 <= avail,
        pos + avail <= text.len(),
        avail <= toks[ti].max,
        pos + avail == text.len() || avail == toks[ti].max || !class_matches_spec(
            toks[ti].class,
            text[pos + avail],
        ),
    ensures
        forall|end: int|
            pos + avail < end ==> !(end <= pos + toks[ti].max && end <= text.len()
                && #[trigger] run_matches(toks[ti].class, text, pos, end)),
{
    assert forall|end: int|
        pos + avail < end implies !(end <= pos + toks[ti].max && end <= text.len()
            && #[trigger] run_matches(toks[ti].class, text, pos, end)) by {
        if end <= pos + toks[ti].max && end <= text.len() && pos + avail < text.len() && avail
            < toks[ti].max {
            assert(!class_matches_spec(toks[ti].class, text[pos + avail]));
        }
    }
}

/// Greedy backtracking: the longest run first, then shorter ones down to
/// the token's minimum.
fn match_from(tokens: &Vec<Token>, ti: usize, text: &Vec<char>, pos: usize) -> (r: bool)
    requires
        ti <= tokens.len(),
        pos <= text.len(),
    ensures
        r == matches_from(tokens_view(tokens@), ti as int, text@, pos as int),
    decreases tokens.len() - ti,
{
    let ghost toks = tokens_view(tokens@);
    if ti == tokens.len() {
        proof {
            lemma_match_done(toks, text@, pos as int);
        }
        return pos == text.len();
    }
    let tok = &tokens[ti];
    assert(toks[ti as int] == tok@);
    let mut avail: usize = 0;
    while pos + avail < text.len() && avail < tok.max && class_matches(&tok.class, text[pos + avail])
        invariant
            pos + avail <= text.len(),
            avail <= tok.max,
            toks == tokens_view(tokens@),
            toks[ti as int] == tok@,
            run_matches(tok.class@, text@, pos as int, pos + avail),
        decreases text.len() - pos - avail,
    {
        avail = avail + 1;
    }
    proof {
        lemma_longer_runs_fail(toks, ti as int, text@, pos as int, avail as int);
    }
    if avail < tok.min {
        proof {
            if matches_from(toks, ti as int, text@, pos as int) {
                let e = lemma_match_split(toks, ti as int, text@, pos as int);
                assert(run_matches(toks[ti as int].class, text@, pos as int, e));
            }
        }
        return false;
    }
    let mut take = avail;
    loop
        invariant
            ti < tokens.len(),
            pos <= text.len(),
            tok.min <= take <= avail,
            avail <= tok.max,
            pos + avail <= text.len(),
            toks == tokens_view(tokens@),
            toks[ti as int] == tok@,
            run_matches(tok.class@, text@, pos as int, pos + avail),
            forall|end: int|
                pos + take < end <= pos + avail ==> !#[trigger] matches_from(toks, ti + 1, text@, end),
            forall|end: int|
                pos + avail < end ==> !(end <= pos + tok.max && end <= text.len()
                    && #[trigger] run_matches(tok.class@, text@, pos as int, end)),
        decreases take,
    {
        let ghost end = pos + take;
        if match_from(tokens, ti + 1, text, pos + take) {
            assert(run_matches(tok.class@, text@, pos as int, end));
            proof {
                lemma_match_step(toks, ti as int, text@, pos as int, end);
            }
            return true;
        }
        if take == tok.min {
            assert(!matches_from(toks, ti as int, text@, pos as int)) by {
                if matches_from(toks, ti as int, text@, pos as int) {
                    let e = lemma_match_split(toks, ti as int, text@, pos as int);
                    assert(run_matches(toks[ti as int].class, text@, pos as int, e));
                    assert(e <= pos + avail);
                    assert(e != end);
                }
            }
            return false;
        }
        take = take - 1;
    }
}

// ---- executable tokenizer ----

/// The ranges of the bracket body `v[a..b]`.
fn parse_ranges(v: &Vec<char>, a: usize, b: usize) -> (r: Vec<(char, char)>)
    requires
        a <= b <= v.len(),
    ensures
        r@ == spec_ranges(v@.subrange(a as int, b as int)),
{
    let mut out: Vec<(char, char)> = Vec::new();
    let mut j = a;
    assert(out@ + spec_ranges(v@.subrange(j as int, b as int)) =~= spec_ranges(
        v@.subrange(a as int, b as int),
    ));
    while j < b
        invariant
            a <= j <= b <= v.len(),
            out@ + spec_ranges(v@.subrange(j as int, b as int)) == spec_ranges(
                v@.subrange(a as int, b as int),
            ),
        decreases b - j,
    {
        let ghost rest = v@.subrange(j as int, b as int);
        if b - j > 2 && v[j + 1] == '-' {
            assert(rest.subrange(3, rest.len() as int) =~= v@.subrange(j + 3, b as int));
            out.push((v[j], v[j + 2]));
            assert(out@ + spec_ranges(v@.subrange(j + 3, b as int)) =~= out@.drop_last() + spec_ranges(rest));
            j = j + 3;
        } else {
            assert(rest.subrange(1, rest.len() as int) =~= v@.subrange(j + 1, b as int));
            out.push((v[j], v[j]));
            assert(out@ + spec_ranges(v@.subrange(j + 1, b as int)) =~= out@.drop_last() + spec_ranges(rest));
            j = j + 1;
        }
    }
    assert(v@.subrange(b as int, b as int) =~= Seq::<char>::empty());
    assert(out@ + Seq::<(char, char)>::empty() =~= out@);
    out
}

fn parse_class(v: &Vec<char>, i: usize) -> (r: Option<(Class, usize)>)
    requires
        i < v.len(),
    ensures
        match r {
            Some((class, j)) => class_at(v@, i as int) == Some((class@, j as int)),
            None => class_at(v@, i as int) is None,
        },
{
    let c = v[i];
    if c == '.' {
        Some((Class::Any, i + 1))
    } else if c == '[' {
        match find_in(v, i, v.len(), ']') {
            Some(k) => {
                let body_start = i + 1;
                let body_end = i + k;
                proof {
                    lemma_find_positive(v@.subrange(i as int, v.len() as int), ']');
                }
                let class = if body_start < body_end && v[body_start] == '^' {
                    let ranges = parse_ranges(v, body_start + 1, body_end);
                    assert(v@.subrange(body_start as int, body_end as int).subrange(1, (body_end - body_start) as int)
                        =~= v@.subrange(body_start + 1, body_end as int));
                    Class::Bracket { ranges, negate: true }
                } else {
                    let ranges = parse_ranges(v, body_start, body_end);
                    Class::Bracket { ranges, negate: false }
                };
                Some((class, i + k + 1))
            },
            None => None,
        }
    } else if c == '\\' {
        if i + 1 < v.len() {
            Some((Class::Literal(v[i + 1]), i + 2))
        } else {
            None
        }
    } else if c == '(' || c == ')' || c == '|' || c == '?' {
        None
    } else {
        Some((Class::Literal(c), i + 1))
    }
}

/// The bounds inside `v[a..b]` (the text between `{` and `}`).
fn parse_bounds(v: &Vec<char>, a: usize, b: usize) -> (r: Option<(usize, usize)>)
    requires
        a <= b <= v.len(),
    ensures
        r == bounds_of(v@.subrange(a as int, b as int)),
{
    let ghost body = v@.subrange(a as int, b as int);
    match find_in(v, a, b, ',') {
        Some(c) => {
            let comma = a + c;
            assert(body.subrange(0, c as int) =~= v@.subrange(a as int, comma as int));
            assert(body.subrange(c + 1, body.len() as int) =~= v@.subrange(comma + 1, b as int));
            let lo = parse_usize(v, a, comma);
            if comma + 1 == b {
                match lo {
                    Some(n) => Some((n, usize::MAX)),
                    None => None,
                }
            } else {
                let hi = parse_usize(v, comma + 1, b);
                match (lo, hi) {
                    (Some(x), Some(y)) => Some((x, y)),
                    _ => None,
                }
            }
        },
        None => match parse_usize(v, a, b) {
            Some(n) => Some((n, n)),
            None => None,
        },
    }
}

fn parse_quant(v: &Vec<char>, j: usize) -> (r: Option<(usize, usize, usize)>)
    requires
        j <= v.len(),
    ensures
        match r {
            Some((lo, hi, k)) => quant_at(v@, j as int) == Some((lo, hi, k as int)),
            None => quant_at(v@, j as int) is None,
        },
{
    if j < v.len() && v[j] == '+' {
        Some((1, usize::MAX, j + 1))
    } else if j < v.len() && v[j] == '*' {
        Some((0, usize::MAX, j + 1))
    } else if j < v.len() && v[j] == '{' {
        match find_in(v, j, v.len(), '}') {
            Some(k) => {
                proof {
                    lemma_find_positive(v@.subrange(j as int, v.len() as int), '}');
                }
                match parse_bounds(v, j + 1, j + k) {
                    Some((lo, hi)) => Some((lo, hi, j + k + 1)),
                    None => None,
                }
            },
            None => None,
        }
    } else {
        Some((1, 1, j))
    }
}

fn tokenize(pat: &Vec<char>) -> (r: Option<Vec<Token>>)
    ensures
        match r {
            Some(t) => tokens_from(pat@, 0) == Some(tokens_view(t@)),
            None => tokens_from(pat@, 0) is None,
        },
{
    let mut out: Vec<Token> = Vec::new();
    let mut i: usize = 0;
    assert(tokens_view(out@) =~= Seq::<TokenV>::empty());
    while i < pat.len()
        invariant
            i <= pat.len(),
            tokens_from(pat@, 0) == match tokens_from(pat@, i as int) {
                Some(rest) => Some(tokens_view(out@) + rest),
                None => None,
            },
        decreases pat.len() - i,
    {
        proof {
            lemma_class_advances(pat@, i as int);
        }
        let (class, j) = match parse_class(pat, i) {
            Some(x) => x,
            None => return None,
        };
        proof {
            lemma_quant_advances(pat@, j as int);
        }
        let (min, max, k) = match parse_quant(pat, j) {
            Some(x) => x,
            None => return None,
        };
        let ghost before = out@;
        let ghost tv = TokenV { class: class@, min, max };
        out.push(Token { class, min, max });
        assert(tokens_view(out@) =~= tokens_view(before).push(tv));
        proof {
            match tokens_from(pat@, k as int) {
                Some(rest) => {
                    assert(tokens_view(before) + (seq![tv] + rest) =~= tokens_view(out@) + rest);
                },
                None => {},
            }
        }
        i = k;
    }
    assert(tokens_view(out@) + Seq::<TokenV>::empty() =~= tokens_view(out@));
    Some(out)
}

/// Whether `text` satisfies `pattern`: only anchored `^…$` patterns are
/// checked; unanchored or unsupported ones never block.
pub fn matches(pattern: &str, text: &str) -> (r: bool)
    ensures
        r == spec_matches(pattern@, text@),
{
    let p = chars_of(pattern);
    let n = p.len();
    if n < 2 || p[0] != '^' || p[n - 1] != '$' {
        return true;
    }
    let mut inner: Vec<char> = Vec::new();
    let mut i: usize = 1;
    while i < n - 1
        invariant
            1 <= i <= n - 1,
            n == p.len(),
            inner@ == p@.subrange(1, i as int),
        decreases n - 1 - i,
    {
        inner.push(p[i]);
        assert(p@.subrange(1, i + 1) =~= p@.subrange(1, i as int).push(p@[i as int]));
        i = i + 1;
    }
    match tokenize(&inner) {
        Some(tokens) => {
            let t = chars_of(text);
            match_from(&tokens, 0, &t, 0)
        },
        None => true,
    }
}

} // verus!
