//! CLI argument parsing over the option table. Accepts the full swiftDialog
//! surface: `--long` and `-short` forms, deprecated aliases resolved to
//! canonical names, repeatable options accumulated in order.

use crate::options::{
    by_long, by_short, canonical, lemma_aliases_resolve, lemma_canonical_found,
    lemma_canonical_in_table, spec_by_long, spec_by_short,
    spec_canonical, table, Kind, OptionDef, OPTION_COUNT,
};
use crate::text::{chars_of, str_eq, string_of};
use vstd::prelude::*;
use vstd::string::*;

verus! {

broadcast use vstd::string::group_string_axioms;

#[verifier::ext_equal]
/// What a command line says: flags in order, every value given (with the
/// canonical name of its option) in order, and the tokens that matched nothing.
pub struct ArgsModel {
    pub flags: Seq<Seq<char>>,
    pub pairs: Seq<(Seq<char>, Seq<char>)>,
    pub ignored: Seq<Seq<char>>,
}

/// The values given for `name`, in command-line order.
pub open spec fn values_of(pairs: Seq<(Seq<char>, Seq<char>)>, name: Seq<char>) -> Seq<Seq<char>>
    decreases pairs.len(),
{
    if pairs.len() == 0 {
        Seq::empty()
    } else {
        let rest = values_of(pairs.drop_last(), name);
        if pairs.last().0 == name {
            rest.push(pairs.last().1)
        } else {
            rest
        }
    }
}

/// Names in first-appearance order, each once.
pub open spec fn distinct(s: Seq<Seq<char>>) -> Seq<Seq<char>>
    decreases s.len(),
{
    if s.len() == 0 {
        Seq::empty()
    } else {
        let d = distinct(s.drop_last());
        if d.contains(s.last()) {
            d
        } else {
            d.push(s.last())
        }
    }
}

/// `n` is the long name of a table entry.
pub open spec fn is_option_name(n: Seq<char>) -> bool {
    exists|i: int| 0 <= i < OPTION_COUNT && (#[trigger] table(i)).long@ == n
}

/// Every element of `distinct(s)` is an element of `s`.
pub proof fn lemma_distinct_from(s: Seq<Seq<char>>)
    ensures
        forall|k: int| 0 <= k < distinct(s).len() ==> s.contains(#[trigger] distinct(s)[k]),
    decreases s.len(),
{
    if s.len() > 0 {
        lemma_distinct_from(s.drop_last());
        let d = distinct(s.drop_last());
        assert forall|k: int| 0 <= k < distinct(s).len() implies s.contains(
            #[trigger] distinct(s)[k],
        ) by {
            if k < d.len() {
                let x = d[k];
                assert(s.drop_last().contains(x));
                let m = choose|m: int| 0 <= m < s.drop_last().len() && s.drop_last()[m] == x;
                assert(s[m] == x);
            } else {
                assert(s[s.len() - 1] == s.last());
            }
        }
    }
}

/// `n` is the long name of a canonical table entry of kind `k`, the one
/// looking `n` up finds.
pub open spec fn names_canonical(n: Seq<char>, k: Kind) -> bool {
    spec_by_long(n) matches Some(d) && d.alias_of is None && d.long@ == n && d.kind == k
}

/// Every element of `s` occurs in `distinct(s)`.
pub proof fn lemma_distinct_covers(s: Seq<Seq<char>>, x: Seq<char>)
    requires
        s.contains(x),
    ensures
        distinct(s).contains(x),
    decreases s.len(),
{
    let p = s.drop_last();
    if s.last() != x {
        let m = choose|m: int| 0 <= m < s.len() && s[m] == x;
        assert(p[m] == x);
        lemma_distinct_covers(p, x);
        let d = distinct(p);
        let q = choose|q: int| 0 <= q < d.len() && d[q] == x;
        if !d.contains(s.last()) {
            assert(d.push(s.last())[q] == x);
        }
    } else {
        let d = distinct(p);
        if !d.contains(s.last()) {
            assert(d.push(s.last())[d.len() as int] == x);
        }
    }
}

/// A name has values exactly when some pair carries it.
pub proof fn lemma_values_nonempty(pairs: Seq<(Seq<char>, Seq<char>)>, n: Seq<char>)
    ensures
        (values_of(pairs, n).len() > 0) <==> exists|k: int| 0 <= k < pairs.len() && (#[trigger] pairs[k]).0 == n,
    decreases pairs.len(),
{
    if pairs.len() > 0 {
        let p = pairs.drop_last();
        lemma_values_nonempty(p, n);
        if exists|k: int| 0 <= k < p.len() && (#[trigger] p[k]).0 == n {
            let k = choose|k: int| 0 <= k < p.len() && (#[trigger] p[k]).0 == n;
            assert(pairs[k] == p[k]);
        }
        if exists|k: int| 0 <= k < pairs.len() && (#[trigger] pairs[k]).0 == n {
            let k = choose|k: int| 0 <= k < pairs.len() && (#[trigger] pairs[k]).0 == n;
            if k < pairs.len() - 1 {
                assert(p[k] == pairs[k]);
            }
        }
    }
}

impl ArgsModel {
    /// Every recorded name is the long name of a canonical table entry:
    /// flags of flag options, values of value options.
    pub open spec fn wf(self) -> bool {
        &&& forall|k: int| 0 <= k < self.flags.len() ==> is_option_name(#[trigger] self.flags[k])
        &&& forall|k: int| 0 <= k < self.pairs.len() ==> is_option_name((#[trigger] self.pairs[k]).0)
        &&& forall|k: int| 0 <= k < self.flags.len() ==> names_canonical(#[trigger] self.flags[k], Kind::Flag)
        &&& forall|k: int| 0 <= k < self.pairs.len() ==> names_canonical((#[trigger] self.pairs[k]).0, Kind::WithValue)
    }

    /// What `present_options` yields of a well-formed model: canonical
    /// entries that `by_long` finds, each present (a value option with a
    /// value), and every present name among them.
    pub open spec fn present_options_sound(self) -> bool {
        &&& forall|k: int|
            0 <= k < self.present_options().len() ==> {
                let n = #[trigger] self.present_options()[k];
                &&& spec_by_long(n) matches Some(d) && d.alias_of is None && d.long@ == n
                    && (d.kind == Kind::WithValue ==> self.values(n).len() > 0)
                &&& self.present(n)
            }
        &&& forall|n: Seq<char>| #[trigger] self.present(n) ==> self.present_options().contains(n)
    }

    pub open spec fn empty() -> ArgsModel {
        ArgsModel { flags: Seq::empty(), pairs: Seq::empty(), ignored: Seq::empty() }
    }

    /// All values given for `name`.
    pub open spec fn values(self, name: Seq<char>) -> Seq<Seq<char>> {
        values_of(self.pairs, name)
    }

    /// The last value given for `name`.
    pub open spec fn value(self, name: Seq<char>) -> Option<Seq<char>> {
        if self.values(name).len() > 0 {
            Some(self.values(name).last())
        } else {
            None
        }
    }

    /// Whether `name` appeared, as a flag or with a value.
    pub open spec fn present(self, name: Seq<char>) -> bool {
        self.flags.contains(name) || self.values(name).len() > 0
    }

    /// Canonical names of everything present: flags, then value options.
    pub open spec fn present_options(self) -> Seq<Seq<char>> {
        self.flags + distinct(self.pairs.map_values(|p: (Seq<char>, Seq<char>)| p.0))
    }
}

/// In a well-formed model, every name `present_options` yields is a present,
/// canonical entry, and every present name is yielded.
pub proof fn law_present_options_sound(m: ArgsModel)
    requires
        m.wf(),
    ensures
        m.present_options_sound(),
{
    let names = m.pairs.map_values(|p: (Seq<char>, Seq<char>)| p.0);
    lemma_distinct_from(names);
    assert forall|k: int| 0 <= k < m.present_options().len() implies {
        let n = #[trigger] m.present_options()[k];
        &&& spec_by_long(n) matches Some(d) && d.alias_of is None && d.long@ == n
            && (d.kind == Kind::WithValue ==> m.values(n).len() > 0)
        &&& m.present(n)
    } by {
        let n = m.present_options()[k];
        if k < m.flags.len() {
            assert(n == m.flags[k]);
            assert(names_canonical(m.flags[k], Kind::Flag));
            assert(m.flags.contains(n));
        } else {
            assert(n == distinct(names)[k - m.flags.len()]);
            let j = choose|j: int| 0 <= j < names.len() && names[j] == n;
            assert(names[j] == m.pairs[j].0);
            assert(names_canonical(m.pairs[j].0, Kind::WithValue));
            lemma_values_nonempty(m.pairs, n);
        }
    }
    assert forall|n: Seq<char>| #[trigger] m.present(n) implies m.present_options().contains(n) by {
        if m.flags.contains(n) {
            let q = choose|q: int| 0 <= q < m.flags.len() && m.flags[q] == n;
            assert(m.present_options()[q] == n);
        } else {
            lemma_values_nonempty(m.pairs, n);
            let j = choose|j: int| 0 <= j < m.pairs.len() && (#[trigger] m.pairs[j]).0 == n;
            assert(names[j] == n);
            lemma_distinct_covers(names, n);
            let d = distinct(names);
            let q = choose|q: int| 0 <= q < d.len() && d[q] == n;
            assert(m.present_options()[m.flags.len() + q] == n);
        }
    }
}

/// The option a command-line token names: `--long` or `-short`.
pub open spec fn spec_lookup(arg: Seq<char>) -> Option<OptionDef> {
    if arg.len() >= 2 && arg[0] == '-' && arg[1] == '-' {
        spec_by_long(arg.subrange(2, arg.len() as int))
    } else if arg.len() >= 1 && arg[0] == '-' {
        spec_by_short(arg.subrange(1, arg.len() as int))
    } else {
        None
    }
}

/// Scans `args` left to right into `m`. An option that takes a value consumes
/// the next token unconditionally (an empty value when it is the last token);
/// tokens that name no option are recorded as ignored.
pub open spec fn parse_from(m: ArgsModel, args: Seq<Seq<char>>) -> ArgsModel
    decreases args.len(),
{
    if args.len() == 0 {
        m
    } else {
        match spec_lookup(args[0]) {
            None => parse_from(
                ArgsModel { ignored: m.ignored.push(args[0]), ..m },
                args.subrange(1, args.len() as int),
            ),
            Some(def) => {
                let c = spec_canonical(def);
                match c.kind {
                    Kind::Flag => parse_from(
                        ArgsModel { flags: m.flags.push(c.long@), ..m },
                        args.subrange(1, args.len() as int),
                    ),
                    Kind::WithValue => if args.len() >= 2 {
                        parse_from(
                            ArgsModel { pairs: m.pairs.push((c.long@, args[1])), ..m },
                            args.subrange(2, args.len() as int),
                        )
                    } else {
                        parse_from(
                            ArgsModel { pairs: m.pairs.push((c.long@, Seq::empty())), ..m },
                            args.subrange(1, args.len() as int),
                        )
                    },
                }
            },
        }
    }
}

/// What `parse` makes of `args`.
pub open spec fn spec_parse(args: Seq<Seq<char>>) -> ArgsModel {
    parse_from(ArgsModel::empty(), args)
}

/// Parsed command line, keyed by canonical long option names.
#[derive(Debug)]
pub struct ParsedArgs {
    /// Every value given, with its option's canonical name, in command-line
    /// order. Non-repeatable options still record every occurrence;
    /// `value()` returns the last one.
    pairs: Vec<(&'static str, String)>,
    /// Flags that were present.
    flags: Vec<&'static str>,
    /// Tokens that matched no option — ignored like swiftDialog does;
    /// surfaced on stderr only under `--verbose`.
    pub ignored: Vec<String>,
}

impl ParsedArgs {
    /// The parsed command line as a model.
    pub closed spec fn model(&self) -> ArgsModel {
        ArgsModel {
            flags: self.flags@.map_values(|f: &'static str| f@),
            pairs: self.pairs@.map_values(|p: (&'static str, String)| (p.0@, p.1@)),
            ignored: self.ignored@.map_values(|s: String| s@),
        }
    }

    /// An empty command line.
    pub fn new() -> (r: ParsedArgs)
        ensures
            r.model() == ArgsModel::empty(),
    {
        let r = ParsedArgs { pairs: Vec::new(), flags: Vec::new(), ignored: Vec::new() };
        assert(r.model().flags =~= Seq::<Seq<char>>::empty());
        assert(r.model().pairs =~= Seq::<(Seq<char>, Seq<char>)>::empty());
        assert(r.model().ignored =~= Seq::<Seq<char>>::empty());
        r
    }

    /// Whether an option (flag or value) appeared on the command line.
    pub fn present(&self, long: &str) -> (r: bool)
        ensures
            r == self.model().present(long@),
    {
        let mut i: usize = 0;
        while i < self.flags.len()
            invariant
                i <= self.flags.len(),
                forall|k: int| 0 <= k < i ==> self.flags@[k]@ != long@,
            decreases self.flags.len() - i,
        {
            if str_eq(self.flags[i], long) {
                assert(self.model().flags[i as int] == long@);
                return true;
            }
            i = i + 1;
        }
        assert(!self.model().flags.contains(long@));
        self.values(long).len() > 0
    }

    /// Last value given for an option, if any.
    pub fn value(&self, long: &str) -> (r: Option<&str>)
        ensures
            r matches Some(s) ==> self.model().value(long@) == Some(s@),
            r is None ==> self.model().value(long@) is None,
    {
        let ghost pairs = self.model().pairs;
        let mut j = self.pairs.len();
        assert(pairs.take(j as int) =~= pairs);
        while j > 0
            invariant
                j <= self.pairs.len(),
                pairs == self.model().pairs,
                values_of(pairs, long@) == values_of(pairs.take(j as int), long@),
            decreases j,
        {
            assert(pairs.take(j as int).drop_last() =~= pairs.take(j - 1));
            if str_eq(self.pairs[j - 1].0, long) {
                assert(pairs.take(j as int).last() == pairs[j - 1]);
                return Some(self.pairs[j - 1].1.as_str());
            }
            j = j - 1;
        }
        assert(pairs.take(0) =~= Seq::<(Seq<char>, Seq<char>)>::empty());
        None
    }

    /// Last value given, falling back to the table default.
    pub fn value_or_default(&self, long: &str) -> (r: Option<&str>)
        ensures
            self.model().value(long@) matches Some(v) ==> r matches Some(s) && s@ == v,
            self.model().value(long@) is None ==> r == (match spec_by_long(long@) {
                Some(d) => d.default,
                None => None,
            }),
    {
        match self.value(long) {
            Some(v) => Some(v),
            None => match by_long(long) {
                Some(d) => d.default,
                None => None,
            },
        }
    }

    /// All values for a repeatable option, in order.
    pub fn values(&self, long: &str) -> (r: Vec<String>)
        ensures
            r@.map_values(|s: String| s@) == self.model().values(long@),
    {
        let ghost pairs = self.model().pairs;
        let mut r: Vec<String> = Vec::new();
        let mut i: usize = 0;
        while i < self.pairs.len()
            invariant
                i <= self.pairs.len(),
                pairs == self.model().pairs,
                r@.map_values(|s: String| s@) == values_of(pairs.take(i as int), long@),
            decreases self.pairs.len() - i,
        {
            assert(pairs.take(i + 1).drop_last() =~= pairs.take(i as int));
            assert(pairs.take(i + 1).last() == pairs[i as int]);
            if str_eq(self.pairs[i].0, long) {
                let ghost before = r@;
                r.push(self.pairs[i].1.clone());
                assert(r@.map_values(|s: String| s@) =~= before.map_values(|s: String| s@).push(
                    pairs[i as int].1,
                ));
            }
            i = i + 1;
        }
        assert(pairs.take(self.pairs.len() as int) =~= pairs);
        r
    }

    /// Canonical long names of everything present, for the
    /// degrade-don't-break warning pass: flags first, then value options in
    /// first-appearance order.
    pub fn present_options(&self) -> (r: Vec<&'static str>)
        ensures
            r@.map_values(|s: &'static str| s@) == self.model().present_options(),
            self.model().wf() ==> self.model().present_options_sound(),
    {
        proof {
            if self.model().wf() {
                law_present_options_sound(self.model());
            }
        }
        let ghost names = self.model().pairs.map_values(|p: (Seq<char>, Seq<char>)| p.0);
        let mut r: Vec<&'static str> = Vec::new();
        let mut i: usize = 0;
        while i < self.flags.len()
            invariant
                i <= self.flags.len(),
                r@.map_values(|s: &'static str| s@) == self.model().flags.take(i as int),
            decreases self.flags.len() - i,
        {
            let ghost before = r@;
            r.push(self.flags[i]);
            assert(r@.map_values(|s: &'static str| s@) =~= before.map_values(
                |s: &'static str| s@,
            ).push(self.model().flags[i as int]));
            assert(self.model().flags.take(i + 1) =~= self.model().flags.take(i as int).push(
                self.model().flags[i as int],
            ));
            i = i + 1;
        }
        assert(self.model().flags.take(self.flags.len() as int) =~= self.model().flags);
        let nf = r.len();
        let mut j: usize = 0;
        while j < self.pairs.len()
            invariant
                j <= self.pairs.len(),
                nf == self.flags.len(),
                nf <= r.len(),
                names == self.model().pairs.map_values(|p: (Seq<char>, Seq<char>)| p.0),
                names.len() == self.pairs.len(),
                r@.map_values(|s: &'static str| s@) == self.model().flags + distinct(
                    names.take(j as int),
                ),
            decreases self.pairs.len() - j,
        {
            let name = self.pairs[j].0;
            let ghost d = distinct(names.take(j as int));
            assert(names.take(j + 1).drop_last() =~= names.take(j as int));
            assert(names.take(j + 1).last() == name@);
            let mut seen = false;
            let mut k = nf;
            assert(r@.map_values(|s: &'static str| s@).len() == r@.len());
            while k < r.len()
                invariant
                    nf <= k <= r.len(),
                    nf == self.flags.len(),
                    nf == self.model().flags.len(),
                    r@.len() == nf + d.len(),
                    r@.map_values(|s: &'static str| s@) == self.model().flags + d,
                    !seen ==> forall|m: int| 0 <= m < k - nf ==> d[m] != name@,
                    seen ==> d.contains(name@),
                decreases r.len() - k,
            {
                assert(r@.map_values(|s: &'static str| s@)[k as int] == r@[k as int]@);
                assert((self.model().flags + d)[k as int] == d[k - nf]);
                if str_eq(r[k], name) {
                    assert(d[k - nf] == name@);
                    seen = true;
                }
                k = k + 1;
            }
            if !seen {
                let ghost before = r@;
                r.push(name);
                assert(r@.map_values(|s: &'static str| s@) =~= before.map_values(
                    |s: &'static str| s@,
                ).push(name@));
                assert(self.model().flags + d.push(name@) =~= (self.model().flags + d).push(
                    name@,
                ));
            }
            j = j + 1;
        }
        assert(names.take(self.pairs.len() as int) =~= names);
        r
    }
}

/// The option a command-line token names.
fn lookup(arg: &str) -> (r: Option<OptionDef>)
    ensures
        r == spec_lookup(arg@),
        r matches Some(d) ==> exists|k: int| 0 <= k < OPTION_COUNT && d == table(k),
{
    let v = chars_of(arg);
    let n = v.len();
    if n >= 2 && v[0] == '-' && v[1] == '-' {
        let rest = string_of(&v, 2, n);
        let r = by_long(rest.as_str());
        proof {
            if r is Some {
                let k = choose|k: int| crate::options::is_first_long(rest@, k);
            }
        }
        r
    } else if n >= 1 && v[0] == '-' {
        let rest = string_of(&v, 1, n);
        let r = by_short(rest.as_str());
        proof {
            if r is Some {
                let k = choose|k: int| crate::options::is_first_short(rest@, k);
            }
        }
        r
    } else {
        None
    }
}

/// The canonical form of a table entry, with what the parse records of it.
fn canonical_of(def: OptionDef) -> (c: OptionDef)
    requires
        exists|k: int| 0 <= k < OPTION_COUNT && def == table(k),
    ensures
        c == spec_canonical(def),
        is_option_name(c.long@),
        names_canonical(c.long@, c.kind),
{
    proof {
        let k = choose|k: int| 0 <= k < OPTION_COUNT && def == table(k);
        lemma_aliases_resolve(k);
        lemma_canonical_in_table(k);
        lemma_canonical_found(k);
    }
    let c = canonical(def);
    proof {
        let j = choose|j: int| 0 <= j < OPTION_COUNT && c == table(j);
        assert(is_option_name(c.long@));
    }
    c
}

proof fn lemma_wf_push_flag(m: ArgsModel, n: Seq<char>)
    requires
        m.wf(),
        is_option_name(n),
        names_canonical(n, Kind::Flag),
    ensures
        (ArgsModel { flags: m.flags.push(n), ..m }).wf(),
{
    let m1 = ArgsModel { flags: m.flags.push(n), ..m };
    assert forall|k: int| 0 <= k < m1.flags.len() implies is_option_name(#[trigger] m1.flags[k])
        && names_canonical(m1.flags[k], Kind::Flag) by {
        if k < m.flags.len() {
            assert(m1.flags[k] == m.flags[k]);
        }
    }
}

proof fn lemma_wf_push_pair(m: ArgsModel, n: Seq<char>, v: Seq<char>)
    requires
        m.wf(),
        is_option_name(n),
        names_canonical(n, Kind::WithValue),
    ensures
        (ArgsModel { pairs: m.pairs.push((n, v)), ..m }).wf(),
{
    let m1 = ArgsModel { pairs: m.pairs.push((n, v)), ..m };
    assert forall|k: int| 0 <= k < m1.pairs.len() implies is_option_name((#[trigger] m1.pairs[k]).0)
        && names_canonical(m1.pairs[k].0, Kind::WithValue) by {
        if k < m.pairs.len() {
            assert(m1.pairs[k] == m.pairs[k]);
        }
    }
}

/// Parse argv (without the program name).
///
/// Tokens that match nothing in the option table are recorded in
/// `ignored` and skipped — swiftDialog scans argv for known options and
/// never errors on strays.
pub fn parse(args: &[&str]) -> (p: ParsedArgs)
    ensures
        p.model() == spec_parse(args@.map_values(|s: &str| s@)),
        p.model().wf(),
{
    let ghost av = args@.map_values(|s: &str| s@);
    let mut parsed = ParsedArgs::new();
    let n = args.len();
    assert(av.subrange(0, n as int) =~= av);
    let mut i: usize = 0;
    while i < n
        invariant
            i <= n == args.len(),
            av == args@.map_values(|s: &str| s@),
            parse_from(parsed.model(), av.subrange(i as int, n as int)) == spec_parse(av),
            parsed.model().wf(),
        decreases n - i,
    {
        let arg = args[i];
        let ghost rest = av.subrange(i as int, n as int);
        assert(rest[0] == arg@);
        assert(rest.subrange(1, rest.len() as int) =~= av.subrange(i + 1, n as int));
        let ghost m0 = parsed.model();
        match lookup(arg) {
            None => {
                parsed.ignored.push(String::from_str(arg));
                assert(parsed.model() =~= ArgsModel { ignored: m0.ignored.push(arg@), ..m0 });
                i = i + 1;
            },
            Some(def) => {
                let c = canonical_of(def);
                match c.kind {
                    Kind::Flag => {
                        proof {
                            lemma_wf_push_flag(m0, c.long@);
                        }
                        parsed.flags.push(c.long);
                        assert(parsed.model() =~= ArgsModel { flags: m0.flags.push(c.long@), ..m0 });
                        i = i + 1;
                    },
                    Kind::WithValue => {
                        proof {
                            lemma_wf_push_pair(m0, c.long@, av[i + 1]);
                            lemma_wf_push_pair(m0, c.long@, Seq::empty());
                        }
                        if i + 1 < n {
                            let value = String::from_str(args[i + 1]);
                            parsed.pairs.push((c.long, value));
                            assert(parsed.model() =~= ArgsModel {
                                pairs: m0.pairs.push((c.long@, av[i + 1])),
                                ..m0
                            });
                            assert(rest[1] == av[i + 1]);
                            assert(rest.subrange(2, rest.len() as int) =~= av.subrange(
                                i + 2,
                                n as int,
                            ));
                            i = i + 2;
                        } else {
                            parsed.pairs.push((c.long, String::new()));
                            assert(parsed.model() =~= ArgsModel {
                                pairs: m0.pairs.push((c.long@, Seq::empty())),
                                ..m0
                            });
                            i = i + 1;
                        }
                    },
                }
            },
        }
    }
    assert(av.subrange(n as int, n as int) =~= Seq::<Seq<char>>::empty());
    parsed
}

} // verus!
