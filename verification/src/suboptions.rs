//! swiftDialog's comma-separated sub-option syntax, shared by --listitem,
//! --textfield, --checkbox, --selecttitle:
//! `"Title,key=value,flag,key2=value2"` — the first piece without `=` is the
//! title; `key=value` pairs and bare flags follow.

use crate::text::{
    chars_of, find_in, lower_range, lower_text, split_on, split_once, split_ranges, str_eq,
    string_of, string_of_all, trim, trim_bounds,
};
use vstd::prelude::*;

verus! {

/// What a sub-option spec says.
#[verifier::ext_equal]
pub struct SubModel {
    pub title: Seq<char>,
    /// Every `key=value` in order (keys lower-cased); later keys win.
    pub values: Seq<(Seq<char>, Seq<char>)>,
    /// Bare flags after the first piece, lower-cased, in order.
    pub flags: Seq<Seq<char>>,
}

/// The value last given for `key` in an association list.
pub open spec fn assoc_last(s: Seq<(Seq<char>, Seq<char>)>, key: Seq<char>) -> Option<Seq<char>>
    decreases s.len(),
{
    if s.len() == 0 {
        None
    } else if s.last().0 == key {
        Some(s.last().1)
    } else {
        assoc_last(s.drop_last(), key)
    }
}

/// Folds the comma-separated pieces of a spec, left to right.
pub open spec fn sub_fold(parts: Seq<Seq<char>>) -> SubModel
    decreases parts.len(),
{
    if parts.len() == 0 {
        SubModel { title: Seq::empty(), values: Seq::empty(), flags: Seq::empty() }
    } else {
        let m = sub_fold(parts.drop_last());
        let part = trim(parts.last());
        match split_once(part, '=') {
            Some((k, v)) => SubModel { values: m.values.push((lower_text(trim(k)), trim(v))), ..m },
            None => if parts.len() == 1 {
                SubModel { title: part, ..m }
            } else if part.len() > 0 {
                SubModel { flags: m.flags.push(lower_text(part)), ..m }
            } else {
                m
            },
        }
    }
}

/// What `parse_spec` makes of a spec.
pub open spec fn spec_parse_spec(spec: Seq<char>) -> SubModel {
    sub_fold(split_on(spec, ','))
}

#[derive(Debug, Default, PartialEq)]
pub struct SubOptions {
    pub title: String,
    /// Every `key=value` given, in order; a later value for a key wins.
    pub values: Vec<(String, String)>,
    pub flags: Vec<String>,
}

impl SubOptions {
    pub open spec fn model(&self) -> SubModel {
        SubModel {
            title: self.title@,
            values: self.values@.map_values(|p: (String, String)| (p.0@, p.1@)),
            flags: self.flags@.map_values(|s: String| s@),
        }
    }

    /// Whether the bare flag `name` was given.
    pub fn flag(&self, name: &str) -> (r: bool)
        ensures
            r == self.model().flags.contains(name@),
    {
        let mut i: usize = 0;
        while i < self.flags.len()
            invariant
                i <= self.flags.len(),
                forall|k: int| 0 <= k < i ==> self.flags@[k]@ != name@,
            decreases self.flags.len() - i,
        {
            if str_eq(self.flags[i].as_str(), name) {
                assert(self.model().flags[i as int] == name@);
                return true;
            }
            i = i + 1;
        }
        assert(!self.model().flags.contains(name@));
        false
    }

    /// The value given for `name`, if any.
    pub fn get(&self, name: &str) -> (r: Option<&str>)
        ensures
            r matches Some(s) ==> assoc_last(self.model().values, name@) == Some(s@),
            r is None ==> assoc_last(self.model().values, name@) is None,
    {
        let ghost vals = self.model().values;
        let mut j = self.values.len();
        assert(vals.take(j as int) =~= vals);
        while j > 0
            invariant
                j <= self.values.len(),
                vals == self.model().values,
                assoc_last(vals, name@) == assoc_last(vals.take(j as int), name@),
            decreases j,
        {
            assert(vals.take(j as int).drop_last() =~= vals.take(j - 1));
            assert(vals.take(j as int).last() == vals[j - 1]);
            if str_eq(self.values[j - 1].0.as_str(), name) {
                return Some(self.values[j - 1].1.as_str());
            }
            j = j - 1;
        }
        None
    }
}

/// Parses a `Title,key=value,flag` spec.
pub fn parse_spec(spec: &str) -> (out: SubOptions)
    ensures
        out.model() == spec_parse_spec(spec@),
{
    let v = chars_of(spec);
    let n = v.len();
    let ghost whole = v@.subrange(0, n as int);
    assert(whole =~= spec@);
    let ranges = split_ranges(&v, 0, n, ',');
    let ghost parts = split_on(whole, ',');
    let mut out = SubOptions { title: String::new(), values: Vec::new(), flags: Vec::new() };
    assert(out.model() =~= sub_fold(parts.take(0)));
    let mut i: usize = 0;
    while i < ranges.len()
        invariant
            i <= ranges.len() == parts.len(),
            n == v.len(),
            parts == split_on(whole, ','),
            whole == spec@,
            forall|k: int|
                0 <= k < ranges@.len() ==> 0 <= (#[trigger] ranges@[k]).0 <= ranges@[k].1 <= n
                    && v@.subrange(ranges@[k].0 as int, ranges@[k].1 as int) == parts[k],
            out.model() == sub_fold(parts.take(i as int)),
        decreases ranges.len() - i,
    {
        let (a0, b0) = ranges[i];
        assert(parts.take(i + 1).drop_last() =~= parts.take(i as int));
        assert(parts.take(i + 1).last() == parts[i as int]);
        let (a, b) = trim_bounds(&v, a0, b0);
        let ghost part = v@.subrange(a as int, b as int);
        let ghost m = out.model();
        match find_in(&v, a, b, '=') {
            Some(p) => {
                assert(part.subrange(0, p as int) =~= v@.subrange(a as int, a + p));
                assert(part.subrange(p + 1, part.len() as int) =~= v@.subrange(a + p + 1, b as int));
                let (ka, kb) = trim_bounds(&v, a, a + p);
                let key_chars = lower_range(&v, ka, kb);
                let key = string_of_all(&key_chars);
                let (va, vb) = trim_bounds(&v, a + p + 1, b);
                let value = string_of(&v, va, vb);
                out.values.push((key, value));
                assert(out.model().values =~= m.values.push((key@, value@)));
                assert(out.model() =~= SubModel {
                    values: m.values.push((lower_text(trim(v@.subrange(a as int, a + p))), trim(
                        v@.subrange(a + p + 1, b as int),
                    ))),
                    ..m
                });
            },
            None => {
                if i == 0 {
                    out.title = string_of(&v, a, b);
                    assert(out.model() =~= SubModel { title: part, ..m });
                } else if b > a {
                    let lower = lower_range(&v, a, b);
                    out.flags.push(string_of_all(&lower));
                    assert(out.model().flags =~= m.flags.push(lower_text(part)));
                    assert(out.model() =~= SubModel { flags: m.flags.push(lower_text(part)), ..m });
                }
            },
        }
        i = i + 1;
    }
    assert(parts.take(ranges.len() as int) =~= parts);
    out
}

} // verus!
