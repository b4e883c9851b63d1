//! Command-file tailing: seek-offset reads of newly appended lines, with
//! truncation reset, matching swiftDialog's watcher semantics. Pre-existing
//! content is skipped unless the watcher created the file itself.
//!
//! [`CommandFileTail`] is the reading position and the carried partial
//! line; the caller opens the file, reports its length, and hands over the
//! text read from [`CommandFileTail::offset`] on.

use crate::text::{
    chars_of, find_char, is_first_index, lemma_find_facts, lemma_find_some, no_char, push_text, split_on,
    split_ranges, string_of, trim, trim_bounds,
};
use vstd::prelude::*;

verus! {

pub struct CommandFileTail {
    offset: u64,
    /// Carry for a final line not yet terminated by `\n`.
    partial: String,
}

/// The tail's position and carried text.
pub struct TailV {
    pub offset: u64,
    pub partial: Seq<char>,
}

impl TailV {
    /// The carried text is at most one unfinished line: it holds no newline.
    pub open spec fn wf(self) -> bool {
        no_char(self.partial, '\n')
    }
}

impl CommandFileTail {
    #[verifier::type_invariant]
    closed spec fn partial_is_one_line(self) -> bool {
        no_char(self.partial@, '\n')
    }
}

impl View for CommandFileTail {
    type V = TailV;

    closed spec fn view(&self) -> TailV {
        TailV { offset: self.offset, partial: self.partial@ }
    }
}

/// The tail after [`CommandFileTail::check_len`] saw a file of `len`: a
/// file shorter than the position was truncated, and reading starts over.
pub open spec fn after_len(t: TailV, len: int) -> TailV {
    if len < t.offset {
        TailV { offset: 0, partial: Seq::empty() }
    } else {
        t
    }
}

/// The tail after [`CommandFileTail::take_text`] took `buf`, read at `len`.
pub open spec fn after_text(t: TailV, len: u64, buf: Seq<char>) -> TailV {
    TailV { offset: len, partial: carried(t.partial + buf) }
}

/// The lines that are not blank, in order.
pub open spec fn non_blank(lines: Seq<Seq<char>>) -> Seq<Seq<char>>
    decreases lines.len(),
{
    if lines.len() == 0 {
        Seq::empty()
    } else if trim(lines.last()).len() == 0 {
        non_blank(lines.drop_last())
    } else {
        non_blank(lines.drop_last()).push(lines.last())
    }
}

/// Reading `text` (the carried partial line, then the new bytes) yields its
/// complete non-blank lines; what follows the last `\n` is carried.
pub open spec fn complete_lines(text: Seq<char>) -> Seq<Seq<char>> {
    non_blank(split_on(text, '\n').drop_last())
}

pub open spec fn carried(text: Seq<char>) -> Seq<char> {
    split_on(text, '\n').last()
}

pub proof fn lemma_split_nonempty(s: Seq<char>, c: char)
    ensures
        split_on(s, c).len() >= 1,
    decreases s.len(),
{
    match crate::text::find_char(s, c) {
        Some(i) => {
            lemma_find_facts(s, c);
            lemma_split_nonempty(s.subrange(i + 1, s.len() as int), c);
        },
        None => {},
    }
}

/// Splitting `s + t` splits `s`, except that its last piece continues
/// into `t`.
pub proof fn lemma_split_append(s: Seq<char>, t: Seq<char>, c: char)
    ensures
        split_on(s + t, c) == split_on(s, c).drop_last() + split_on(split_on(s, c).last() + t, c),
    decreases s.len(),
{
    lemma_find_facts(s, c);
    match find_char(s, c) {
        Some(i) => {
            let rest = s.subrange(i + 1, s.len() as int);
            assert(is_first_index(s + t, c, i)) by {
                assert((s + t).subrange(0, i) =~= s.subrange(0, i));
            }
            lemma_find_some(s + t, c, i);
            lemma_find_facts(s + t, c);
            assert((s + t).subrange(0, i) =~= s.subrange(0, i));
            assert((s + t).subrange(i + 1, (s + t).len() as int) =~= rest + t);
            lemma_split_append(rest, t, c);
            lemma_split_nonempty(rest, c);
            let sr = split_on(rest, c);
            assert(split_on(s, c) == seq![s.subrange(0, i)] + sr);
            assert((seq![s.subrange(0, i)] + sr).drop_last() =~= seq![s.subrange(0, i)] + sr.drop_last());
            assert((seq![s.subrange(0, i)] + sr).last() == sr.last());
            assert(split_on(s + t, c) == seq![s.subrange(0, i)] + split_on(rest + t, c));
            assert(seq![s.subrange(0, i)] + (sr.drop_last() + split_on(sr.last() + t, c))
                =~= (seq![s.subrange(0, i)] + sr.drop_last()) + split_on(sr.last() + t, c));
        },
        None => {
            assert(split_on(s, c) == seq![s]);
            assert(seq![s].drop_last() =~= Seq::<Seq<char>>::empty());
            assert(Seq::<Seq<char>>::empty() + split_on(s + t, c) =~= split_on(s + t, c));
        },
    }
}

/// Dropping blank lines distributes over concatenation.
pub proof fn lemma_non_blank_append(a: Seq<Seq<char>>, b: Seq<Seq<char>>)
    ensures
        non_blank(a + b) == non_blank(a) + non_blank(b),
    decreases b.len(),
{
    if b.len() == 0 {
        assert(a + b =~= a);
        assert(non_blank(a) + Seq::<Seq<char>>::empty() =~= non_blank(a));
    } else {
        lemma_non_blank_append(a, b.drop_last());
        assert((a + b).drop_last() =~= a + b.drop_last());
        assert((a + b).last() == b.last());
        if trim(b.last()).len() != 0 {
            assert((non_blank(a) + non_blank(b.drop_last())).push(b.last()) =~= non_blank(a) + non_blank(
                b.drop_last(),
            ).push(b.last()));
        }
    }
}

/// The last piece of a split holds no separator.
pub proof fn lemma_split_last_has_no_separator(s: Seq<char>, c: char)
    ensures
        no_char(split_on(s, c).last(), c),
    decreases s.len(),
{
    lemma_find_facts(s, c);
    match find_char(s, c) {
        Some(i) => {
            let rest = s.subrange(i + 1, s.len() as int);
            lemma_split_last_has_no_separator(rest, c);
            lemma_split_nonempty(rest, c);
            assert((seq![s.subrange(0, i)] + split_on(rest, c)).last() == split_on(rest, c).last());
        },
        None => {},
    }
}

/// Text without a newline completes no line and is carried whole.
pub proof fn lemma_one_line_is_carried(p: Seq<char>)
    requires
        no_char(p, '\n'),
    ensures
        complete_lines(p) == Seq::<Seq<char>>::empty(),
        carried(p) == p,
{
    lemma_find_facts(p, '\n');
    if find_char(p, '\n') is Some {
        let i = find_char(p, '\n').unwrap();
        assert(p[i] == '\n');
    }
    assert(split_on(p, '\n') == seq![p]);
    assert(seq![p].drop_last() =~= Seq::<Seq<char>>::empty());
}

impl CommandFileTail {
    /// A tail positioned at the end of existing content, so only new appends
    /// are processed; at the start when the watcher created the file.
    pub fn new(created: bool, existing_len: u64) -> (t: Self)
        ensures
            t@.offset == (if created { 0 } else { existing_len }),
            t@.partial == Seq::<char>::empty(),
            t@.wf(),
    {
        CommandFileTail { offset: if created { 0 } else { existing_len }, partial: String::new() }
    }

    /// Where the next read starts.
    pub fn offset(&self) -> (r: u64)
        ensures
            r == self@.offset,
            self@.wf(),
    {
        proof {
            use_type_invariant(self);
        }
        self.offset
    }

    /// Takes the file's current length. A file shorter than the position was
    /// truncated: start over. Returns whether there is new text to read from
    /// [`Self::offset`].
    pub fn check_len(&mut self, len: u64) -> (read: bool)
        ensures
            len < old(self)@.offset ==> final(self)@.offset == 0 && final(self)@.partial
                == Seq::<char>::empty(),
            len >= old(self)@.offset ==> final(self)@ == old(self)@,
            final(self)@ == after_len(old(self)@, len as int),
            read == (len != final(self)@.offset),
            old(self)@.wf(),
            final(self)@.wf(),
    {
        proof {
            use_type_invariant(&*self);
        }
        if len < self.offset {
            self.offset = 0;
            self.partial = String::new();
        }
        len != self.offset
    }

    /// Takes the text read from [`Self::offset`] on and the length it was
    /// read at; returns the newly completed, non-blank lines.
    pub fn take_text(&mut self, len: u64, buf: &str) -> (lines: Vec<String>)
        ensures
            final(self)@.offset == len,
            lines@.map_values(|l: String| l@) == complete_lines(old(self)@.partial + buf@),
            final(self)@.partial == carried(old(self)@.partial + buf@),
            final(self)@ == after_text(old(self)@, len, buf@),
            old(self)@.wf(),
            final(self)@.wf(),
    {
        proof {
            use_type_invariant(&*self);
        }
        let mut text = String::new();
        push_text(&mut text, self.partial.as_str());
        push_text(&mut text, buf);
        let ghost whole = old(self)@.partial + buf@;
        assert(text@ =~= whole);
        let v = chars_of(text.as_str());
        let n = v.len();
        assert(v@.subrange(0, n as int) =~= v@);
        let ranges = split_ranges(&v, 0, n, '\n');
        let ghost parts = split_on(v@, '\n');
        proof {
            lemma_split_nonempty(v@, '\n');
        }
        let k = ranges.len();
        let mut lines: Vec<String> = Vec::new();
        let mut j: usize = 0;
        assert(parts.take(0) =~= Seq::<Seq<char>>::empty());
        assert(lines@.map_values(|l: String| l@) =~= Seq::<Seq<char>>::empty());
        while j + 1 < k
            invariant
                k == ranges@.len() == parts.len() >= 1,
                j < k,
                parts == split_on(v@, '\n'),
                n == v@.len(),
                forall|q: int|
                    0 <= q < k ==> 0 <= (#[trigger] ranges@[q]).0 <= ranges@[q].1 <= n
                        && v@.subrange(ranges@[q].0 as int, ranges@[q].1 as int) == parts[q],
                lines@.map_values(|l: String| l@) == non_blank(parts.take(j as int)),
            decreases k - j,
        {
            let (x, y) = ranges[j];
            let (a, b) = trim_bounds(&v, x, y);
            assert(parts.take(j + 1).drop_last() =~= parts.take(j as int));
            assert(parts.take(j + 1).last() == parts[j as int]);
            if a != b {
                let ghost before = lines@;
                let line = string_of(&v, x, y);
                lines.push(line);
                assert(lines@.map_values(|l: String| l@) =~= before.map_values(|l: String| l@).push(
                    line@,
                ));
            }
            j = j + 1;
        }
        assert(parts.take(j as int) =~= parts.drop_last());
        let (x, y) = ranges[k - 1];
        proof {
            lemma_split_last_has_no_separator(v@, '\n');
            assert(parts.last() == parts[k - 1]);
        }
        self.partial = string_of(&v, x, y);
        self.offset = len;
        lines
    }
}

} // verus!
