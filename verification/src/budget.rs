//! The budget table of one crawl: how many more pages may be visited under
//! each segment key.

use crate::quota::{admits, charge, wildcard, Table};
use crate::segment::segment_range;
use crate::text::{same_chars, to_chars};
use vstd::prelude::*;
use vstd::slice::slice_subrange;

verus! {

/// One line of the table: a segment key and the visits left under it.
#[derive(Clone, Debug)]
struct Quota {
    key: Vec<char>,
    left: u32,
}

/// The budget table. It is built once from the operator's quotas, and from
/// then on only `admit_url` changes it, by taking one visit at a time.
///
/// The lines are kept in the order in which they were set, and of two lines
/// with one key the later is the one that counts.
#[derive(Clone, Debug)]
pub struct Budget {
    lines: Vec<Quota>,
}

/// The table that a list of lines stands for.
spec fn table_of(lines: Seq<Quota>) -> Table
    decreases lines.len(),
{
    if lines.len() == 0 {
        Map::empty()
    } else {
        table_of(lines.drop_last()).insert(lines.last().key@, lines.last().left as nat)
    }
}

/// The table that an operator's list of quotas stands for: each key with its
/// count, a later entry taking the place of an earlier one with the same key.
pub open spec fn quota_table(quotas: Seq<(String, u16)>) -> Table
    decreases quotas.len(),
{
    if quotas.len() == 0 {
        Map::empty()
    } else {
        quota_table(quotas.drop_last()).insert(quotas.last().0@, quotas.last().1 as nat)
    }
}

/// Line `at` is the one that counts for `key`: it has that key and no later
/// line has.
spec fn governs(lines: Seq<Quota>, key: Seq<char>, at: int) -> bool {
    &&& 0 <= at < lines.len()
    &&& lines[at].key@ == key
    &&& forall|j: int| at < j < lines.len() ==> lines[j].key@ != key
}

proof fn lemma_governing_line(lines: Seq<Quota>, key: Seq<char>, at: int)
    requires
        governs(lines, key, at),
    ensures
        table_of(lines).contains_key(key),
        table_of(lines)[key] == lines[at].left,
    decreases lines.len(),
{
    if at < lines.len() - 1 {
        assert(governs(lines.drop_last(), key, at));
        lemma_governing_line(lines.drop_last(), key, at);
    }
}

proof fn lemma_no_line(lines: Seq<Quota>, key: Seq<char>)
    requires
        forall|j: int| 0 <= j < lines.len() ==> lines[j].key@ != key,
    ensures
        !table_of(lines).contains_key(key),
    decreases lines.len(),
{
    if lines.len() > 0 {
        lemma_no_line(lines.drop_last(), key);
    }
}

proof fn lemma_line_rewritten(lines: Seq<Quota>, key: Seq<char>, at: int, line: Quota)
    requires
        governs(lines, key, at),
        line.key@ == key,
    ensures
        table_of(lines.update(at, line)) == table_of(lines).insert(key, line.left as nat),
    decreases lines.len(),
{
    let rewritten = lines.update(at, line);
    if at == lines.len() - 1 {
        assert(rewritten.drop_last() =~= lines.drop_last());
        assert(table_of(rewritten) =~= table_of(lines).insert(key, line.left as nat));
    } else {
        assert(governs(lines.drop_last(), key, at));
        lemma_line_rewritten(lines.drop_last(), key, at, line);
        assert(rewritten.drop_last() =~= lines.drop_last().update(at, line));
        assert(table_of(rewritten) =~= table_of(lines).insert(key, line.left as nat));
    }
}

impl View for Budget {
    type V = Table;

    /// The visits left, by segment key.
    closed spec fn view(&self) -> Table {
        table_of(self.lines@)
    }
}

impl Budget {
    /// A table without quotas: every URL is admitted.
    pub fn new() -> (budget: Budget)
        ensures
            budget@ == Map::<Seq<char>, nat>::empty(),
    {
        Budget { lines: Vec::new() }
    }

    /// The table for an operator's list of quotas.
    pub fn from_quotas(quotas: &Vec<(String, u16)>) -> (budget: Budget)
        ensures
            budget@ == quota_table(quotas@),
    {
        let mut budget = Budget::new();
        let mut i: usize = 0;
        while i < quotas.len()
            invariant
                i <= quotas.len(),
                budget@ == quota_table(quotas@.take(i as int)),
            decreases quotas.len() - i,
        {
            assert(quotas@.take(i + 1).drop_last() =~= quotas@.take(i as int));
            budget.set_quota(quotas[i].0.as_str(), quotas[i].1 as u32);
            i = i + 1;
        }
        assert(quotas@.take(i as int) =~= quotas@);
        budget
    }

    /// Sets the visits left under `key`, whether or not the table had the key.
    pub fn set_quota(&mut self, key: &str, visits: u32)
        ensures
            final(self)@ == old(self)@.insert(key@, visits as nat),
    {
        self.lines.push(Quota { key: to_chars(key), left: visits });
        assert(self.lines@.drop_last() =~= old(self).lines@);
    }

    /// Whether the table holds no quota at all.
    pub fn is_empty(&self) -> (empty: bool)
        ensures
            empty == (self@ == Map::<Seq<char>, nat>::empty()),
    {
        let empty = self.lines.len() == 0;
        proof {
            if !empty {
                assert(self@.contains_key(self.lines@.last().key@));
            }
        }
        empty
    }

    /// The visits left under `key`, if the table lists the key.
    pub fn remaining(&self, key: &str) -> (left: Option<u32>)
        ensures
            match left {
                Some(visits) => self@.contains_key(key@) && self@[key@] == visits,
                None => !self@.contains_key(key@),
            },
    {
        let chars = to_chars(key);
        match self.line_for(chars.as_slice()) {
            Some(at) => Some(self.lines[at].left),
            None => None,
        }
    }

    /// Decides whether `url` may be visited, and takes the visit from the
    /// quota that governs the URL if it may. The check and the charge are one
    /// step: the table cannot be seen, let alone charged, in between.
    pub fn admit_url(&mut self, url: &str) -> (admitted: bool)
        ensures
            admitted == admits(old(self)@, url@),
            final(self)@ == charge(old(self)@, url@),
    {
        let chars = to_chars(url);
        let mut line: Option<usize> = None;
        if let Some((from, to)) = segment_range(chars.as_slice()) {
            line = self.line_for(slice_subrange(chars.as_slice(), from, to));
        }
        if line.is_none() {
            let star: [char; 1] = ['*'];
            assert(star@ =~= wildcard());
            line = self.line_for(star.as_slice());
        }
        match line {
            Some(at) => {
                let left: u32 = self.lines[at].left;
                if left > 0 {
                    proof {
                        let key = self.lines[at as int].key@;
                        lemma_line_rewritten(
                            self.lines@,
                            key,
                            at as int,
                            Quota { key: self.lines[at as int].key, left: (left - 1) as u32 },
                        );
                    }
                    self.lines[at].left = left - 1;
                    true
                } else {
                    false
                }
            },
            None => true,
        }
    }

    /// The line that counts for `key`, if the table lists the key.
    fn line_for(&self, key: &[char]) -> (line: Option<usize>)
        ensures
            match line {
                Some(at) => governs(self.lines@, key@, at as int) && self@.contains_key(key@)
                    && self@[key@] == self.lines[at as int].left,
                None => !self@.contains_key(key@),
            },
    {
        let mut at: usize = self.lines.len();
        while at > 0
            invariant
                at <= self.lines.len(),
                forall|j: int| at <= j < self.lines.len() ==> self.lines[j].key@ != key@,
            decreases at,
        {
            at = at - 1;
            if same_chars(self.lines[at].key.as_slice(), key) {
                proof {
                    lemma_governing_line(self.lines@, key@, at as int);
                }
                return Some(at);
            }
        }
        proof {
            lemma_no_line(self.lines@, key@);
        }
        None
    }
}

} // verus!
