//! The blacklist matcher: the patterns of URLs that a crawl leaves out, made
//! ready once and asked once per URL.
//!
//! A matcher reads its patterns in one of two ways. As regular expressions
//! they are compiled into one set, and a URL is blocked when any of them
//! matches anywhere in it. As literal text, a URL is blocked when any pattern
//! occurs in it. For a pattern with characters that mean something in a
//! regular expression the two ways differ, so a crawl picks one.

use crate::text::{any_occurs_in, contains, occurs_in, texts, to_chars};
use vstd::prelude::*;

verus! {

/// `regex::RegexSet`: patterns compiled into one matcher. Known through
/// `compiled_from` and `set_matches` alone.
#[verifier::external_type_specification]
#[verifier::external_body]
pub struct ExRegexSet(regex::RegexSet);

/// `regex::Error`: why a pattern did not compile. The library never reads
/// it.
#[verifier::external_type_specification]
#[verifier::external_body]
pub struct ExRegexError(regex::Error);

/// The patterns that a compiled set was made from, in the order in which they
/// were given: what `RegexSet::patterns` hands out.
pub uninterp spec fn compiled_from(set: regex::RegexSet) -> Seq<Seq<char>>;

/// Whether at least one expression of `set` matches somewhere in `haystack`:
/// what `RegexSet::is_match` answers.
pub uninterp spec fn set_matches(set: regex::RegexSet, haystack: Seq<char>) -> bool;

/// Whether `patterns` compile as one set of regular expressions: whether
/// `RegexSet::new` builds a set from them.
pub uninterp spec fn compiles(patterns: Seq<Seq<char>>) -> bool;

/// Whether at least one of `patterns`, read as regular expressions, matches
/// somewhere in `haystack`: what `RegexSet::is_match` answers for the set that
/// `RegexSet::new` builds from them.
pub uninterp spec fn matches_any(patterns: Seq<Seq<char>>, haystack: Seq<char>) -> bool;

/// `regex::RegexSet::new` on the patterns as they stand. Whether a set is
/// built depends on the patterns alone. A set that was built remembers the
/// patterns it was given, in order, and what it matches depends on them
/// alone.
#[verifier::external_body]
fn compile_set(patterns: &Vec<String>) -> (compiled: Result<regex::RegexSet, regex::Error>)
    ensures
        compiled is Ok == compiles(texts(patterns@)),
        compiled matches Ok(set) ==> compiled_from(set) == texts(patterns@),
        compiled matches Ok(set) ==> forall|haystack: Seq<char>| #[trigger]
            set_matches(set, haystack) == matches_any(texts(patterns@), haystack),
{
    regex::RegexSet::new(patterns)
}

/// `regex::RegexSet::empty`: the set made from no pattern.
#[verifier::external_body]
fn empty_set() -> (set: regex::RegexSet)
    ensures
        compiled_from(set).len() == 0,
{
    regex::RegexSet::empty()
}

/// `regex::RegexSet::is_match`. The answer depends on the set and the
/// haystack alone, and a set made from no pattern matches nothing.
#[verifier::external_body]
fn set_is_match(set: &regex::RegexSet, haystack: &str) -> (found: bool)
    ensures
        found == set_matches(*set, haystack@),
        compiled_from(*set).len() == 0 ==> !found,
{
    set.is_match(haystack)
}

/// A matcher, ready to be asked about URLs.
#[derive(Debug)]
pub enum Blacklist {
    /// The patterns compiled as one set of regular expressions.
    Expressions(regex::RegexSet),
    /// The patterns as literal text.
    Literals(Vec<Vec<char>>),
}

/// Whether `patterns`, read as regular expressions, block `url`: they
/// compile, there is one at least, and one matches somewhere in the URL.
pub open spec fn expressions_block(patterns: Seq<Seq<char>>, url: Seq<char>) -> bool {
    compiles(patterns) && patterns.len() > 0 && matches_any(patterns, url)
}

impl Blacklist {
    /// The patterns that the matcher was made from.
    pub open spec fn patterns(&self) -> Seq<Seq<char>> {
        match self {
            Blacklist::Expressions(set) => compiled_from(*set),
            Blacklist::Literals(literals) => literals@.map_values(|p: Vec<char>| p@),
        }
    }

    /// The verdict of the matcher on `url`. It is a function of the matcher
    /// and the URL: asking again gives the same answer.
    pub open spec fn blocks(&self, url: Seq<char>) -> bool {
        match self {
            Blacklist::Expressions(set) => set_matches(*set, url) && compiled_from(*set).len()
                > 0,
            Blacklist::Literals(_) => any_occurs_in(url, self.patterns()),
        }
    }

    /// A matcher that blocks nothing.
    pub fn none() -> (matcher: Blacklist)
        ensures
            matcher is Literals,
            matcher.patterns().len() == 0,
            forall|url: Seq<char>| !matcher.blocks(url),
    {
        Blacklist::Literals(Vec::new())
    }

    /// The matcher that reads `patterns` as literal text.
    pub fn literal(patterns: &Vec<String>) -> (matcher: Blacklist)
        ensures
            matcher is Literals,
            matcher.patterns() == texts(patterns@),
            forall|url: Seq<char>| #[trigger]
                matcher.blocks(url) == any_occurs_in(url, texts(patterns@)),
    {
        let mut literals: Vec<Vec<char>> = Vec::new();
        let mut i: usize = 0;
        while i < patterns.len()
            invariant
                i <= patterns.len(),
                literals.len() == i,
                forall|j: int| 0 <= j < i ==> literals[j]@ == patterns[j]@,
            decreases patterns.len() - i,
        {
            literals.push(to_chars(patterns[i].as_str()));
            i = i + 1;
        }
        let matcher = Blacklist::Literals(literals);
        assert(matcher.patterns() =~= texts(patterns@));
        matcher
    }

    /// The matcher that reads `patterns` as regular expressions. Where one of
    /// them does not compile, the matcher blocks nothing.
    pub fn regex(patterns: &Vec<String>) -> (matcher: Blacklist)
        ensures
            matcher is Expressions,
            matcher.patterns() == if compiles(texts(patterns@)) {
                texts(patterns@)
            } else {
                Seq::empty()
            },
            forall|url: Seq<char>| #[trigger]
                matcher.blocks(url) == expressions_block(texts(patterns@), url),
    {
        Blacklist::from_compiled(compile_set(patterns))
    }

    /// The matcher for the outcome of a compilation: the set that was built,
    /// or, after an error, the set that matches nothing.
    pub fn from_compiled(compiled: Result<regex::RegexSet, regex::Error>) -> (matcher: Blacklist)
        ensures
            match compiled {
                Ok(set) => matcher == Blacklist::Expressions(set),
                Err(_) => matcher is Expressions && matcher.patterns().len() == 0,
            },
    {
        match compiled {
            Ok(set) => Blacklist::Expressions(set),
            Err(_) => Blacklist::Expressions(empty_set()),
        }
    }

    /// Whether the crawl must leave `url` out.
    pub fn is_blacklisted(&self, url: &str) -> (blocked: bool)
        ensures
            blocked == self.blocks(url@),
    {
        match self {
            Blacklist::Expressions(set) => set_is_match(set, url),
            Blacklist::Literals(literals) => {
                let chars = to_chars(url);
                let mut i: usize = 0;
                while i < literals.len()
                    invariant
                        i <= literals.len(),
                        chars@ == url@,
                        *self == Blacklist::Literals(*literals),
                        forall|j: int| 0 <= j < i ==> !occurs_in(url@, #[trigger] self.patterns()[j]),
                    decreases literals.len() - i,
                {
                    if contains(chars.as_slice(), literals[i].as_slice()) {
                        assert(occurs_in(url@, self.patterns()[i as int]));
                        return true;
                    }
                    i = i + 1;
                }
                false
            },
        }
    }
}

/// The same matcher gives the same URL the same verdict, whenever it is
/// asked.
pub proof fn lemma_verdict_is_stable(
    first: Blacklist,
    second: Blacklist,
    url: Seq<char>,
    again: Seq<char>,
)
    requires
        first == second,
        url == again,
    ensures
        first.blocks(url) == second.blocks(again),
{
}

} // verus!
