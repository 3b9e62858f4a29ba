//! Sets of URLs in which the case of ASCII letters does not count: the seed
//! of a crawl and its frontier.

use vstd::prelude::*;

verus! {

/// The lower-case form of an ASCII capital; any other character is left as it
/// is.
pub open spec fn lowered(c: char) -> char {
    if 'A' <= c && c <= 'Z' {
        ((c as u32) + 32) as char
    } else {
        c
    }
}

/// `url` with its ASCII capitals lowered. Two URLs are the same entry of a
/// set exactly when their folded forms are equal.
pub open spec fn folded(url: Seq<char>) -> Seq<char> {
    url.map_values(|c: char| lowered(c))
}

/// What a set holds: under the folded form of each of its URLs, the URL as
/// the set spells it.
pub type Entries = Map<Seq<char>, Seq<char>>;

/// `entries` after `url` was added: a URL whose place is taken, by whatever
/// spelling, changes nothing.
pub open spec fn with_url(entries: Entries, url: Seq<char>) -> Entries {
    if entries.contains_key(folded(url)) {
        entries
    } else {
        entries.insert(folded(url), url)
    }
}

/// The entries that adding `urls` one by one to an empty set gives: of
/// several spellings of one URL the first stays.
pub open spec fn entries_of(urls: Seq<String>) -> Entries
    decreases urls.len(),
{
    if urls.len() == 0 {
        Map::empty()
    } else {
        with_url(entries_of(urls.drop_last()), urls.last()@)
    }
}

/// `keys` has finitely many members, `n` of them.
pub open spec fn counts(keys: Set<Seq<char>>, n: nat) -> bool {
    keys.finite() && keys.len() == n
}

/// `urls` lists `entries`: each URL is an entry in the spelling that the set
/// holds, each entry is one of the URLs, and no two of the URLs are the same
/// entry.
pub open spec fn lists(urls: Seq<String>, entries: Entries) -> bool {
    &&& forall|i: int|
        0 <= i < urls.len() ==> entries.contains_key(#[trigger] folded(urls[i]@))
            && entries[folded(urls[i]@)] == urls[i]@
    &&& forall|key: Seq<char>| #[trigger]
        entries.contains_key(key) ==> exists|i: int|
            0 <= i < urls.len() && #[trigger] folded(urls[i]@) == key
    &&& forall|i: int, j: int|
        0 <= i < j < urls.len() ==> #[trigger] folded(urls[i]@) != #[trigger] folded(urls[j]@)
}

/// A set of URLs, kept in a `hashbrown::HashSet` of
/// `case_insensitive_string::CaseInsensitiveString`. Verus sees none of it:
/// what the set holds is known through `url_entries` alone.
#[verifier::external_body]
#[derive(Debug)]
pub struct UrlSet {
    inner: hashbrown::HashSet<case_insensitive_string::CaseInsensitiveString>,
}

/// The entries of a set: under the folded form of each string it holds, the
/// string itself.
pub uninterp spec fn url_entries(set: UrlSet) -> Map<Seq<char>, Seq<char>>;

/// `hashbrown::HashSet::new`: a set without entries.
#[verifier::external_body]
fn set_new() -> (set: UrlSet)
    ensures
        url_entries(set) == Entries::empty(),
{
    UrlSet { inner: hashbrown::HashSet::new() }
}

/// `Clone::clone` of the `hashbrown::HashSet`: a set with the same entries.
#[verifier::external_body]
fn set_clone(set: &UrlSet) -> (copy: UrlSet)
    ensures
        url_entries(copy) == url_entries(*set),
{
    UrlSet { inner: set.inner.clone() }
}

/// `hashbrown::HashSet::len`. A set in memory has finitely many entries.
#[verifier::external_body]
fn set_len(set: &UrlSet) -> (n: usize)
    ensures
        counts(url_entries(*set).dom(), n as nat),
{
    set.inner.len()
}

/// `hashbrown::HashSet::contains`, asked about `url` as a
/// `CaseInsensitiveString`. Two of those are equal, and hash alike, when they
/// agree up to the case of ASCII letters.
#[verifier::external_body]
fn set_contains(set: &UrlSet, url: &str) -> (present: bool)
    ensures
        present == url_entries(*set).contains_key(folded(url@)),
{
    set.inner.contains(&case_insensitive_string::CaseInsensitiveString::from(url))
}

/// `hashbrown::HashSet::insert` of `url` as a `CaseInsensitiveString`. Where
/// the set holds an equal string, it keeps the one it holds and drops the new
/// one; otherwise it takes the new one as it is spelled. The result says
/// whether it took it.
#[verifier::external_body]
fn set_insert(set: &mut UrlSet, url: &str) -> (added: bool)
    ensures
        added == !url_entries(*old(set)).contains_key(folded(url@)),
        url_entries(*final(set)) == with_url(url_entries(*old(set)), url@),
{
    set.inner.insert(case_insensitive_string::CaseInsensitiveString::from(url))
}

/// `hashbrown::HashSet::iter`, each entry handed out as a copy of the
/// `String` inside it. The order is the hash table's and is not stated. What
/// is claimed: every entry is handed out as the set spells it, each once, and
/// nothing else.
#[verifier::external_body]
fn set_urls(set: &UrlSet) -> (urls: Vec<String>)
    ensures
        lists(urls@, url_entries(*set)),
{
    set.inner.iter().map(|url| url.inner().clone()).collect()
}

impl View for UrlSet {
    type V = Entries;

    /// Under the folded form of each URL of the set, the URL as the set
    /// spells it.
    open spec fn view(&self) -> Entries {
        url_entries(*self)
    }
}

impl Clone for UrlSet {
    fn clone(&self) -> (copy: Self)
        ensures
            copy@ == self@,
    {
        set_clone(self)
    }
}

impl Default for UrlSet {
    fn default() -> (set: Self)
        ensures
            set@ == Entries::empty(),
    {
        set_new()
    }
}

impl UrlSet {
    /// A set without entries.
    pub fn new() -> (set: UrlSet)
        ensures
            set@ == Entries::empty(),
    {
        set_new()
    }

    /// The set of the given URLs. Of several that differ only in the case of
    /// ASCII letters it keeps the first.
    pub fn from_urls(urls: &Vec<String>) -> (set: UrlSet)
        ensures
            set@ == entries_of(urls@),
    {
        let mut set = set_new();
        let mut i: usize = 0;
        while i < urls.len()
            invariant
                i <= urls.len(),
                set@ == entries_of(urls@.take(i as int)),
            decreases urls.len() - i,
        {
            assert(urls@.take(i + 1).drop_last() =~= urls@.take(i as int));
            set_insert(&mut set, urls[i].as_str());
            i = i + 1;
        }
        assert(urls@.take(i as int) =~= urls@);
        set
    }

    /// The number of entries.
    pub fn len(&self) -> (n: usize)
        ensures
            counts(self@.dom(), n as nat),
    {
        set_len(self)
    }

    /// Whether the set has no entry.
    pub fn is_empty(&self) -> (empty: bool)
        ensures
            empty == (self@ == Entries::empty()),
    {
        let n = set_len(self);
        proof {
            if n == 0 {
                self@.dom().lemma_len0_is_empty();
                assert(self@ =~= Entries::empty());
            }
        }
        n == 0
    }

    /// Whether the set holds `url`, in whatever case.
    pub fn contains(&self, url: &str) -> (present: bool)
        ensures
            present == self@.contains_key(folded(url@)),
    {
        set_contains(self, url)
    }

    /// Adds `url` unless the set holds it already, in whatever case, and says
    /// whether it was added. The set keeps the spelling it took first.
    pub fn insert(&mut self, url: &str) -> (added: bool)
        ensures
            added == !old(self)@.contains_key(folded(url@)),
            final(self)@ == with_url(old(self)@, url@),
    {
        set_insert(self, url)
    }

    /// The entries as the set spells them, in no particular order.
    pub fn to_vec(&self) -> (urls: Vec<String>)
        ensures
            lists(urls@, self@),
    {
        set_urls(self)
    }
}

/// Two URLs that differ only in the case of ASCII letters are one entry: a
/// set that has taken the first is not changed by the second, and keeps the
/// spelling of the first.
pub proof fn lemma_case_does_not_count(entries: Entries, first: Seq<char>, second: Seq<char>)
    requires
        folded(first) == folded(second),
    ensures
        with_url(with_url(entries, first), second) == with_url(entries, first),
        with_url(entries, first).dom() == entries.dom().insert(folded(first)),
{
    assert(with_url(entries, first).dom() =~= entries.dom().insert(folded(first)));
}

} // verus!
