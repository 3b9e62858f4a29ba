//! The quota rule as mathematics: a table of remaining visits per segment
//! key, how a URL finds the entry that governs it, and what a crawl can do to
//! the table.
//!
//! A table maps a key to the number of visits still allowed under it. The key
//! `*` stands for every segment that has no entry of its own; a segment with
//! an entry of its own never draws on `*`. A URL that no entry governs is
//! admitted without limit.

use crate::segment::key_of;
use vstd::prelude::*;

verus! {

/// Remaining visits by segment key.
pub type Table = Map<Seq<char>, nat>;

/// The key whose quota covers every segment without an entry of its own.
pub open spec fn wildcard() -> Seq<char> {
    seq!['*']
}

/// The key whose quota governs `url`: the URL's own segment key where the
/// table lists it, otherwise the wildcard where the table lists that,
/// otherwise none.
pub open spec fn governing_key(table: Table, url: Seq<char>) -> Option<Seq<char>> {
    if key_of(url) is Some && table.contains_key(key_of(url)->0) {
        key_of(url)
    } else if table.contains_key(wildcard()) {
        Some(wildcard())
    } else {
        None
    }
}

/// Whether `url` may be visited: no quota governs it, or the one that does has
/// visits left.
pub open spec fn admits(table: Table, url: Seq<char>) -> bool {
    match governing_key(table, url) {
        Some(key) => table[key] > 0,
        None => true,
    }
}

/// The table after the decision on `url`: an admission under a quota takes
/// one visit from it, and nothing else ever changes.
pub open spec fn charge(table: Table, url: Seq<char>) -> Table {
    match governing_key(table, url) {
        Some(key) => if table[key] > 0 {
            table.insert(key, (table[key] - 1) as nat)
        } else {
            table
        },
        None => table,
    }
}

/// The table after the decisions on `urls`, taken in order.
pub open spec fn charge_all(table: Table, urls: Seq<Seq<char>>) -> Table
    decreases urls.len(),
{
    if urls.len() == 0 {
        table
    } else {
        charge(charge_all(table, urls.drop_last()), urls.last())
    }
}

/// How many of `urls`, decided in order from `table`, were admitted under
/// the quota of `key`.
pub open spec fn admitted_under(table: Table, urls: Seq<Seq<char>>, key: Seq<char>) -> nat
    decreases urls.len(),
{
    if urls.len() == 0 {
        0
    } else {
        let before = charge_all(table, urls.drop_last());
        let earlier = admitted_under(table, urls.drop_last(), key);
        if governing_key(before, urls.last()) == Some(key) && admits(before, urls.last()) {
            earlier + 1
        } else {
            earlier
        }
    }
}

/// A decision never adds a key to the table nor removes one, so the key that
/// governs a URL is the same before and after any crawl.
pub proof fn lemma_keys_are_fixed(table: Table, urls: Seq<Seq<char>>)
    ensures
        charge_all(table, urls).dom() == table.dom(),
        forall|url: Seq<char>| #[trigger]
            governing_key(charge_all(table, urls), url) == governing_key(table, url),
    decreases urls.len(),
{
    if urls.len() > 0 {
        lemma_keys_are_fixed(table, urls.drop_last());
        let before = charge_all(table, urls.drop_last());
        assert(charge(before, urls.last()).dom() =~= before.dom());
    }
    let after = charge_all(table, urls);
    assert forall|url: Seq<char>| #[trigger]
        governing_key(after, url) == governing_key(table, url) by {
        assert(after.contains_key(wildcard()) == table.contains_key(wildcard()));
        if key_of(url) is Some {
            assert(after.contains_key(key_of(url)->0) == table.contains_key(key_of(url)->0));
        }
    }
}

/// Every admission under a key takes exactly one visit from its quota, and
/// nothing else touches it: after any crawl, what is left under a key and
/// what was admitted under it add up to what the key started with.
pub proof fn lemma_quota_accounting(table: Table, urls: Seq<Seq<char>>, key: Seq<char>)
    requires
        table.contains_key(key),
    ensures
        charge_all(table, urls).contains_key(key),
        charge_all(table, urls)[key] + admitted_under(table, urls, key) == table[key],
    decreases urls.len(),
{
    if urls.len() > 0 {
        lemma_quota_accounting(table, urls.drop_last(), key);
    }
}

/// No more URLs are ever admitted under a key than its quota allows.
pub proof fn lemma_quota_is_a_cap(table: Table, urls: Seq<Seq<char>>, key: Seq<char>)
    requires
        table.contains_key(key),
    ensures
        admitted_under(table, urls, key) <= table[key],
{
    lemma_quota_accounting(table, urls, key);
}

/// What is left under a key never grows in the course of a crawl.
pub proof fn lemma_quota_never_grows(table: Table, urls: Seq<Seq<char>>, n: int, key: Seq<char>)
    requires
        table.contains_key(key),
        0 <= n <= urls.len(),
    ensures
        charge_all(table, urls)[key] <= charge_all(table, urls.take(n))[key],
    decreases urls.len() - n,
{
    if n == urls.len() {
        assert(urls.take(n) =~= urls);
    } else {
        lemma_quota_never_grows(table, urls.drop_last(), n, key);
        assert(urls.drop_last().take(n) =~= urls.take(n));
        lemma_quota_accounting(table, urls.drop_last(), key);
    }
}

/// A key whose quota is zero admits nothing: whatever the crawl has decided
/// before, a URL that the key governs is turned away, and the count of
/// admissions under the key stays at zero.
pub proof fn lemma_zero_quota_admits_nothing(
    table: Table,
    urls: Seq<Seq<char>>,
    key: Seq<char>,
    url: Seq<char>,
)
    requires
        table.contains_key(key),
        table[key] == 0,
    ensures
        admitted_under(table, urls, key) == 0,
        governing_key(table, url) == Some(key) ==> !admits(charge_all(table, urls), url),
{
    lemma_quota_accounting(table, urls, key);
    lemma_keys_are_fixed(table, urls);
}

/// Once a quota is used up it stays used up: a URL that the key governs is
/// turned away at every later point of the crawl.
pub proof fn lemma_exhausted_stays_exhausted(
    table: Table,
    urls: Seq<Seq<char>>,
    n: int,
    key: Seq<char>,
    url: Seq<char>,
)
    requires
        table.contains_key(key),
        0 <= n <= urls.len(),
        charge_all(table, urls.take(n))[key] == 0,
        governing_key(table, url) == Some(key),
    ensures
        !admits(charge_all(table, urls), url),
{
    lemma_quota_never_grows(table, urls, n, key);
    lemma_keys_are_fixed(table, urls);
    lemma_quota_accounting(table, urls, key);
}

/// A URL whose segment the table does not list, in a table without the
/// wildcard, is admitted at every point of a crawl, and its admission leaves
/// the table as it was.
pub proof fn lemma_unlisted_is_unlimited(table: Table, urls: Seq<Seq<char>>, url: Seq<char>)
    requires
        !table.contains_key(wildcard()),
        key_of(url) is Some ==> !table.contains_key(key_of(url)->0),
    ensures
        admits(charge_all(table, urls), url),
        charge(charge_all(table, urls), url) == charge_all(table, urls),
{
    lemma_keys_are_fixed(table, urls);
    assert(governing_key(table, url) is None);
}

/// With no quota configured at all, every URL is admitted, however many came
/// before it.
pub proof fn lemma_empty_table_admits_all(urls: Seq<Seq<char>>, url: Seq<char>)
    ensures
        charge_all(Map::empty(), urls) == Map::<Seq<char>, nat>::empty(),
        admits(charge_all(Map::empty(), urls), url),
{
    let none: Table = Map::empty();
    lemma_keys_are_fixed(none, urls);
    assert(charge_all(none, urls) =~= none);
    lemma_unlisted_is_unlimited(none, urls, url);
}

} // verus!
