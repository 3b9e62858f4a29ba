//! Admission: the decision, for one discovered URL, whether it enters the
//! frontier. A URL is admitted when the blacklist does not block it and the
//! budget allows it. A blocked URL is never charged to the budget.

use crate::blacklist::Blacklist;
use crate::budget::Budget;
use crate::frontier::{folded, Entries, UrlSet};
use crate::quota::{admits, charge, governing_key, Table};
use crate::text::texts;
use vstd::prelude::*;

verus! {

/// The table of a crawl's budget. A crawl without a budget has the table
/// without quotas.
pub open spec fn table_in(budget: Option<Budget>) -> Table {
    match budget {
        Some(b) => b@,
        None => Map::empty(),
    }
}

/// Whether `url` is admitted: the matcher does not block it and the table
/// has a visit for it.
pub open spec fn passes(matcher: Blacklist, table: Table, url: Seq<char>) -> bool {
    !matcher.blocks(url) && admits(table, url)
}

/// The table after the decision on `url`. Only a URL that the matcher lets
/// through is put to the budget.
pub open spec fn table_after(matcher: Blacklist, table: Table, url: Seq<char>) -> Table {
    if matcher.blocks(url) {
        table
    } else {
        charge(table, url)
    }
}

/// A frontier and the budget table that goes with it.
pub type Crawl = (Entries, Table);

/// The crawl after `url` was offered to it. A URL that the frontier holds
/// already, in whatever case, changes nothing. Any other URL is decided on,
/// and enters the frontier, as it is spelled, if it is admitted.
pub open spec fn offer(crawl: Crawl, matcher: Blacklist, url: Seq<char>) -> Crawl {
    if crawl.0.contains_key(folded(url)) {
        crawl
    } else if passes(matcher, crawl.1, url) {
        (crawl.0.insert(folded(url), url), table_after(matcher, crawl.1, url))
    } else {
        (crawl.0, table_after(matcher, crawl.1, url))
    }
}

/// The crawl after `urls` were offered to it, in order.
pub open spec fn offer_all(crawl: Crawl, matcher: Blacklist, urls: Seq<Seq<char>>) -> Crawl
    decreases urls.len(),
{
    if urls.len() == 0 {
        crawl
    } else {
        offer(offer_all(crawl, matcher, urls.drop_last()), matcher, urls.last())
    }
}

/// Decides whether `url` enters the frontier, and charges the budget if it
/// does.
pub fn admit_link(matcher: &Blacklist, budget: &mut Option<Budget>, url: &str) -> (admitted: bool)
    ensures
        admitted == passes(*matcher, table_in(*old(budget)), url@),
        table_in(*final(budget)) == table_after(*matcher, table_in(*old(budget)), url@),
        (*final(budget) is Some) == (*old(budget) is Some),
{
    if matcher.is_blacklisted(url) {
        return false;
    }
    match budget {
        Some(table) => table.admit_url(url),
        None => true,
    }
}

/// Offers `urls` to the frontier, in order.
pub fn merge_links(
    frontier: &mut UrlSet,
    budget: &mut Option<Budget>,
    matcher: &Blacklist,
    urls: &Vec<String>,
)
    ensures
        (final(frontier)@, table_in(*final(budget))) == offer_all(
            (old(frontier)@, table_in(*old(budget))),
            *matcher,
            texts(urls@),
        ),
        (*final(budget) is Some) == (*old(budget) is Some),
{
    let mut i: usize = 0;
    while i < urls.len()
        invariant
            i <= urls.len(),
            (frontier@, table_in(*budget)) == offer_all(
                (old(frontier)@, table_in(*old(budget))),
                *matcher,
                texts(urls@).take(i as int),
            ),
            (*budget is Some) == (*old(budget) is Some),
        decreases urls.len() - i,
    {
        assert(texts(urls@).take(i + 1).drop_last() =~= texts(urls@).take(i as int));
        assert(texts(urls@).take(i + 1).last() == urls[i as int]@);
        let url: &str = urls[i].as_str();
        if !frontier.contains(url) {
            if admit_link(matcher, budget, url) {
                frontier.insert(url);
            }
        }
        i = i + 1;
    }
    assert(texts(urls@).take(i as int) =~= texts(urls@));
}

/// Without a budget, the blacklist alone decides: every URL that it does not
/// block is admitted, however many were admitted before.
pub proof fn lemma_no_budget_no_limit(matcher: Blacklist, url: Seq<char>)
    ensures
        passes(matcher, table_in(None), url) == !matcher.blocks(url),
        table_after(matcher, table_in(None), url) == table_in(None),
{
}

/// Offering URLs never takes an entry out of the frontier nor respells one,
/// and puts nothing into it but URLs that were offered and not blocked.
pub proof fn lemma_frontier_grows_by_offers(
    crawl: Crawl,
    matcher: Blacklist,
    urls: Seq<Seq<char>>,
    key: Seq<char>,
)
    ensures
        crawl.0.contains_key(key) ==> offer_all(crawl, matcher, urls).0.contains_key(key)
            && offer_all(crawl, matcher, urls).0[key] == crawl.0[key],
        offer_all(crawl, matcher, urls).0.contains_key(key) && !crawl.0.contains_key(key)
            ==> exists|i: int|
            0 <= i < urls.len() && folded(#[trigger] urls[i]) == key && urls[i] == offer_all(
                crawl,
                matcher,
                urls,
            ).0[key] && !matcher.blocks(urls[i]),
    decreases urls.len(),
{
    if urls.len() > 0 {
        let earlier = urls.drop_last();
        lemma_frontier_grows_by_offers(crawl, matcher, earlier, key);
        let before = offer_all(crawl, matcher, earlier);
        let after = offer_all(crawl, matcher, urls);
        if after.0.contains_key(key) && !crawl.0.contains_key(key) {
            if before.0.contains_key(key) {
                let i = choose|i: int|
                    0 <= i < earlier.len() && folded(#[trigger] earlier[i]) == key && earlier[i]
                        == before.0[key] && !matcher.blocks(earlier[i]);
                assert(urls[i] == earlier[i]);
            } else {
                assert(folded(urls[urls.len() - 1]) == key);
            }
        }
    }
}

/// The table after the decisions on `urls`, taken in order behind `matcher`.
pub open spec fn decide_all(matcher: Blacklist, table: Table, urls: Seq<Seq<char>>) -> Table
    decreases urls.len(),
{
    if urls.len() == 0 {
        table
    } else {
        table_after(matcher, decide_all(matcher, table, urls.drop_last()), urls.last())
    }
}

/// How many of `urls`, decided in order behind `matcher`, were admitted
/// under the quota of `key`.
pub open spec fn passed_under(
    matcher: Blacklist,
    table: Table,
    urls: Seq<Seq<char>>,
    key: Seq<char>,
) -> nat
    decreases urls.len(),
{
    if urls.len() == 0 {
        0
    } else {
        let before = decide_all(matcher, table, urls.drop_last());
        let earlier = passed_under(matcher, table, urls.drop_last(), key);
        if governing_key(before, urls.last()) == Some(key) && passes(matcher, before, urls.last()) {
            earlier + 1
        } else {
            earlier
        }
    }
}

/// The cap holds behind a matcher as it does without one: what is left under
/// a key and what was admitted under it add up to what the key started with,
/// so no more URLs are admitted under a key than its quota allows. A blocked
/// URL counts for nothing.
pub proof fn lemma_cap_holds_behind_a_matcher(
    matcher: Blacklist,
    table: Table,
    urls: Seq<Seq<char>>,
    key: Seq<char>,
)
    requires
        table.contains_key(key),
    ensures
        decide_all(matcher, table, urls).contains_key(key),
        decide_all(matcher, table, urls)[key] + passed_under(matcher, table, urls, key)
            == table[key],
        passed_under(matcher, table, urls, key) <= table[key],
    decreases urls.len(),
{
    if urls.len() > 0 {
        lemma_cap_holds_behind_a_matcher(matcher, table, urls.drop_last(), key);
    }
}

} // verus!
