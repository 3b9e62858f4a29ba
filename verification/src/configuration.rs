//! The configuration of one crawl: scope, politeness, network policy, the
//! patterns to leave out, the seed of the frontier and the page budget.
//!
//! A configuration is put together by a chain of `with_` calls and is then
//! read by the crawl. The one part that a running crawl changes is the
//! budget, which loses a visit with every admission.

use crate::admission::{admit_link, merge_links, offer_all, passes, table_after, table_in};
use crate::blacklist::{compiles, expressions_block, Blacklist};
use crate::budget::{quota_table, Budget};
use crate::frontier::{folded, lists, Entries, UrlSet};
use crate::quota::{charge, Table};
use crate::text::{any_occurs_in, texts};
use std::time::Duration;
use vstd::prelude::*;

verus! {

/// `reqwest::header::HeaderMap`, the `HeaderMap` of the `http` crate. The
/// library stores one and hands it on; it never looks inside.
#[verifier::external_type_specification]
#[verifier::external_body]
#[verifier::reject_recursive_types(T)]
pub struct ExHeaderMap<T>(reqwest::header::HeaderMap<T>);

/// `reqwest::header::HeaderValue`, what a `HeaderMap` holds for each name.
#[verifier::external_type_specification]
#[verifier::external_body]
pub struct ExHeaderValue(reqwest::header::HeaderValue);

/// The length of a `std::time::Duration`, in nanoseconds.
pub uninterp spec fn duration_nanos(d: Duration) -> nat;

/// `std::time::Duration::from_millis`: the duration of that many
/// milliseconds.
#[verifier::external_body]
fn duration_of_millis(millis: u64) -> (d: Duration)
    ensures
        duration_nanos(d) == millis * 1_000_000,
{
    Duration::from_millis(millis)
}

/// `std::time::Duration::is_zero`: whether the duration has no length.
#[verifier::external_body]
fn duration_is_zero(d: &Duration) -> (zero: bool)
    ensures
        zero == (duration_nanos(*d) == 0),
{
    d.is_zero()
}

/// Whether `agent` is one of the browser identifiers that `ua_generator`
/// draws from.
pub open spec fn in_pool(agent: Seq<char>) -> bool {
    ||| agent == "Mozilla/5.0 (compatible; MSIE 10.0; Windows NT 6.2; Trident/6.0)"@
    ||| agent == "Mozilla/5.0 (Windows NT 5.1; WOW64; rv:48.0) Gecko/20100101 Firefox/48.0"@
    ||| agent
        == "Mozilla/5.0 (Windows NT 6.2; Win64; x64) AppleWebKit/537.36 (KHTML, like Gecko) Chrome/51.0.2733.27 Safari/537.36"@
    ||| agent == "Mozilla/5.0 (Android 4.4.2; Tablet; rv:49.0) Gecko/49.0 Firefox/49.0"@
    ||| agent
        == "Mozilla/5.0 (Macintosh; Intel Mac OS X 10.8; rv:50.0) Gecko/20100101 Firefox/50.0"@
    ||| agent
        == "Mozilla/5.0 (Macintosh; Intel Mac OS X 10_12_0) AppleWebKit/537.36 (KHTML, like Gecko) Chrome/56.0.2954.39 Safari/537.36"@
    ||| agent == "Mozilla/5.0 (Android 6.0; Tablet; rv:48.0) Gecko/48.0 Firefox/48.0"@
    ||| agent
        == "Mozilla/5.0 (X11; Ubuntu; Linux x86_64; rv:50.0) Gecko/20100101 Firefox/50.0"@
    ||| agent
        == "Mozilla/5.0 (X11; Ubuntu; Linux x86_64) AppleWebKit/537.36 (KHTML, like Gecko) Chrome/55.0.2905.57 Safari/537.36"@
}

/// `ua_generator::ua::spoof_ua`: one of the crate's nine browser
/// identifiers, picked at random. Which of them is not stated; none of them
/// is empty.
#[verifier::external_body]
fn spoofed_agent() -> (agent: &'static str)
    ensures
        in_pool(agent@),
        agent@.len() > 0,
{
    ua_generator::ua::spoof_ua()
}

/// The identifier that the crawler sends when it does not pose as a browser:
/// its own name and version.
pub const CRAWLER_AGENT: &'static str = "spider/1.40.0";

/// The milliseconds a request may take where nothing else was asked for.
pub const DEFAULT_TIMEOUT_MILLIS: u64 = 15000;

/// The User-Agent for a crawl that was given none: a browser's, picked anew
/// at every call, where `rotate` is set, and otherwise the crawler's own.
pub fn get_ua(rotate: bool) -> (agent: &'static str)
    ensures
        rotate ==> in_pool(agent@),
        !rotate ==> agent@ == CRAWLER_AGENT@,
        agent@.len() > 0,
{
    if rotate {
        spoofed_agent()
    } else {
        proof {
            reveal_strlit("spider/1.40.0");
        }
        CRAWLER_AGENT
    }
}

/// What a configuration says, as plain mathematics.
pub struct ConfigurationView {
    pub respect_robots_txt: bool,
    pub subdomains: bool,
    pub tld: bool,
    pub blacklist_url: Option<Seq<Seq<char>>>,
    pub regex_blacklist: bool,
    pub user_agent: Option<Seq<char>>,
    pub rotate_user_agent: bool,
    pub delay: nat,
    /// In nanoseconds.
    pub request_timeout: Option<nat>,
    pub http2_prior_knowledge: bool,
    pub proxies: Option<Seq<Seq<char>>>,
    pub headers: Option<reqwest::header::HeaderMap>,
    pub sitemap_url: Option<Seq<char>>,
    /// Under the folded form of each URL, the URL as it is spelled.
    pub initial_queue: Entries,
    pub budget: Option<Table>,
}

/// The settings of one crawl.
#[derive(Debug, Clone)]
pub struct Configuration {
    /// Keep to the site's robots.txt.
    pub respect_robots_txt: bool,
    /// Count the subdomains of the start URL's host as part of the site.
    pub subdomains: bool,
    /// Count the host under every top-level domain as part of the site.
    pub tld: bool,
    /// Patterns of the URLs to leave out, as they were given.
    pub blacklist_url: Option<Vec<String>>,
    /// Read the blacklist as regular expressions. Otherwise it is literal
    /// text.
    pub regex_blacklist: bool,
    /// The User-Agent to send.
    pub user_agent: Option<String>,
    /// Where no User-Agent is set, send a browser's, picked anew for every
    /// request, in place of the crawler's own.
    pub rotate_user_agent: bool,
    /// Milliseconds to wait between two requests.
    pub delay: u64,
    /// The longest a request may take; `None` for no limit.
    pub request_timeout: Option<Duration>,
    /// Speak HTTP/2 from the first request on.
    pub http2_prior_knowledge: bool,
    /// Proxies to send the requests through, in order of preference; `None`
    /// for direct connections.
    pub proxies: Option<Vec<String>>,
    /// Headers to send with every request.
    pub headers: Option<reqwest::header::HeaderMap>,
    /// Where the site's sitemap is.
    pub sitemap_url: Option<String>,
    /// URLs to start from besides the start URL.
    pub initial_queue: UrlSet,
    /// Pages left to visit, by the first segment of the path.
    pub budget: Option<Budget>,
}

impl View for Configuration {
    type V = ConfigurationView;

    open spec fn view(&self) -> ConfigurationView {
        ConfigurationView {
            respect_robots_txt: self.respect_robots_txt,
            subdomains: self.subdomains,
            tld: self.tld,
            blacklist_url: match self.blacklist_url {
                Some(patterns) => Some(texts(patterns@)),
                None => None,
            },
            regex_blacklist: self.regex_blacklist,
            user_agent: match self.user_agent {
                Some(agent) => Some(agent@),
                None => None,
            },
            rotate_user_agent: self.rotate_user_agent,
            delay: self.delay as nat,
            request_timeout: match self.request_timeout {
                Some(timeout) => Some(duration_nanos(timeout)),
                None => None,
            },
            http2_prior_knowledge: self.http2_prior_knowledge,
            proxies: match self.proxies {
                Some(proxies) => Some(texts(proxies@)),
                None => None,
            },
            headers: self.headers,
            sitemap_url: match self.sitemap_url {
                Some(url) => Some(url@),
                None => None,
            },
            initial_queue: self.initial_queue@,
            budget: match self.budget {
                Some(budget) => Some(budget@),
                None => None,
            },
        }
    }
}

/// What `Configuration::default` says: everything off, nothing set.
pub open spec fn blank() -> ConfigurationView {
    ConfigurationView {
        respect_robots_txt: false,
        subdomains: false,
        tld: false,
        blacklist_url: None,
        regex_blacklist: false,
        user_agent: None,
        rotate_user_agent: false,
        delay: 0,
        request_timeout: None,
        http2_prior_knowledge: false,
        proxies: None,
        headers: None,
        sitemap_url: None,
        initial_queue: Map::empty(),
        budget: None,
    }
}

impl Default for Configuration {
    fn default() -> (configuration: Self)
        ensures
            configuration@ == blank(),
            configuration.wf(),
    {
        Configuration {
            respect_robots_txt: false,
            subdomains: false,
            tld: false,
            blacklist_url: None,
            regex_blacklist: false,
            user_agent: None,
            rotate_user_agent: false,
            delay: 0,
            request_timeout: None,
            http2_prior_knowledge: false,
            proxies: None,
            headers: None,
            sitemap_url: None,
            initial_queue: UrlSet::new(),
            budget: None,
        }
    }
}

impl Configuration {
    /// What holds of every configuration that was put together by `new` and
    /// the `with_` calls: a request timeout, if there is one, is longer than
    /// nothing, and a budget, if there is one, has a quota.
    pub open spec fn wf(&self) -> bool {
        &&& self@.request_timeout matches Some(nanos) ==> nanos > 0
        &&& self@.budget matches Some(table) ==> table != Map::<Seq<char>, nat>::empty()
    }

    /// The patterns of the blacklist; without a blacklist, none.
    pub open spec fn patterns(&self) -> Seq<Seq<char>> {
        match self@.blacklist_url {
            Some(patterns) => patterns,
            None => Seq::empty(),
        }
    }

    /// Whether the blacklist, read the way the configuration asks for, blocks
    /// `url`. Read as regular expressions, patterns that do not compile block
    /// nothing.
    pub open spec fn blacklisted(&self, url: Seq<char>) -> bool {
        if self.regex_blacklist {
            expressions_block(self.patterns(), url)
        } else {
            any_occurs_in(url, self.patterns())
        }
    }

    /// The table of the budget; without a budget, the table without quotas.
    pub open spec fn table(&self) -> Table {
        table_in(self.budget)
    }

    /// The configuration to start from: no delay, requests timed out after
    /// fifteen seconds, everything else off.
    pub fn new() -> (configuration: Self)
        ensures
            configuration@ == (ConfigurationView {
                request_timeout: Some((DEFAULT_TIMEOUT_MILLIS * 1_000_000) as nat),
                ..blank()
            }),
            configuration.wf(),
    {
        let mut configuration = Configuration::default();
        configuration.delay = 0;
        configuration.request_timeout = Some(duration_of_millis(DEFAULT_TIMEOUT_MILLIS));
        configuration
    }

    /// The matcher for the blacklist, compiled anew at every call: ask once
    /// per crawl. Without a blacklist it blocks nothing. Read as regular
    /// expressions, a blacklist with a pattern that does not compile blocks
    /// nothing either. Two matchers of one configuration give every URL the
    /// same verdict.
    pub fn get_blacklist(&self) -> (matcher: Blacklist)
        ensures
            matcher is Expressions == self.regex_blacklist,
            matcher.patterns() == if self.regex_blacklist && !compiles(self.patterns()) {
                Seq::empty()
            } else {
                self.patterns()
            },
            forall|url: Seq<char>| #[trigger] matcher.blocks(url) == self.blacklisted(url),
    {
        match &self.blacklist_url {
            Some(patterns) => {
                if self.regex_blacklist {
                    Blacklist::regex(patterns)
                } else {
                    Blacklist::literal(patterns)
                }
            },
            None => {
                let no_patterns: Vec<String> = Vec::new();
                assert(texts(no_patterns@) =~= Seq::<Seq<char>>::empty());
                if self.regex_blacklist {
                    Blacklist::regex(&no_patterns)
                } else {
                    Blacklist::literal(&no_patterns)
                }
            },
        }
    }

    /// The User-Agent to send: the one that was set, or else what `get_ua`
    /// gives.
    pub fn get_user_agent(&self) -> (agent: String)
        ensures
            match self@.user_agent {
                Some(set) => agent@ == set,
                None => agent@.len() > 0 && if self.rotate_user_agent {
                    in_pool(agent@)
                } else {
                    agent@ == CRAWLER_AGENT@
                },
            },
    {
        match &self.user_agent {
            Some(agent) => agent.clone(),
            None => get_ua(self.rotate_user_agent).to_owned(),
        }
    }

    /// Keep to robots.txt, or not.
    pub fn with_respect_robots_txt(&mut self, respect_robots_txt: bool) -> (chained: &mut Self)
        ensures
            chained@ == (ConfigurationView { respect_robots_txt, ..old(self)@ }),
            chained.wf() == old(self).wf(),
            *final(self) == *final(chained),
    {
        self.respect_robots_txt = respect_robots_txt;
        self
    }

    /// Take the subdomains in, or not.
    pub fn with_subdomains(&mut self, subdomains: bool) -> (chained: &mut Self)
        ensures
            chained@ == (ConfigurationView { subdomains, ..old(self)@ }),
            chained.wf() == old(self).wf(),
            *final(self) == *final(chained),
    {
        self.subdomains = subdomains;
        self
    }

    /// Take the other top-level domains in, or not.
    pub fn with_tld(&mut self, tld: bool) -> (chained: &mut Self)
        ensures
            chained@ == (ConfigurationView { tld, ..old(self)@ }),
            chained.wf() == old(self).wf(),
            *final(self) == *final(chained),
    {
        self.tld = tld;
        self
    }

    /// Set the milliseconds to wait between two requests.
    pub fn with_delay(&mut self, delay: u64) -> (chained: &mut Self)
        ensures
            chained@ == (ConfigurationView { delay: delay as nat, ..old(self)@ }),
            chained.wf() == old(self).wf(),
            *final(self) == *final(chained),
    {
        self.delay = delay;
        self
    }

    /// Speak HTTP/2 from the first request on, or not.
    pub fn with_http2_prior_knowledge(&mut self, http2_prior_knowledge: bool) -> (chained:
        &mut Self)
        ensures
            chained@ == (ConfigurationView { http2_prior_knowledge, ..old(self)@ }),
            chained.wf() == old(self).wf(),
            *final(self) == *final(chained),
    {
        self.http2_prior_knowledge = http2_prior_knowledge;
        self
    }

    /// Set or clear the longest a request may take. A duration of no length
    /// is no limit to wait for: it clears the timeout, as `None` does.
    pub fn with_request_timeout(&mut self, request_timeout: Option<Duration>) -> (chained:
        &mut Self)
        ensures
            chained@ == (ConfigurationView {
                request_timeout: match request_timeout {
                    Some(timeout) if duration_nanos(timeout) > 0 => Some(duration_nanos(timeout)),
                    _ => None,
                },
                ..old(self)@
            }),
            chained.request_timeout == match request_timeout {
                Some(timeout) if duration_nanos(timeout) > 0 => request_timeout,
                _ => None,
            },
            old(self).wf() ==> chained.wf(),
            *final(self) == *final(chained),
    {
        self.request_timeout = match request_timeout {
            Some(timeout) => {
                if duration_is_zero(&timeout) {
                    None
                } else {
                    Some(timeout)
                }
            },
            None => None,
        };
        self
    }

    /// Set or clear the place of the sitemap.
    pub fn with_sitemap(&mut self, sitemap_url: Option<&str>) -> (chained: &mut Self)
        ensures
            chained@ == (ConfigurationView {
                sitemap_url: match sitemap_url {
                    Some(url) => Some(url@),
                    None => None,
                },
                ..old(self)@
            }),
            chained.wf() == old(self).wf(),
            *final(self) == *final(chained),
    {
        self.sitemap_url = match sitemap_url {
            Some(url) => Some(url.to_owned()),
            None => None,
        };
        self
    }

    /// Set or clear the User-Agent. The text is copied as it is.
    pub fn with_user_agent(&mut self, user_agent: Option<&str>) -> (chained: &mut Self)
        ensures
            chained@ == (ConfigurationView {
                user_agent: match user_agent {
                    Some(agent) => Some(agent@),
                    None => None,
                },
                ..old(self)@
            }),
            chained.wf() == old(self).wf(),
            *final(self) == *final(chained),
    {
        self.user_agent = match user_agent {
            Some(agent) => Some(agent.to_owned()),
            None => None,
        };
        self
    }

    /// Where no User-Agent is set, pose as a browser.
    pub fn with_rotating_user_agent(&mut self, rotate_user_agent: bool) -> (chained: &mut Self)
        ensures
            chained@ == (ConfigurationView { rotate_user_agent, ..old(self)@ }),
            chained.wf() == old(self).wf(),
            *final(self) == *final(chained),
    {
        self.rotate_user_agent = rotate_user_agent;
        self
    }

    /// Set the list of proxies in place of the one before, or clear it.
    pub fn with_proxies(&mut self, proxies: Option<Vec<String>>) -> (chained: &mut Self)
        ensures
            chained@ == (ConfigurationView {
                proxies: match proxies {
                    Some(list) => Some(texts(list@)),
                    None => None,
                },
                ..old(self)@
            }),
            chained.proxies == proxies,
            chained.wf() == old(self).wf(),
            *final(self) == *final(chained),
    {
        self.proxies = proxies;
        self
    }

    /// Set the patterns to leave out in place of the ones before, or clear
    /// them. The patterns are stored as they are, and compiled by
    /// `get_blacklist`.
    pub fn with_blacklist_url(&mut self, blacklist_url: Option<Vec<String>>) -> (chained:
        &mut Self)
        ensures
            chained@ == (ConfigurationView {
                blacklist_url: match blacklist_url {
                    Some(patterns) => Some(texts(patterns@)),
                    None => None,
                },
                ..old(self)@
            }),
            chained.blacklist_url == blacklist_url,
            chained.wf() == old(self).wf(),
            *final(self) == *final(chained),
    {
        self.blacklist_url = blacklist_url;
        self
    }

    /// Read the blacklist as regular expressions, or as literal text.
    pub fn with_regex_blacklist(&mut self, regex_blacklist: bool) -> (chained: &mut Self)
        ensures
            chained@ == (ConfigurationView { regex_blacklist, ..old(self)@ }),
            chained.wf() == old(self).wf(),
            *final(self) == *final(chained),
    {
        self.regex_blacklist = regex_blacklist;
        self
    }

    /// Set the headers in place of the ones before, or clear them.
    pub fn with_headers(&mut self, headers: Option<reqwest::header::HeaderMap>) -> (chained:
        &mut Self)
        ensures
            chained@ == (ConfigurationView { headers, ..old(self)@ }),
            chained.wf() == old(self).wf(),
            *final(self) == *final(chained),
    {
        self.headers = headers;
        self
    }

    /// Set the initial queue in place of the one before.
    pub fn with_initial_queue(&mut self, initial_queue: UrlSet) -> (chained: &mut Self)
        ensures
            chained@ == (ConfigurationView { initial_queue: initial_queue@, ..old(self)@ }),
            chained.initial_queue == initial_queue,
            chained.wf() == old(self).wf(),
            *final(self) == *final(chained),
    {
        self.initial_queue = initial_queue;
        self
    }

    /// Set the page budget: for each key, the first segment of a path or `*`
    /// for every segment without a key of its own, the number of pages to
    /// visit under it. A list without entries is no budget.
    pub fn with_budget(&mut self, budget: Option<Vec<(String, u16)>>) -> (chained: &mut Self)
        ensures
            chained@ == (ConfigurationView {
                budget: match budget {
                    Some(quotas) if quotas.len() > 0 => Some(quota_table(quotas@)),
                    _ => None,
                },
                ..old(self)@
            }),
            old(self).wf() ==> chained.wf(),
            *final(self) == *final(chained),
    {
        self.budget = match budget {
            Some(quotas) => {
                if quotas.len() > 0 {
                    let table = Budget::from_quotas(&quotas);
                    proof {
                        assert(quota_table(quotas@).contains_key(quotas@.last().0@));
                    }
                    Some(table)
                } else {
                    None
                }
            },
            None => None,
        };
        self
    }

    /// Decides whether a discovered URL enters the frontier, and charges the
    /// budget if it does. Nothing but the budget changes.
    pub fn admit_url(&mut self, matcher: &Blacklist, url: &str) -> (admitted: bool)
        ensures
            admitted == passes(*matcher, old(self).table(), url@),
            final(self).table() == table_after(*matcher, old(self).table(), url@),
            final(self)@ == (ConfigurationView { budget: final(self)@.budget, ..old(self)@ }),
            final(self)@.budget is Some == old(self)@.budget is Some,
            old(self).wf() ==> final(self).wf(),
    {
        let admitted = admit_link(matcher, &mut self.budget, url);
        proof {
            let before = old(self).table();
            assert(charge(before, url@).dom() =~= before.dom());
            if self.table() == Map::<Seq<char>, nat>::empty() {
                assert(before =~= Map::<Seq<char>, nat>::empty());
            }
        }
        admitted
    }

    /// The frontier at the start of a crawl: the start URL, and each URL of
    /// the initial queue that is admitted. The start URL is taken as given,
    /// and a URL of the queue that differs from it only in case is not
    /// decided on again. The queue is walked in the order of its hash table,
    /// so the contract speaks of some listing of it.
    pub fn seed_frontier(&mut self, matcher: &Blacklist, start_url: &str) -> (frontier: UrlSet)
        ensures
            exists|seed: Seq<String>| #[trigger]
                lists(seed, old(self)@.initial_queue) && (frontier@, final(self).table())
                    == offer_all(
                    (map![folded(start_url@) => start_url@], old(self).table()),
                    *matcher,
                    texts(seed),
                ),
            final(self)@ == (ConfigurationView { budget: final(self)@.budget, ..old(self)@ }),
            final(self)@.budget is Some == old(self)@.budget is Some,
    {
        let mut frontier = UrlSet::new();
        frontier.insert(start_url);
        assert(frontier@ =~= map![folded(start_url@) => start_url@]);
        let seed = self.initial_queue.to_vec();
        merge_links(&mut frontier, &mut self.budget, matcher, &seed);
        assert(lists(seed@, old(self)@.initial_queue));
        frontier
    }
}

} // verus!
