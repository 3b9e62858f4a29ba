use spider::budget::Budget;

fn quotas(list: &[(&str, u16)]) -> Vec<(String, u16)> {
    list.iter().map(|(key, visits)| (key.to_string(), *visits)).collect()
}

fn example() -> Budget {
    Budget::from_quotas(&quotas(&[("*", 15), ("en", 11), ("fr", 3)]))
}

#[test]
fn listed_segment_is_capped_at_its_quota() {
    let mut budget = example();
    for i in 1..=11 {
        assert!(budget.admit_url(&format!("/en/{}", i)), "/en/{}", i);
    }
    assert!(!budget.admit_url("/en/12"));
    assert_eq!(budget.remaining("en"), Some(0));
    assert_eq!(budget.remaining("fr"), Some(3));
    assert_eq!(budget.remaining("*"), Some(15));
}

#[test]
fn second_listed_segment_has_its_own_count() {
    let mut budget = example();
    assert!(budget.admit_url("/fr/1"));
    assert!(budget.admit_url("/fr/2"));
    assert!(budget.admit_url("/fr/3"));
    assert!(!budget.admit_url("/fr/4"));
    assert_eq!(budget.remaining("fr"), Some(0));
    assert_eq!(budget.remaining("en"), Some(11));
}

#[test]
fn unlisted_segment_draws_on_the_wildcard() {
    let mut budget = example();
    assert!(budget.admit_url("/de/1"));
    assert_eq!(budget.remaining("*"), Some(14));
    assert_eq!(budget.remaining("de"), None);
    assert_eq!(budget.remaining("en"), Some(11));
}

#[test]
fn root_url_draws_on_the_wildcard() {
    let mut budget = example();
    assert!(budget.admit_url("/"));
    assert_eq!(budget.remaining("*"), Some(14));
    assert!(budget.admit_url("https://rsseau.fr"));
    assert_eq!(budget.remaining("*"), Some(13));
}

#[test]
fn what_is_no_url_draws_on_the_wildcard() {
    let mut budget = example();
    assert!(budget.admit_url("no url at all"));
    assert_eq!(budget.remaining("*"), Some(14));
}

#[test]
fn wildcard_runs_out_for_all_unlisted_segments_together() {
    let mut budget = Budget::from_quotas(&quotas(&[("*", 2)]));
    assert!(budget.admit_url("/de/1"));
    assert!(budget.admit_url("/it/1"));
    assert!(!budget.admit_url("/es/1"));
    assert!(!budget.admit_url("/"));
    assert_eq!(budget.remaining("*"), Some(0));
}

#[test]
fn listed_segment_does_not_draw_on_the_wildcard() {
    let mut budget = Budget::from_quotas(&quotas(&[("*", 1), ("en", 2)]));
    assert!(budget.admit_url("https://site/en/a"));
    assert!(budget.admit_url("https://site/en/b"));
    assert_eq!(budget.remaining("*"), Some(1));
    assert!(!budget.admit_url("https://site/en/c"));
    assert_eq!(budget.remaining("*"), Some(1));
    assert!(budget.admit_url("https://site/de/a"));
    assert!(!budget.admit_url("https://site/de/b"));
}

#[test]
fn keys_match_whole_segments_only() {
    let mut budget = Budget::from_quotas(&quotas(&[("en", 0)]));
    assert!(!budget.admit_url("/en/1"));
    assert!(budget.admit_url("/en-us/1"));
    assert!(budget.admit_url("/e/1"));
    assert!(budget.admit_url("/EN/1"));
    assert!(budget.admit_url("/english/en"));
}

#[test]
fn zero_quota_never_admits() {
    let mut budget = Budget::from_quotas(&quotas(&[("en", 0), ("*", 5)]));
    for i in 0..20 {
        assert!(!budget.admit_url(&format!("https://site/en/{}", i)));
    }
    assert_eq!(budget.remaining("en"), Some(0));
    assert_eq!(budget.remaining("*"), Some(5));
}

#[test]
fn zero_wildcard_stops_every_unlisted_segment() {
    let mut budget = Budget::from_quotas(&quotas(&[("*", 0), ("en", 1)]));
    assert!(!budget.admit_url("/de/1"));
    assert!(!budget.admit_url("/"));
    assert!(budget.admit_url("/en/1"));
    assert!(!budget.admit_url("/en/2"));
}

#[test]
fn unlisted_segment_without_wildcard_is_unlimited() {
    let mut budget = Budget::from_quotas(&quotas(&[("en", 1)]));
    for i in 0..100 {
        assert!(budget.admit_url(&format!("/de/{}", i)));
    }
    assert!(budget.admit_url("/"));
    assert_eq!(budget.remaining("en"), Some(1));
    assert_eq!(budget.remaining("de"), None);
    assert_eq!(budget.remaining("*"), None);
}

#[test]
fn empty_table_admits_everything() {
    let mut budget = Budget::new();
    assert!(budget.is_empty());
    for i in 0..50 {
        assert!(budget.admit_url(&format!("https://site/en/{}", i)));
    }
    assert!(budget.is_empty());
}

#[test]
fn each_admission_takes_exactly_one_visit() {
    let mut budget = Budget::from_quotas(&quotas(&[("en", 7)]));
    for n in 1..=7u32 {
        assert!(budget.admit_url("/en/page"));
        assert_eq!(budget.remaining("en"), Some(7 - n));
    }
    assert!(!budget.admit_url("/en/page"));
    assert_eq!(budget.remaining("en"), Some(0));
    assert!(!budget.admit_url("/en/page"));
    assert_eq!(budget.remaining("en"), Some(0));
}

#[test]
fn rejected_urls_take_no_visit_from_other_keys() {
    let mut budget = Budget::from_quotas(&quotas(&[("en", 0), ("fr", 2), ("*", 2)]));
    assert!(!budget.admit_url("/en/1"));
    assert_eq!(budget.remaining("fr"), Some(2));
    assert_eq!(budget.remaining("*"), Some(2));
}

#[test]
fn later_quota_for_a_key_replaces_the_earlier() {
    let mut budget = Budget::from_quotas(&quotas(&[("en", 5), ("fr", 1), ("en", 2)]));
    assert_eq!(budget.remaining("en"), Some(2));
    assert!(budget.admit_url("/en/1"));
    assert!(budget.admit_url("/en/2"));
    assert!(!budget.admit_url("/en/3"));
    assert_eq!(budget.remaining("en"), Some(0));
    assert_eq!(budget.remaining("fr"), Some(1));
}

#[test]
fn set_quota_adds_and_replaces() {
    let mut budget = Budget::new();
    budget.set_quota("en", 1);
    assert!(!budget.is_empty());
    assert_eq!(budget.remaining("en"), Some(1));
    budget.set_quota("en", 70000);
    assert_eq!(budget.remaining("en"), Some(70000));
    budget.set_quota("*", 0);
    assert_eq!(budget.remaining("*"), Some(0));
    assert_eq!(budget.remaining("fr"), None);
}

#[test]
fn largest_quota_of_a_list_is_kept_whole() {
    let mut budget = Budget::from_quotas(&quotas(&[("en", u16::MAX)]));
    assert_eq!(budget.remaining("en"), Some(65535));
    assert!(budget.admit_url("/en/"));
    assert_eq!(budget.remaining("en"), Some(65534));
}

#[test]
fn copy_of_a_table_counts_on_its_own() {
    let mut budget = Budget::from_quotas(&quotas(&[("en", 1)]));
    let mut copy = budget.clone();
    assert!(budget.admit_url("/en/1"));
    assert!(!budget.admit_url("/en/2"));
    assert_eq!(copy.remaining("en"), Some(1));
    assert!(copy.admit_url("/en/1"));
}
