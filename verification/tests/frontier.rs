use spider::frontier::UrlSet;

fn sorted(mut urls: Vec<String>) -> Vec<String> {
    urls.sort();
    urls
}

#[test]
fn urls_that_differ_in_case_are_one_entry() {
    let mut queue = UrlSet::new();
    assert!(queue.insert("https://A.com"));
    assert!(!queue.insert("https://a.com"));
    assert_eq!(queue.len(), 1);
    assert!(queue.contains("https://A.com"));
    assert!(queue.contains("https://a.com"));
    assert!(queue.contains("HTTPS://A.COM"));
}

#[test]
fn first_spelling_of_an_entry_is_kept() {
    let mut queue = UrlSet::new();
    queue.insert("https://A.com");
    queue.insert("https://a.com");
    assert_eq!(queue.to_vec(), vec!["https://A.com".to_string()]);
}

#[test]
fn set_of_a_list_keeps_the_first_spelling() {
    let urls = vec![
        "https://Site/A".to_string(),
        "https://site/a".to_string(),
        "https://site/b".to_string(),
        "https://SITE/B".to_string(),
    ];
    let queue = UrlSet::from_urls(&urls);
    assert_eq!(
        sorted(queue.to_vec()),
        vec!["https://Site/A".to_string(), "https://site/b".to_string()]
    );
}

#[test]
fn new_set_is_empty() {
    let queue = UrlSet::new();
    assert!(queue.is_empty());
    assert_eq!(queue.len(), 0);
    assert!(!queue.contains("https://a.com"));
    assert!(!queue.contains(""));
    assert!(queue.to_vec().is_empty());
    assert!(UrlSet::default().is_empty());
}

#[test]
fn different_urls_are_different_entries() {
    let mut queue = UrlSet::new();
    assert!(queue.insert("https://a.com/en"));
    assert!(queue.insert("https://a.com/fr"));
    assert!(queue.insert("https://a.com/en/"));
    assert!(!queue.is_empty());
    assert_eq!(queue.len(), 3);
    assert!(!queue.contains("https://a.com/de"));
    assert!(!queue.contains("https://a.com"));
}

#[test]
fn only_ascii_letters_lose_their_case() {
    let mut queue = UrlSet::new();
    assert!(queue.insert("https://site/\u{e9}"));
    assert!(queue.insert("https://site/\u{c9}"));
    assert!(!queue.insert("HTTPS://SITE/\u{e9}"));
    assert_eq!(queue.len(), 2);
    assert!(queue.insert("https://site/[x]"));
    assert!(queue.insert("https://site/{x}"));
    assert!(queue.insert("https://site/@"));
    assert!(queue.insert("https://site/`"));
    assert_eq!(queue.len(), 6);
}

#[test]
fn set_of_a_list_drops_repeats() {
    let urls = vec![
        "https://site/a".to_string(),
        "https://SITE/A".to_string(),
        "https://site/b".to_string(),
        "https://site/a".to_string(),
    ];
    let queue = UrlSet::from_urls(&urls);
    assert_eq!(queue.len(), 2);
    assert_eq!(
        sorted(queue.to_vec()),
        vec!["https://site/a".to_string(), "https://site/b".to_string()]
    );
    assert!(UrlSet::from_urls(&Vec::new()).is_empty());
}

#[test]
fn every_entry_is_listed_once() {
    let mut queue = UrlSet::new();
    let mut expected = Vec::new();
    for i in 0..40 {
        let url = format!("https://site/page/{}", i);
        assert!(queue.insert(&url));
        expected.push(url);
    }
    let listed = queue.to_vec();
    assert_eq!(listed.len(), queue.len());
    assert_eq!(sorted(listed), sorted(expected));
}

#[test]
fn copy_of_a_set_has_the_same_entries_and_grows_alone() {
    let mut queue = UrlSet::new();
    queue.insert("https://site/a");
    queue.insert("https://site/b");
    let mut copy = queue.clone();
    assert_eq!(sorted(copy.to_vec()), sorted(queue.to_vec()));
    assert!(copy.insert("https://site/c"));
    assert_eq!(copy.len(), 3);
    assert_eq!(queue.len(), 2);
    assert!(!queue.contains("https://site/c"));
}
