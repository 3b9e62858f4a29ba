use spider::blacklist::Blacklist;

fn patterns(list: &[&str]) -> Vec<String> {
    list.iter().map(|p| p.to_string()).collect()
}

#[test]
fn literal_pattern_blocks_what_holds_it() {
    let matcher = Blacklist::literal(&patterns(&["https://choosealicense.com/licenses/"]));
    assert!(matcher.is_blacklisted("https://choosealicense.com/licenses/mit/"));
    assert!(!matcher.is_blacklisted("https://choosealicense.com/about/"));
}

#[test]
fn regex_pattern_blocks_what_it_matches() {
    let matcher = Blacklist::regex(&patterns(&["https://choosealicense.com/licenses/"]));
    assert!(matcher.is_blacklisted("https://choosealicense.com/licenses/mit/"));
    assert!(!matcher.is_blacklisted("https://choosealicense.com/about/"));
}

#[test]
fn literal_pattern_may_stand_anywhere_in_the_url() {
    let matcher = Blacklist::literal(&patterns(&["/private/", ".pdf"]));
    assert!(matcher.is_blacklisted("https://site/private/notes"));
    assert!(matcher.is_blacklisted("https://site/docs/paper.pdf"));
    assert!(matcher.is_blacklisted(".pdf"));
    assert!(!matcher.is_blacklisted("https://site/private"));
    assert!(!matcher.is_blacklisted("https://site/docs/paper.pd"));
    assert!(!matcher.is_blacklisted(""));
}

#[test]
fn literal_pattern_is_not_read_as_an_expression() {
    let literal = Blacklist::literal(&patterns(&["/a.c"]));
    assert!(literal.is_blacklisted("https://site/a.c"));
    assert!(!literal.is_blacklisted("https://site/abc"));
    let regex = Blacklist::regex(&patterns(&["/a.c"]));
    assert!(regex.is_blacklisted("https://site/a.c"));
    assert!(regex.is_blacklisted("https://site/abc"));
}

#[test]
fn regex_patterns_are_tried_together() {
    let matcher = Blacklist::regex(&patterns(&["^https://site/admin", "\\.(png|jpg)$"]));
    assert!(matcher.is_blacklisted("https://site/admin/users"));
    assert!(matcher.is_blacklisted("https://site/logo.png"));
    assert!(!matcher.is_blacklisted("https://site/png/about"));
    assert!(!matcher.is_blacklisted("http://other/https://site/admin"));
}

#[test]
fn regex_that_does_not_compile_blocks_nothing() {
    let matcher = Blacklist::regex(&patterns(&["https://site/ok", "(unclosed"]));
    assert!(matches!(matcher, Blacklist::Expressions(_)));
    assert!(!matcher.is_blacklisted("https://site/ok"));
    assert!(!matcher.is_blacklisted("(unclosed"));
    assert!(!matcher.is_blacklisted(""));
}

#[test]
fn regex_matcher_is_made_from_the_patterns_given() {
    match Blacklist::regex(&patterns(&["/en/", "^https://"])) {
        Blacklist::Expressions(set) => assert_eq!(set.patterns(), &["/en/", "^https://"]),
        Blacklist::Literals(_) => panic!("expressions were kept as literal text"),
    }
    match Blacklist::regex(&patterns(&["/en/", "[", "^https://"])) {
        Blacklist::Expressions(set) => assert!(set.patterns().is_empty()),
        Blacklist::Literals(_) => panic!("expressions were kept as literal text"),
    }
}

#[test]
fn no_pattern_blocks_nothing() {
    let urls = ["", "https://site/", "https://choosealicense.com/licenses/mit/"];
    for url in urls {
        assert!(!Blacklist::none().is_blacklisted(url));
        assert!(!Blacklist::literal(&Vec::new()).is_blacklisted(url));
        assert!(!Blacklist::regex(&Vec::new()).is_blacklisted(url));
    }
}

#[test]
fn empty_literal_pattern_blocks_everything() {
    let matcher = Blacklist::literal(&patterns(&[""]));
    assert!(matcher.is_blacklisted("https://site/"));
    assert!(matcher.is_blacklisted(""));
}

#[test]
fn literal_patterns_match_character_by_character() {
    let matcher = Blacklist::literal(&patterns(&["caf\u{e9}"]));
    assert!(matcher.is_blacklisted("https://site/caf\u{e9}/menu"));
    assert!(!matcher.is_blacklisted("https://site/cafe/menu"));
    assert!(!matcher.is_blacklisted("https://site/CAF\u{e9}/menu"));
}

#[test]
fn literal_pattern_longer_than_the_url_does_not_block() {
    let matcher = Blacklist::literal(&patterns(&["https://site/en/page"]));
    assert!(!matcher.is_blacklisted("https://site/en"));
    assert!(matcher.is_blacklisted("https://site/en/page"));
    assert!(matcher.is_blacklisted("see https://site/en/page/2"));
}

#[test]
fn verdict_is_the_same_when_asked_again() {
    let matchers = [
        Blacklist::literal(&patterns(&["/licenses/"])),
        Blacklist::regex(&patterns(&["/licen[sc]es/"])),
    ];
    let urls = ["https://choosealicense.com/licenses/mit/", "https://choosealicense.com/about/"];
    for matcher in &matchers {
        for url in urls {
            let first = matcher.is_blacklisted(url);
            for _ in 0..10 {
                assert_eq!(matcher.is_blacklisted(url), first);
            }
        }
    }
}

#[test]
fn compiled_set_is_kept_as_it_is() {
    let set = regex::RegexSet::new(["/en/", "/fr/"]).unwrap();
    let matcher = Blacklist::from_compiled(Ok(set));
    assert!(matcher.is_blacklisted("https://site/fr/1"));
    assert!(!matcher.is_blacklisted("https://site/de/1"));
    match matcher {
        Blacklist::Expressions(set) => assert_eq!(set.patterns(), &["/en/", "/fr/"]),
        Blacklist::Literals(_) => panic!("compiled patterns turned into literal text"),
    }
}

#[test]
fn failed_compilation_gives_the_empty_set() {
    let failed = regex::RegexSet::new(["["]);
    assert!(failed.is_err());
    match Blacklist::from_compiled(failed) {
        Blacklist::Expressions(set) => assert!(set.is_empty()),
        Blacklist::Literals(_) => panic!("compiled patterns turned into literal text"),
    }
}

#[test]
fn literal_matcher_keeps_the_patterns_in_order() {
    match Blacklist::literal(&patterns(&["b", "a"])) {
        Blacklist::Literals(literals) => assert_eq!(literals, vec![vec!['b'], vec!['a']]),
        Blacklist::Expressions(_) => panic!("literal text was compiled"),
    }
}
