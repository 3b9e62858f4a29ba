//! The segment key of a URL: the first non-empty segment of its path.
//!
//! Two shapes of input have a path. An absolute URL, `scheme://authority`
//! followed by an optional path, query and fragment, has the path that starts
//! at the first `/` after the authority. An input that starts with `/` is a
//! path on its own. Anything else has no path, and so no segment key.

use vstd::prelude::*;
use vstd::string::*;

verus! {

/// The sets of characters that the scan over a URL tells apart.
#[derive(Clone, Copy, Debug)]
pub enum CharClass {
    /// Letters, digits, `+`, `-` and `.`: what a scheme is made of.
    Scheme,
    /// The path separator `/`.
    Slash,
    /// Everything but `/`, `?` and `#`: what an authority or a path segment
    /// is made of.
    Segment,
}

pub open spec fn is_ascii_letter(c: char) -> bool {
    ('a' <= c && c <= 'z') || ('A' <= c && c <= 'Z')
}

pub open spec fn is_ascii_digit(c: char) -> bool {
    '0' <= c && c <= '9'
}

pub open spec fn in_class(c: char, class: CharClass) -> bool {
    match class {
        CharClass::Scheme => is_ascii_letter(c) || is_ascii_digit(c) || c == '+' || c == '-' || c
            == '.',
        CharClass::Slash => c == '/',
        CharClass::Segment => c != '/' && c != '?' && c != '#',
    }
}

/// Where the run of `class` characters that starts at `from` ends: the index
/// of the first character at or after `from` that is not in `class`, or the
/// length of `s` if there is none.
pub open spec fn run_end(s: Seq<char>, from: int, class: CharClass) -> int
    decreases s.len() - from,
{
    if 0 <= from < s.len() && in_class(s[from], class) {
        run_end(s, from + 1, class)
    } else {
        from
    }
}

/// `url` opens with a scheme, a colon and two slashes.
pub open spec fn has_authority(url: Seq<char>) -> bool {
    let colon = run_end(url, 0, CharClass::Scheme);
    &&& 0 < colon
    &&& colon + 2 < url.len()
    &&& is_ascii_letter(url[0])
    &&& url[colon] == ':'
    &&& url[colon + 1] == '/'
    &&& url[colon + 2] == '/'
}

/// The index at which the path of `url` starts, if `url` has a path. After an
/// authority that is followed by no `/`, the path is empty and starts where
/// the authority ends.
pub open spec fn path_start(url: Seq<char>) -> Option<int> {
    if url.len() > 0 && url[0] == '/' {
        Some(0int)
    } else if has_authority(url) {
        Some(run_end(url, run_end(url, 0, CharClass::Scheme) + 3, CharClass::Segment))
    } else {
        None
    }
}

/// The half-open range of `url` that holds its first non-empty path segment.
pub open spec fn segment_bounds(url: Seq<char>) -> Option<(int, int)> {
    match path_start(url) {
        Some(start) => {
            let from = run_end(url, start, CharClass::Slash);
            let to = run_end(url, from, CharClass::Segment);
            if from < to {
                Some((from, to))
            } else {
                None
            }
        },
        None => None,
    }
}

/// The segment key of `url`: its first non-empty path segment, character for
/// character. `None` for a URL whose path has no segment and for an input that
/// is no URL at all.
pub open spec fn key_of(url: Seq<char>) -> Option<Seq<char>> {
    match segment_bounds(url) {
        Some((from, to)) => Some(url.subrange(from, to)),
        None => None,
    }
}

/// Whether `c` belongs to `class`.
fn char_in_class(c: char, class: CharClass) -> (member: bool)
    ensures
        member == in_class(c, class),
{
    match class {
        CharClass::Scheme => ('a' <= c && c <= 'z') || ('A' <= c && c <= 'Z') || ('0' <= c && c
            <= '9') || c == '+' || c == '-' || c == '.',
        CharClass::Slash => c == '/',
        CharClass::Segment => c != '/' && c != '?' && c != '#',
    }
}

/// Scans the run of `class` characters that starts at `from`.
fn scan(s: &[char], from: usize, class: CharClass) -> (end: usize)
    requires
        from <= s.len(),
    ensures
        end == run_end(s@, from as int, class),
        from <= end <= s.len(),
{
    let mut i: usize = from;
    while i < s.len() && char_in_class(s[i], class)
        invariant
            from <= i <= s.len(),
            run_end(s@, from as int, class) == run_end(s@, i as int, class),
        decreases s.len() - i,
    {
        i = i + 1;
    }
    i
}

/// Finds the first non-empty path segment of `url`.
pub fn segment_range(url: &[char]) -> (range: Option<(usize, usize)>)
    ensures
        match range {
            Some((from, to)) => segment_bounds(url@) == Some((from as int, to as int)) && from < to
                <= url.len(),
            None => segment_bounds(url@) is None,
        },
{
    let n: usize = url.len();
    let start: usize;
    if n > 0 && url[0] == '/' {
        start = 0;
    } else {
        let colon: usize = scan(url, 0, CharClass::Scheme);
        if colon == 0 || n - colon < 3 {
            return None;
        }
        let first: char = url[0];
        if !(('a' <= first && first <= 'z') || ('A' <= first && first <= 'Z')) {
            return None;
        }
        if url[colon] != ':' || url[colon + 1] != '/' || url[colon + 2] != '/' {
            return None;
        }
        start = scan(url, colon + 3, CharClass::Segment);
    }
    let from: usize = scan(url, start, CharClass::Slash);
    let to: usize = scan(url, from, CharClass::Segment);
    if from < to {
        Some((from, to))
    } else {
        None
    }
}

/// The segment key of `url`, as an owned string.
pub fn segment_key(url: &str) -> (key: Option<String>)
    ensures
        match key {
            Some(k) => key_of(url@) == Some(k@),
            None => key_of(url@) is None,
        },
{
    let chars = crate::text::to_chars(url);
    match segment_range(chars.as_slice()) {
        Some((from, to)) => Some(url.substring_char(from, to).to_owned()),
        None => None,
    }
}

} // verus!
