//! Compilation of URL patterns into a single case-insensitive matcher.
//!
//! A pattern is `[*.]host[/path]`. Every literal character is escaped, a
//! leading `*.` admits any chain of subdomain labels, and each pattern must
//! be followed by the end of the URL or by a `/`.
use vstd::prelude::*;
use regex::{Regex, RegexBuilder};

verus! {

/// Opens the combined expression: an optional scheme, then the alternation.
pub const RE_PREFIX: &'static str = "^(?:https?://)?(?:";

/// Closes the alternation.
pub const RE_SUFFIX: &'static str = ")";

/// The token that marks a subdomain wildcard pattern.
pub const WILDCARD: &'static str = "*.";

/// What the wildcard token stands for: any labels, each ending in a dot.
pub const WILDCARD_RE: &'static str = "(?:.+\\.)?";

/// Boundary after each pattern: a path separator or the end of the URL.
pub const URL_PATTERN_SUFFIX: &'static str = "(?:/|$)";

/// Declares regex::Regex, held opaque inside a `Matcher`.
#[verifier::external_type_specification]
#[verifier::external_body]
pub struct ExRegex(Regex);

/// The characters that carry meaning in the regex syntax.
pub open spec fn is_meta_character(c: char) -> bool {
    c == '\\' || c == '.' || c == '+' || c == '*' || c == '?' || c == '(' || c == ')' || c
        == '|' || c == '[' || c == ']' || c == '{' || c == '}' || c == '^' || c == '$' || c
        == '#' || c == '&' || c == '-' || c == '~'
}

/// `s` with a backslash put before each meta character.
pub open spec fn escaped(s: Seq<char>) -> Seq<char>
    decreases s.len(),
{
    if s.len() == 0 {
        Seq::empty()
    } else {
        let c = s.last();
        let tail = if is_meta_character(c) {
            seq!['\\', c]
        } else {
            seq![c]
        };
        escaped(s.drop_last()) + tail
    }
}

/// Whether the regex engine accepts `pattern`, compiled case-insensitively.
pub uninterp spec fn ci_regex_builds(pattern: Seq<char>) -> bool;

/// Whether `pattern`, compiled case-insensitively, matches somewhere in `haystack`.
pub uninterp spec fn ci_regex_match(pattern: Seq<char>, haystack: Seq<char>) -> bool;

/// Relies on regex::escape: it copies each character and puts a backslash
/// before each of `\ . + * ? ( ) | [ ] { } ^ $ # & - ~`.
#[verifier::external_body]
fn regex_escape(text: &str) -> (r: String)
    ensures
        r@ == escaped(text@),
{
    regex::escape(text)
}

/// Relies on regex::RegexBuilder::build with case_insensitive set: it
/// fails or succeeds by the pattern alone.
#[verifier::external_body]
fn build_matcher(source: String) -> (r: Option<Matcher>)
    ensures
        r is Some <==> ci_regex_builds(source@),
        r matches Some(m) ==> m.source() == source@,
{
    match RegexBuilder::new(&source).case_insensitive(true).build() {
        Ok(regex) => Some(Matcher { regex, source }),
        Err(_) => None,
    }
}

/// Relies on regex::Regex::is_match, on the regex that `build_matcher`
/// compiled case-insensitively from `m.source()`.
#[verifier::external_body]
fn regex_is_match(m: &Matcher, haystack: &str) -> (r: bool)
    ensures
        r == ci_regex_match(m.source(), haystack@),
{
    m.regex.is_match(haystack)
}

/// A compiled predicate over URLs, built from a non-empty pattern list.
pub struct Matcher {
    regex: Regex,
    source: String,
}

impl Matcher {
    /// The regular expression that this matcher runs.
    pub closed spec fn source(&self) -> Seq<char> {
        self.source@
    }

    /// The text of the regular expression.
    pub fn as_str(&self) -> (r: &str)
        ensures
            r@ == self.source(),
    {
        self.source.as_str()
    }

    /// Whether `url` is accepted.
    pub fn is_match(&self, url: &str) -> (r: bool)
        ensures
            r == ci_regex_match(self.source(), url@),
    {
        regex_is_match(self, url)
    }
}

/// Whether a pattern starts with the wildcard token.
pub open spec fn has_wildcard_prefix(p: Seq<char>) -> bool {
    p.len() >= 2 && p.take(2) == WILDCARD@
}

/// The sub-expression for one pattern.
pub open spec fn pattern_regex(p: Seq<char>) -> Seq<char> {
    if has_wildcard_prefix(p) {
        WILDCARD_RE@ + escaped(p.skip(2)) + URL_PATTERN_SUFFIX@
    } else {
        escaped(p) + URL_PATTERN_SUFFIX@
    }
}

/// The sub-expressions of all patterns, joined by `|`.
pub open spec fn alternation(ps: Seq<Seq<char>>) -> Seq<char>
    decreases ps.len(),
{
    if ps.len() == 0 {
        Seq::empty()
    } else if ps.len() == 1 {
        pattern_regex(ps[0])
    } else {
        alternation(ps.drop_last()) + "|"@ + pattern_regex(ps.last())
    }
}

/// The whole expression for a pattern list.
pub open spec fn regex_source(ps: Seq<Seq<char>>) -> Seq<char> {
    RE_PREFIX@ + alternation(ps) + RE_SUFFIX@
}

/// The character sequences of a list of strings.
pub open spec fn views(ps: Seq<String>) -> Seq<Seq<char>> {
    ps.map_values(|s: String| s@)
}

/// Whether compiling the pattern list yields a matcher.
pub open spec fn compiles(ps: Seq<Seq<char>>) -> bool {
    ps.len() > 0 && ci_regex_builds(regex_source(ps))
}

/// Whether the pattern list has a matcher and that matcher accepts `url`.
pub open spec fn patterns_match(ps: Seq<Seq<char>>, url: Seq<char>) -> bool {
    compiles(ps) && ci_regex_match(regex_source(ps), url)
}

/// The sub-expression for one pattern, ending in the boundary check.
pub fn escape_url_pattern(url_pattern: &str) -> (r: String)
    ensures
        r@ == pattern_regex(url_pattern@),
{
    proof {
        reveal_strlit("*.");
    }
    let n = url_pattern.unicode_len();
    let wildcard = n >= 2 && url_pattern.get_char(0) == '*' && url_pattern.get_char(1) == '.';
    assert(wildcard == has_wildcard_prefix(url_pattern@)) by {
        assert(WILDCARD@ =~= seq!['*', '.']);
        if n >= 2 {
            assert(url_pattern@.take(2) =~= seq![url_pattern@[0], url_pattern@[1]]);
        }
    }
    let mut pattern = if wildcard {
        let rest = url_pattern.substring_char(2, n);
        let mut escaped = String::from_str(WILDCARD_RE);
        let body = regex_escape(rest);
        escaped.append(body.as_str());
        escaped
    } else {
        regex_escape(url_pattern)
    };
    pattern.append(URL_PATTERN_SUFFIX);
    pattern
}

/// Combines the patterns into one matcher, or none for an empty list.
pub fn url_patterns_to_regex(url_patterns: &[String]) -> (r: Option<Matcher>)
    ensures
        r is Some <==> compiles(views(url_patterns@)),
        r matches Some(m) ==> m.source() == regex_source(views(url_patterns@)),
{
    let ghost ps = views(url_patterns@);
    if url_patterns.len() == 0 {
        return None;
    }
    let mut body = String::new();
    let mut i: usize = 0;
    while i < url_patterns.len()
        invariant
            0 <= i <= url_patterns@.len(),
            ps == views(url_patterns@),
            body@ == alternation(ps.take(i as int)),
        decreases url_patterns@.len() - i,
    {
        let sub = escape_url_pattern(url_patterns[i].as_str());
        proof {
            let next = ps.take(i + 1);
            assert(next.drop_last() =~= ps.take(i as int));
            assert(next.last() == url_patterns@[i as int]@);
        }
        if i > 0 {
            body.append("|");
        }
        body.append(sub.as_str());
        i = i + 1;
    }
    assert(ps.take(i as int) =~= ps);
    let mut source = String::from_str(RE_PREFIX);
    source.append(body.as_str());
    source.append(RE_SUFFIX);
    build_matcher(source)
}

} // verus!

verus! {

/// An empty pattern list has no matcher; a non-empty one has a matcher
/// whenever the regex engine accepts the combined expression.
pub proof fn lemma_compile_presence(ps: Seq<Seq<char>>)
    ensures
        !compiles(Seq::<Seq<char>>::empty()),
        ps.len() > 0 && ci_regex_builds(regex_source(ps)) ==> compiles(ps),
        ps.len() == 0 ==> !compiles(ps),
{
}

} // verus!
