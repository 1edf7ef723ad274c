//! Ordered, first-match-wins resolution of a URL to a browser profile.
use vstd::prelude::*;
use crate::config::{BrowserProfile, Rule};
use crate::url::{compiles, patterns_match, url_patterns_to_regex, views};

verus! {

/// Whether `rule` has a matcher and that matcher accepts `url`.
pub open spec fn rule_matches(rule: Rule, url: Seq<char>) -> bool {
    patterns_match(views(rule.url_patterns@), url)
}

/// The profile of the first rule that accepts `url`, else `default`.
pub open spec fn resolved(rules: Seq<Rule>, default: BrowserProfile, url: Seq<char>) -> BrowserProfile
    decreases rules.len(),
{
    if rules.len() == 0 {
        default
    } else if rule_matches(rules[0], url) {
        rules[0].open_in
    } else {
        resolved(rules.drop_first(), default, url)
    }
}

/// Picks the browser profile for `url`: that of the first rule, in order,
/// whose patterns compile and accept it; the default when none does.
pub fn resolve<'a>(rules: &'a [Rule], default: &'a BrowserProfile, url: &str) -> (r:
    &'a BrowserProfile)
    ensures
        *r == resolved(rules@, *default, url@),
{
    let mut i: usize = 0;
    assert(rules@.skip(0) =~= rules@);
    while i < rules.len()
        invariant
            i <= rules@.len(),
            resolved(rules@, *default, url@) == resolved(rules@.skip(i as int), *default, url@),
        decreases rules@.len() - i,
    {
        let ghost rest = rules@.skip(i as int);
        assert(rest.drop_first() =~= rules@.skip(i + 1));
        assert(rest[0] == rules@[i as int]);
        let rule = &rules[i];
        match url_patterns_to_regex(rule.url_patterns.as_slice()) {
            Some(re) => {
                if re.is_match(url) {
                    return &rule.open_in;
                }
            },
            None => {},
        }
        i = i + 1;
    }
    assert(rules@.skip(i as int) =~= Seq::<Rule>::empty());
    default
}

/// When rule `i` is the first rule that accepts `url`, resolution gives
/// that rule's profile, whatever the later rules say.
pub proof fn lemma_first_match_wins(
    rules: Seq<Rule>,
    default: BrowserProfile,
    url: Seq<char>,
    i: int,
)
    requires
        0 <= i < rules.len(),
        rule_matches(rules[i], url),
        forall|k: int| 0 <= k < i ==> !rule_matches(#[trigger] rules[k], url),
    ensures
        resolved(rules, default, url) == rules[i].open_in,
    decreases i,
{
    if i > 0 {
        assert(!rule_matches(rules[0], url));
        let rest = rules.drop_first();
        assert forall|k: int| 0 <= k < i - 1 implies !rule_matches(#[trigger] rest[k], url) by {
            assert(rest[k] == rules[k + 1]);
        }
        lemma_first_match_wins(rest, default, url, i - 1);
    }
}

/// Of two rules in a row, with patterns `[a]` and `[a, b]`, that both accept
/// `url`, the first one decides.
pub proof fn lemma_earlier_overlapping_rule_wins(
    first: Rule,
    second: Rule,
    default: BrowserProfile,
    url: Seq<char>,
    a: Seq<char>,
    b: Seq<char>,
)
    requires
        views(first.url_patterns@) == seq![a],
        views(second.url_patterns@) == seq![a, b],
        rule_matches(first, url),
        rule_matches(second, url),
    ensures
        resolved(seq![first, second], default, url) == first.open_in,
{
}

/// A rule without patterns never matches, so resolution passes over it
/// wherever it stands: the outcome is that of the other rules alone.
pub proof fn lemma_empty_rule_skipped(
    before: Seq<Rule>,
    empty: Rule,
    after: Seq<Rule>,
    default: BrowserProfile,
    url: Seq<char>,
)
    requires
        empty.url_patterns@.len() == 0,
    ensures
        !rule_matches(empty, url),
        resolved(before + seq![empty] + after, default, url) == resolved(
            before + after,
            default,
            url,
        ),
    decreases before.len(),
{
    assert(!compiles(views(empty.url_patterns@)));
    if before.len() == 0 {
        assert(before + seq![empty] + after =~= seq![empty] + after);
        assert(before + after =~= after);
        assert((seq![empty] + after).drop_first() =~= after);
    } else {
        let rest = before.drop_first();
        lemma_empty_rule_skipped(rest, empty, after, default, url);
        assert((before + seq![empty] + after).drop_first() =~= rest + seq![empty] + after);
        assert((before + after).drop_first() =~= rest + after);
        assert((before + seq![empty] + after)[0] == before[0]);
        assert((before + after)[0] == before[0]);
    }
}

/// When no rule accepts `url`, resolution gives the default profile.
pub proof fn lemma_no_match_gives_default(
    rules: Seq<Rule>,
    default: BrowserProfile,
    url: Seq<char>,
)
    requires
        forall|k: int| 0 <= k < rules.len() ==> !rule_matches(#[trigger] rules[k], url),
    ensures
        resolved(rules, default, url) == default,
    decreases rules.len(),
{
    if rules.len() > 0 {
        let rest = rules.drop_first();
        assert forall|k: int| 0 <= k < rest.len() implies !rule_matches(#[trigger] rest[k], url) by {
            assert(rest[k] == rules[k + 1]);
        }
        lemma_no_match_gives_default(rest, default, url);
    }
}

} // verus!
