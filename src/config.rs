//! The rule set: browsers with their command templates, the default
//! profile, and the ordered rules, with the check that ties them together.
use vstd::prelude::*;

verus! {

/// A browser and the profile it should open with.
pub struct BrowserProfile {
    /// The name of the browser, as defined among the configured browsers.
    pub browser: String,
    /// The name of the profile, put in place of `{profile}` in the command.
    pub profile: String,
}

/// A set of URL patterns and the browser profile that opens them.
pub struct Rule {
    /// The browser and profile to open the associated URLs with.
    pub open_in: BrowserProfile,
    /// URL patterns (supporting a `*.` subdomain wildcard) that open in
    /// `open_in`.
    pub url_patterns: Vec<String>,
}

/// The configuration of browsers, default profile and rules.
pub struct Config {
    /// Each browser's name with the command line that starts it. The token
    /// `{profile}` in the command line stands for the profile, `{url}` for
    /// the URL. Names are looked up in list order.
    pub browsers: Vec<(String, Vec<String>)>,
    /// The profile for URLs that no rule matches.
    pub default: BrowserProfile,
    /// Rules, tried in order.
    pub rules: Vec<Rule>,
}

/// Why a configuration is not usable.
#[derive(Debug, PartialEq, Eq)]
pub enum ValidationError {
    /// A profile names a browser that is not defined.
    MissingBrowser(String),
    /// The browser's command template is empty.
    EmptyCommandTemplate(String),
    /// No argument of the browser's command template holds `{profile}`.
    MissingProfileToken(String),
    /// No argument of the browser's command template holds `{url}`.
    MissingUrlToken(String),
}

/// The placeholder for the profile name in a command template.
pub const PROFILE_TOKEN: &'static str = "{profile}";

/// The placeholder for the URL in a command template.
pub const URL_TOKEN: &'static str = "{url}";

/// Whether `needle` occurs in `hay` at position `k`.
pub open spec fn occurs_at(hay: Seq<char>, needle: Seq<char>, k: int) -> bool {
    0 <= k && k + needle.len() <= hay.len() && hay.subrange(k, k + needle.len()) == needle
}

/// Whether `needle` occurs anywhere in `hay`.
pub open spec fn contains(hay: Seq<char>, needle: Seq<char>) -> bool {
    exists|k: int| #[trigger] occurs_at(hay, needle, k)
}

/// Whether some argument of the template (the program excluded) holds `token`.
pub open spec fn template_has(template: Seq<String>, token: Seq<char>) -> bool {
    exists|j: int| 1 <= j < template.len() && #[trigger] contains(template[j]@, token)
}

/// Whether a browser of that name is defined.
pub open spec fn has_browser(browsers: Seq<(String, Vec<String>)>, name: Seq<char>) -> bool {
    exists|i: int| 0 <= i < browsers.len() && #[trigger] browsers[i].0@ == name
}

/// The browser of the first rule whose browser is not defined.
pub open spec fn first_missing_rule_browser(
    browsers: Seq<(String, Vec<String>)>,
    rules: Seq<Rule>,
) -> Option<String>
    decreases rules.len(),
{
    if rules.len() == 0 {
        None
    } else if !has_browser(browsers, rules[0].open_in.browser@) {
        Some(rules[0].open_in.browser)
    } else {
        first_missing_rule_browser(browsers, rules.drop_first())
    }
}

/// What is wrong with one browser definition, if anything.
pub open spec fn template_problem(entry: (String, Vec<String>)) -> Option<ValidationError> {
    if entry.1@.len() == 0 {
        Some(ValidationError::EmptyCommandTemplate(entry.0))
    } else if !template_has(entry.1@, PROFILE_TOKEN@) {
        Some(ValidationError::MissingProfileToken(entry.0))
    } else if !template_has(entry.1@, URL_TOKEN@) {
        Some(ValidationError::MissingUrlToken(entry.0))
    } else {
        None
    }
}

/// The problem of the first browser definition that has one.
pub open spec fn first_template_problem(browsers: Seq<(String, Vec<String>)>) -> Option<
    ValidationError,
>
    decreases browsers.len(),
{
    if browsers.len() == 0 {
        None
    } else if template_problem(browsers[0]) is Some {
        template_problem(browsers[0])
    } else {
        first_template_problem(browsers.drop_first())
    }
}

/// The characters of `s`, one by one.
fn chars_of(s: &str) -> (r: Vec<char>)
    ensures
        r@ == s@,
{
    let n = s.unicode_len();
    let mut r: Vec<char> = Vec::new();
    let mut i: usize = 0;
    while i < n
        invariant
            n == s@.len(),
            i <= n,
            r@ == s@.take(i as int),
        decreases n - i,
    {
        r.push(s.get_char(i));
        proof {
            assert(r@ =~= s@.take(i + 1));
        }
        i = i + 1;
    }
    assert(r@ =~= s@);
    r
}

/// Whether `needle` occurs in `hay` at position `k`.
fn occurs_at_exec(hay: &Vec<char>, needle: &Vec<char>, k: usize) -> (r: bool)
    requires
        k + needle@.len() <= hay@.len(),
    ensures
        r == occurs_at(hay@, needle@, k as int),
{
    let m = needle.len();
    let hn = hay.len();
    let mut j: usize = 0;
    while j < m
        invariant
            m == needle@.len(),
            k + m <= hay@.len(),
            hn == hay@.len(),
            j <= m,
            forall|t: int| 0 <= t < j ==> hay@[k + t] == needle@[t],
        decreases m - j,
    {
        if hay[k + j] != needle[j] {
            assert(hay@.subrange(k as int, k + m)[j as int] != needle@[j as int]);
            return false;
        }
        j = j + 1;
    }
    assert(hay@.subrange(k as int, k + m) =~= needle@);
    true
}

/// Whether `needle` occurs anywhere in `hay`.
pub fn contains_str(hay: &str, needle: &str) -> (r: bool)
    ensures
        r == contains(hay@, needle@),
{
    let h = chars_of(hay);
    let nd = chars_of(needle);
    if nd.len() > h.len() {
        return false;
    }
    let last = h.len() - nd.len();
    let mut k: usize = 0;
    while k <= last
        invariant
            h@ == hay@,
            nd@ == needle@,
            last + nd@.len() == h@.len(),
            forall|t: int| 0 <= t < k ==> !occurs_at(hay@, needle@, t),
        decreases last + 1 - k,
    {
        if occurs_at_exec(&h, &nd, k) {
            return true;
        }
        if k == last {
            return false;
        }
        k = k + 1;
    }
    false
}

/// Whether some argument after the program holds `token`.
fn template_has_exec(template: &Vec<String>, token: &str) -> (r: bool)
    ensures
        r == template_has(template@, token@),
{
    let mut j: usize = 1;
    while j < template.len()
        invariant
            1 <= j,
            forall|t: int| 1 <= t < j && t < template@.len() ==> !contains(template@[t]@, token@),
        decreases template@.len() - j,
    {
        if contains_str(template[j].as_str(), token) {
            return true;
        }
        j = j + 1;
    }
    false
}

impl Config {
    /// Whether a browser of that name is defined.
    fn has_browser_exec(&self, name: &String) -> (r: bool)
        ensures
            r == has_browser(self.browsers@, name@),
    {
        let mut i: usize = 0;
        while i < self.browsers.len()
            invariant
                forall|t: int| 0 <= t < i ==> self.browsers@[t].0@ != name@,
            decreases self.browsers@.len() - i,
        {
            if self.browsers[i].0 == *name {
                return true;
            }
            i = i + 1;
        }
        false
    }

    /// The outcome of `validate`.
    pub open spec fn validation(&self) -> Result<(), ValidationError> {
        if !has_browser(self.browsers@, self.default.browser@) {
            Err(ValidationError::MissingBrowser(self.default.browser))
        } else if let Some(b) = first_missing_rule_browser(self.browsers@, self.rules@) {
            Err(ValidationError::MissingBrowser(b))
        } else if let Some(e) = first_template_problem(self.browsers@) {
            Err(e)
        } else {
            Ok(())
        }
    }

    /// Checks that every profile names a defined browser (the default
    /// first, then the rules in order) and that every browser's command
    /// template, in list order, has a program and arguments holding
    /// `{profile}` and `{url}`.
    pub fn validate(&self) -> (r: Result<(), ValidationError>)
        ensures
            r == self.validation(),
    {
        if !self.has_browser_exec(&self.default.browser) {
            return Err(ValidationError::MissingBrowser(self.default.browser.clone()));
        }
        let mut i: usize = 0;
        assert(self.rules@.skip(0) =~= self.rules@);
        while i < self.rules.len()
            invariant
                i <= self.rules@.len(),
                has_browser(self.browsers@, self.default.browser@),
                first_missing_rule_browser(self.browsers@, self.rules@)
                    == first_missing_rule_browser(self.browsers@, self.rules@.skip(i as int)),
            decreases self.rules@.len() - i,
        {
            let ghost rest = self.rules@.skip(i as int);
            assert(rest.drop_first() =~= self.rules@.skip(i + 1));
            assert(rest[0] == self.rules@[i as int]);
            let browser = &self.rules[i].open_in.browser;
            if !self.has_browser_exec(browser) {
                return Err(ValidationError::MissingBrowser(browser.clone()));
            }
            i = i + 1;
        }
        assert(self.rules@.skip(i as int) =~= Seq::<Rule>::empty());
        let mut k: usize = 0;
        assert(self.browsers@.skip(0) =~= self.browsers@);
        while k < self.browsers.len()
            invariant
                k <= self.browsers@.len(),
                has_browser(self.browsers@, self.default.browser@),
                first_missing_rule_browser(self.browsers@, self.rules@) is None,
                first_template_problem(self.browsers@) == first_template_problem(
                    self.browsers@.skip(k as int),
                ),
            decreases self.browsers@.len() - k,
        {
            let ghost rest = self.browsers@.skip(k as int);
            assert(rest.drop_first() =~= self.browsers@.skip(k + 1));
            assert(rest[0] == self.browsers@[k as int]);
            let name = &self.browsers[k].0;
            let template = &self.browsers[k].1;
            if template.len() == 0 {
                return Err(ValidationError::EmptyCommandTemplate(name.clone()));
            }
            if !template_has_exec(template, PROFILE_TOKEN) {
                return Err(ValidationError::MissingProfileToken(name.clone()));
            }
            if !template_has_exec(template, URL_TOKEN) {
                return Err(ValidationError::MissingUrlToken(name.clone()));
            }
            k = k + 1;
        }
        assert(self.browsers@.skip(k as int) =~= Seq::<(String, Vec<String>)>::empty());
        Ok(())
    }
}

} // verus!
