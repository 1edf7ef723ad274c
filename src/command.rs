//! The command line that opens a URL in the resolved browser profile.
use vstd::prelude::*;
use crate::config::{BrowserProfile, Config, PROFILE_TOKEN, URL_TOKEN};
use crate::resolve::{resolve, resolved};

verus! {

/// `s` with every occurrence of `from`, taken left to right without
/// overlap, put in place by `to`.
pub open spec fn replace_all(s: Seq<char>, from: Seq<char>, to: Seq<char>) -> Seq<char>
    recommends
        from.len() > 0,
    decreases s.len(),
{
    if from.len() == 0 || s.len() < from.len() {
        s
    } else if s.take(from.len() as int) == from {
        to + replace_all(s.skip(from.len() as int), from, to)
    } else {
        seq![s[0]] + replace_all(s.skip(1), from, to)
    }
}

/// One argument of the command: `{profile}` replaced by the profile, then
/// `{url}` by the URL.
pub open spec fn fill_argument(arg: Seq<char>, profile: Seq<char>, url: Seq<char>) -> Seq<char> {
    replace_all(replace_all(arg, PROFILE_TOKEN@, profile), URL_TOKEN@, url)
}

/// Whether `cmd` is the command line for `template`: the program as it
/// stands, then each argument filled in.
pub open spec fn is_command_line(
    cmd: Seq<String>,
    template: Seq<String>,
    profile: Seq<char>,
    url: Seq<char>,
) -> bool {
    &&& cmd.len() == template.len()
    &&& cmd.len() > 0
    &&& cmd[0]@ == template[0]@
    &&& forall|k: int|
        1 <= k < cmd.len() ==> #[trigger] cmd[k]@ == fill_argument(template[k]@, profile, url)
}

/// The command template of the first browser of that name.
pub open spec fn template_for(browsers: Seq<(String, Vec<String>)>, name: Seq<char>) -> Option<
    Vec<String>,
>
    decreases browsers.len(),
{
    if browsers.len() == 0 {
        None
    } else if browsers[0].0@ == name {
        Some(browsers[0].1)
    } else {
        template_for(browsers.drop_first(), name)
    }
}

/// `s` with every occurrence of `from` replaced by `to`.
fn replace_str(s: &str, from: &str, to: &str) -> (r: String)
    requires
        from@.len() > 0,
    ensures
        r@ == replace_all(s@, from@, to@),
{
    let n = s.unicode_len();
    let m = from.unicode_len();
    let pattern = String::from_str(from);
    let mut out = String::new();
    let mut i: usize = 0;
    assert(s@.skip(0) =~= s@);
    assert(out@ + replace_all(s@, from@, to@) =~= replace_all(s@, from@, to@));
    while i < n
        invariant
            n == s@.len(),
            m == from@.len(),
            pattern@ == from@,
            m > 0,
            i <= n,
            out@ + replace_all(s@.skip(i as int), from@, to@) == replace_all(s@, from@, to@),
        decreases n - i,
    {
        let ghost rest = s@.skip(i as int);
        if m <= n - i && String::from_str(s.substring_char(i, i + m)) == pattern {
            assert(rest.take(m as int) =~= s@.subrange(i as int, i + m));
            assert(rest.skip(m as int) =~= s@.skip(i + m));
            out.append(to);
            assert(out@ + replace_all(s@.skip(i + m), from@, to@) =~= replace_all(s@, from@, to@));
            i = i + m;
        } else {
            assert(rest.skip(1) =~= s@.skip(i + 1));
            assert(rest[0] == s@[i as int]);
            if m <= n - i {
                assert(rest.take(m as int) =~= s@.subrange(i as int, i + m));
            }
            let one = s.substring_char(i, i + 1);
            assert(one@ =~= seq![rest[0]]);
            out.append(one);
            assert(out@ + replace_all(s@.skip(i + 1), from@, to@) =~= replace_all(s@, from@, to@));
            i = i + 1;
        }
    }
    assert(s@.skip(i as int) =~= Seq::<char>::empty());
    assert(out@ =~= replace_all(s@, from@, to@));
    out
}

/// The command line that opens `url` in `open_in`, from the browser's
/// command template.
pub fn build_command(command_template: &[String], open_in: &BrowserProfile, url: &str) -> (r: Vec<
    String,
>)
    requires
        command_template@.len() > 0,
    ensures
        is_command_line(r@, command_template@, open_in.profile@, url@),
{
    proof {
        reveal_strlit("{profile}");
        reveal_strlit("{url}");
    }
    assert(PROFILE_TOKEN@.len() > 0);
    assert(URL_TOKEN@.len() > 0);
    let mut cmd: Vec<String> = Vec::new();
    cmd.push(command_template[0].clone());
    let mut j: usize = 1;
    while j < command_template.len()
        invariant
            1 <= j <= command_template@.len(),
            cmd@.len() == j,
            cmd@[0]@ == command_template@[0]@,
            PROFILE_TOKEN@.len() > 0,
            URL_TOKEN@.len() > 0,
            forall|k: int|
                1 <= k < j ==> #[trigger] cmd@[k]@ == fill_argument(
                    command_template@[k]@,
                    open_in.profile@,
                    url@,
                ),
        decreases command_template@.len() - j,
    {
        let with_profile = replace_str(
            command_template[j].as_str(),
            PROFILE_TOKEN,
            open_in.profile.as_str(),
        );
        let arg = replace_str(with_profile.as_str(), URL_TOKEN, url);
        cmd.push(arg);
        j = j + 1;
    }
    cmd
}

impl Config {
    /// The command template of the first browser named `browser`.
    pub fn command_template(&self, browser: &String) -> (r: Option<&Vec<String>>)
        ensures
            match r {
                Some(t) => template_for(self.browsers@, browser@) == Some(*t),
                None => template_for(self.browsers@, browser@) is None,
            },
    {
        let mut i: usize = 0;
        assert(self.browsers@.skip(0) =~= self.browsers@);
        while i < self.browsers.len()
            invariant
                i <= self.browsers@.len(),
                template_for(self.browsers@, browser@) == template_for(
                    self.browsers@.skip(i as int),
                    browser@,
                ),
            decreases self.browsers@.len() - i,
        {
            let ghost rest = self.browsers@.skip(i as int);
            assert(rest.drop_first() =~= self.browsers@.skip(i + 1));
            assert(rest[0] == self.browsers@[i as int]);
            if self.browsers[i].0 == *browser {
                return Some(&self.browsers[i].1);
            }
            i = i + 1;
        }
        assert(self.browsers@.skip(i as int) =~= Seq::<(String, Vec<String>)>::empty());
        None
    }

    /// The command line that opens `url`: the resolved profile's browser
    /// template filled in. None when that browser is not defined or its
    /// template is empty, which `validate` rules out.
    pub fn open_command(&self, url: &str) -> (r: Option<Vec<String>>)
        ensures
            ({
                let p = resolved(self.rules@, self.default, url@);
                match template_for(self.browsers@, p.browser@) {
                    Some(t) => if t@.len() > 0 {
                        r matches Some(cmd) && is_command_line(cmd@, t@, p.profile@, url@)
                    } else {
                        r is None
                    },
                    None => r is None,
                }
            }),
    {
        let open_in = resolve(self.rules.as_slice(), &self.default, url);
        match self.command_template(&open_in.browser) {
            Some(template) => {
                if template.len() == 0 {
                    None
                } else {
                    Some(build_command(template.as_slice(), open_in, url))
                }
            },
            None => None,
        }
    }
}

} // verus!
