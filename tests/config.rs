use metabrowser::command::build_command;
use metabrowser::config::{contains_str, BrowserProfile, Config, Rule, ValidationError};

fn strings(items: &[&str]) -> Vec<String> {
    items.iter().map(|s| s.to_string()).collect()
}

fn profile(browser: &str, profile: &str) -> BrowserProfile {
    BrowserProfile { browser: browser.to_owned(), profile: profile.to_owned() }
}

fn sample() -> Config {
    Config {
        browsers: vec![
            ("firefox".to_owned(), strings(&["firefox", "-P", "{profile}", "{url}"])),
            ("chrome".to_owned(), strings(&["chrome", "--profile-directory={profile}", "{url}"])),
        ],
        default: profile("firefox", "default"),
        rules: vec![Rule {
            open_in: profile("chrome", "Work"),
            url_patterns: strings(&["*.corp.example"]),
        }],
    }
}

#[test]
fn valid_config() {
    assert_eq!(sample().validate(), Ok(()));
}

#[test]
fn missing_default_browser() {
    let mut c = sample();
    c.default = profile("opera", "x");
    assert_eq!(c.validate(), Err(ValidationError::MissingBrowser("opera".to_owned())));
}

#[test]
fn missing_rule_browser() {
    let mut c = sample();
    c.rules.push(Rule { open_in: profile("edge", "x"), url_patterns: strings(&["a.com"]) });
    c.rules.push(Rule { open_in: profile("safari", "y"), url_patterns: strings(&[]) });
    assert_eq!(c.validate(), Err(ValidationError::MissingBrowser("edge".to_owned())));
}

#[test]
fn empty_command_template() {
    let mut c = sample();
    c.browsers.push(("lynx".to_owned(), Vec::new()));
    assert_eq!(c.validate(), Err(ValidationError::EmptyCommandTemplate("lynx".to_owned())));
}

#[test]
fn missing_profile_token() {
    let mut c = sample();
    c.browsers[1].1 = strings(&["chrome{profile}", "{url}"]);
    assert_eq!(c.validate(), Err(ValidationError::MissingProfileToken("chrome".to_owned())));
}

#[test]
fn missing_url_token() {
    let mut c = sample();
    c.browsers[0].1 = strings(&["firefox", "-P", "{profile}", "{URL}"]);
    assert_eq!(c.validate(), Err(ValidationError::MissingUrlToken("firefox".to_owned())));
}

#[test]
fn substring_search() {
    assert!(contains_str("--x={profile}", "{profile}"));
    assert!(contains_str("abc", ""));
    assert!(!contains_str("{profil}", "{profile}"));
    assert!(!contains_str("", "a"));
}

#[test]
fn replace_every_occurrence() {
    let template = strings(&["prog", "a{url}b{url}", "none", "é{url}é", "{url}}", "{{url}"]);
    let cmd = build_command(&template, &profile("b", "p"), "ü");
    assert_eq!(cmd, strings(&["prog", "aübü", "none", "éüé", "ü}", "{ü"]));
    let template = strings(&["prog", "{profile}{profile}", "{profil{profile}e}"]);
    let cmd = build_command(&template, &profile("b", "X"), "u");
    assert_eq!(cmd, strings(&["prog", "XX", "{profilXe}"]));
}

#[test]
fn command_line_from_template() {
    let template = strings(&["firefox{url}", "-P", "{profile}", "--url={url}"]);
    let cmd = build_command(&template, &profile("firefox", "Home {url}"), "https://a.com");
    assert_eq!(
        cmd,
        strings(&["firefox{url}", "-P", "Home https://a.com", "--url=https://a.com"])
    );
}

#[test]
fn command_for_matched_and_default() {
    let c = sample();
    assert_eq!(
        c.open_command("https://www.corp.example/x"),
        Some(strings(&["chrome", "--profile-directory=Work", "https://www.corp.example/x"]))
    );
    assert_eq!(
        c.open_command("example.org"),
        Some(strings(&["firefox", "-P", "default", "example.org"]))
    );
}

#[test]
fn command_for_undefined_browser() {
    let mut c = sample();
    c.default = profile("opera", "x");
    assert_eq!(c.open_command("example.org"), None);
    assert!(c.command_template(&"opera".to_owned()).is_none());
    assert_eq!(c.command_template(&"chrome".to_owned()).map(|t| t.len()), Some(3));
}
