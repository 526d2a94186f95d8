use halo::apps::{find_desktop_entry_in_list, AppInfo, AppName, AppQuery, ExecCommand, IconName};
use halo::matching::{best_match, component_matches, match_score};
use halo::text::{contains_ignore_case, eq_ignore_case};

fn entry(name: &str, class: &str) -> AppInfo {
    AppInfo {
        name: name.to_string(),
        icon: String::new(),
        class: class.to_string(),
        command: format!("run {}", name),
    }
}

#[test]
fn test_eq_ignore_case() {
    assert!(eq_ignore_case("Firefox", "fIREFOX"));
    assert!(eq_ignore_case("", ""));
    assert!(!eq_ignore_case("firefox", "firefoxx"));
    assert!(!eq_ignore_case("a", "b"));
}

#[test]
fn test_contains_ignore_case() {
    assert!(contains_ignore_case("org.Mozilla.Firefox", "MOZILLA"));
    assert!(contains_ignore_case("abc", ""));
    assert!(!contains_ignore_case("abc", "abcd"));
    assert!(!contains_ignore_case("abc", "x"));
}

#[test]
fn test_component_matches() {
    assert!(component_matches("org.mozilla.Firefox", "firefox"));
    assert!(component_matches("org.mozilla.Firefox", "ORG"));
    assert!(!component_matches("org.mozilla.Firefox", "mozilla.firefox"));
    assert!(!component_matches("org.mozilla.Firefox", "fire"));
    assert!(component_matches("plain", "plain"));
}

#[test]
fn test_match_score_levels() {
    // Exact beats component beats substring beats nothing.
    assert_eq!(match_score("firefox", "Firefox"), 3);
    assert_eq!(match_score("firefox", "org.mozilla.firefox"), 2);
    assert_eq!(match_score("firefox", "firefox-esr"), 1);
    // Substring in the other direction also counts as fuzzy.
    assert_eq!(match_score("firefox-esr", "firefox"), 1);
    assert_eq!(match_score("firefox", "chromium"), 0);
}

#[test]
fn test_best_match_picks_highest_then_last() {
    let classes =
        vec!["firefox-esr".to_string(), "org.mozilla.firefox".to_string(), "qterminal".to_string()];
    // The component match outranks the substring match.
    assert_eq!(best_match("firefox", &classes), Some(1));
    // On a tie in score, the last window wins.
    let tie = vec!["Firefox".to_string(), "qterminal".to_string(), "FIREFOX".to_string()];
    assert_eq!(best_match("firefox", &tie), Some(2));
}

#[test]
fn test_best_match_none_when_nothing_matches() {
    let classes = vec!["alpha".to_string(), "beta".to_string()];
    assert_eq!(best_match("gamma", &classes), None);
    assert_eq!(best_match("x", &Vec::new()), None);
}

#[test]
fn test_find_desktop_entry_in_list() {
    let entries = vec![
        entry("Files", "org.gnome.Nautilus"),
        entry("Firefox", "firefox"),
        entry("Terminal", "kitty"),
        entry("Browser", "FIREFOX"),
    ];
    // Matches by name, ignoring case; the first match wins.
    assert_eq!(find_desktop_entry_in_list(&AppQuery::new("FIREFOX".to_string()), &entries), Some(1));
    // Matches by window class too.
    assert_eq!(find_desktop_entry_in_list(&AppQuery::new("kitty".to_string()), &entries), Some(2));
    assert_eq!(find_desktop_entry_in_list(&AppQuery::new("gimp".to_string()), &entries), None);
}

#[test]
fn test_app_info_resolution_fallbacks() {
    let q = AppQuery::new("Slack".to_string());
    // No desktop entry: the query names everything, the command stays empty.
    let bare = AppInfo::new(&q, None, None, None, "icon-from-lookup".to_string());
    assert_eq!(bare.name, "Slack");
    assert_eq!(bare.class, "Slack");
    assert_eq!(bare.icon, "icon-from-lookup");
    assert_eq!(bare.command, "");

    // A resolved entry supplies the fields; explicit overrides still win.
    let base = entry("Slack", "slack-desktop");
    let resolved = AppInfo::new(
        &q,
        Some("custom-class".to_string()),
        None,
        Some(base),
        String::new(),
    );
    assert_eq!(resolved.name, "Slack");
    assert_eq!(resolved.class, "custom-class");
    assert_eq!(resolved.command, "run Slack");
}

#[test]
fn test_newtype_constructors() {
    assert_eq!(AppName::new("a".to_string()).0, "a");
    assert_eq!(ExecCommand::new("b".to_string()).0, "b");
    assert_eq!(AppQuery::new("c".to_string()).0, "c");
    assert_eq!(IconName::new("d".to_string()).0, "d");
}
