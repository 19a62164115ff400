use fawnd::rules::{glob_match, Rule, Rules};

#[test]
fn glob() {
    assert!(glob_match("*", "anything"));
    assert!(glob_match("steam_app_*", "steam_app_730"));
    assert!(glob_match("*.exe", "game.exe"));
    assert!(glob_match("*cs2*", "valve-cs2-client"));
    assert!(glob_match("firefox", "firefox"));
    assert!(!glob_match("firefox", "firefoxx"));
    assert!(!glob_match("steam_app_*", "steam"));
}

#[test]
fn resolves_profile() {
    let rules = Rules {
        default: Some("typing".into()),
        rules: vec![
            Rule {
                pattern: "steam_app_*".into(),
                profile: "gaming".into(),
            },
            Rule {
                pattern: "*.exe".into(),
                profile: "gaming".into(),
            },
        ],
    };
    assert_eq!(rules.profile_for("steam_app_730"), Some("gaming"));
    assert_eq!(rules.profile_for("Game.EXE"), Some("gaming"));
    assert_eq!(rules.profile_for("kitty"), Some("typing"));
}

#[test]
fn no_default_returns_none() {
    let rules = Rules::default();
    assert_eq!(rules.profile_for("anything"), None);
}

#[test]
fn glob_star_matches_empty_text() {
    assert!(glob_match("*", ""));
    assert!(glob_match("", ""));
    assert!(!glob_match("", "x"));
    assert!(!glob_match("a", ""));
}

#[test]
fn glob_prefix_and_suffix_patterns() {
    assert!(glob_match("steam_app_*", "steam_app_"));
    assert!(!glob_match("*.exe", "game.ex"));
    assert!(glob_match("*.exe", ".exe"));
    assert!(glob_match("a*b*c", "aXXbYYc"));
    assert!(!glob_match("a*b*c", "aXXcYYb"));
}

#[test]
fn glob_is_case_sensitive_but_rules_fold_case() {
    assert!(!glob_match("firefox", "Firefox"));
    let rules = Rules {
        default: None,
        rules: vec![Rule {
            pattern: "FireFox".into(),
            profile: "browsing".into(),
        }],
    };
    assert_eq!(rules.profile_for("FIREFOX"), Some("browsing"));
    assert_eq!(rules.profile_for("chromium"), None);
}

#[test]
fn first_matching_rule_wins() {
    let rules = Rules {
        default: Some("typing".into()),
        rules: vec![
            Rule {
                pattern: "*".into(),
                profile: "first".into(),
            },
            Rule {
                pattern: "kitty".into(),
                profile: "second".into(),
            },
        ],
    };
    assert_eq!(rules.profile_for("kitty"), Some("first"));
}

#[test]
fn selects_profile_from_lowercased_patterns() {
    let rules = Rules {
        default: Some("typing".into()),
        rules: vec![
            Rule {
                pattern: "Steam_App_*".into(),
                profile: "gaming".into(),
            },
            Rule {
                pattern: "*.exe".into(),
                profile: "windows".into(),
            },
        ],
    };
    let patterns = vec!["steam_app_*".to_string(), "*.exe".to_string()];
    assert_eq!(rules.select_profile(&patterns, "steam_app_730"), Some("gaming"));
    assert_eq!(rules.select_profile(&patterns, "game.exe"), Some("windows"));
    assert_eq!(rules.select_profile(&patterns, "kitty"), Some("typing"));
    let no_default = Rules {
        default: None,
        rules: rules.rules.clone(),
    };
    assert_eq!(no_default.select_profile(&patterns, "kitty"), None);
}
