use novalyn::config::{
    default_types, RawConfig, ResolvedConfig, SemverImpact, TextMap, TypeConfigPartial,
    TypeConfigResolved, TypeToggleOrConfig, DEFAULT_PARALLEL_THRESHOLD,
};
use novalyn::repository::Provider;
use novalyn::resolve::{merge_and_resolve_config, resolve_github_token};
use novalyn::version::Version;

fn merged(layers: Vec<RawConfig>) -> ResolvedConfig {
    merge_and_resolve_config(
        ".",
        layers,
        ecow::EcoVec::new(),
        None,
        None,
        None,
        DEFAULT_PARALLEL_THRESHOLD,
    )
}

#[test]
fn test_default_types_complete() {
    let types = default_types();

    let type_keys: Vec<_> = types.iter().map(|t| t.key.as_str()).collect();
    assert!(type_keys.contains(&"feat"));
    assert!(type_keys.contains(&"fix"));
    assert!(type_keys.contains(&"docs"));
    assert!(type_keys.contains(&"style"));
    assert!(type_keys.contains(&"refactor"));
    assert!(type_keys.contains(&"perf"));
    assert!(type_keys.contains(&"test"));
    assert!(type_keys.contains(&"build"));
    assert!(type_keys.contains(&"ci"));
    assert!(type_keys.contains(&"chore"));

    let feat = types.iter().find(|t| t.key == "feat").unwrap();
    assert_eq!(feat.semver, SemverImpact::Minor);

    let fix = types.iter().find(|t| t.key == "fix").unwrap();
    assert_eq!(fix.semver, SemverImpact::Patch);

    let docs = types.iter().find(|t| t.key == "docs").unwrap();
    assert_eq!(docs.semver, SemverImpact::Unchanged);
}

#[test]
fn default_types_order_consistent() {
    let types = default_types();

    assert!(types.len() >= 11);

    assert_eq!(types[0].key.as_str(), "feat");
    assert_eq!(types[1].key.as_str(), "fix");
    assert_eq!(types[2].key.as_str(), "perf");
}

#[test]
fn default_types_have_all_fields() {
    let types = default_types();

    for t in &types {
        assert!(!t.key.is_empty(), "Type key should not be empty");
        assert!(!t.title.is_empty(), "Type title should not be empty");
        assert!(!t.emoji.is_empty(), "Type emoji should not be empty");
        assert!(t.enabled, "Default types should be enabled");
    }
}

#[test]
fn default_types_keys_unique() {
    let types = default_types();
    let mut seen = std::collections::HashSet::new();

    for t in &types {
        assert!(seen.insert(t.key.clone()), "Duplicate key: {}", t.key);
    }
}

#[test]
fn default_types_semver_sensible() {
    let types = default_types();

    let feat = types.iter().find(|t| t.key.as_str() == "feat").unwrap();
    assert_eq!(feat.semver, SemverImpact::Minor);

    let fix = types.iter().find(|t| t.key.as_str() == "fix").unwrap();
    assert_eq!(fix.semver, SemverImpact::Patch);

    let docs = types.iter().find(|t| t.key.as_str() == "docs").unwrap();
    assert_eq!(docs.semver, SemverImpact::Unchanged);
}

#[test]
fn default_types_naming_conventions() {
    let types = default_types();

    for t in &types {
        assert!(
            t.key.chars().all(|c| c.is_ascii_lowercase()),
            "Key should be lowercase: {}",
            t.key
        );

        assert!(
            t.title.chars().next().unwrap().is_ascii_uppercase(),
            "Title should start with uppercase: {}",
            t.title
        );
    }
}

#[test]
fn test_semver_impact_ordering() {
    let impacts = [
        SemverImpact::Unchanged,
        SemverImpact::Patch,
        SemverImpact::Minor,
        SemverImpact::Major,
    ];

    for i in 0..impacts.len() {
        for j in 0..impacts.len() {
            if i == j {
                assert_eq!(impacts[i], impacts[j]);
            } else {
                assert_ne!(impacts[i], impacts[j]);
            }
        }
    }
}

#[test]
fn test_default_types_completeness() {
    let types = default_types();
    let expected = [
        "feat", "fix", "perf", "docs", "refactor", "style", "test", "build", "ci", "chore",
        "revert",
    ];

    for expected_key in &expected {
        assert!(
            types.iter().any(|t| t.key.as_str() == *expected_key),
            "Missing expected type: {}",
            expected_key
        );
    }
}

#[test]
fn test_semver_impact_from_str() {
    assert_eq!(SemverImpact::from_str("major"), Some(SemverImpact::Major));
    assert_eq!(SemverImpact::from_str("minor"), Some(SemverImpact::Minor));
    assert_eq!(SemverImpact::from_str("patch"), Some(SemverImpact::Patch));
    assert_eq!(SemverImpact::from_str("none"), Some(SemverImpact::Unchanged));

    assert_eq!(SemverImpact::from_str("Major"), None);
    assert_eq!(SemverImpact::from_str("MAJOR"), None);
    assert_eq!(SemverImpact::from_str(""), None);
    assert_eq!(SemverImpact::from_str("invalid"), None);
}

#[test]
fn test_type_config_enabled_flag() {
    let enabled = TypeConfigResolved {
        key: "test".into(),
        title: "Test".into(),
        emoji: "\u{1F9EA}".into(),
        semver: SemverImpact::Unchanged,
        enabled: true,
    };
    assert!(enabled.enabled);

    let disabled = TypeConfigResolved {
        key: "test".into(),
        title: "Test".into(),
        emoji: "\u{1F9EA}".into(),
        semver: SemverImpact::Unchanged,
        enabled: false,
    };
    assert!(!disabled.enabled);
}

#[test]
fn default_config_snapshot() {
    let cfg = merged(Vec::new());
    let got: Vec<(String, String, String, String, bool)> = cfg
        .types
        .iter()
        .map(|t| {
            (
                t.key.clone(),
                t.title.clone(),
                t.emoji.clone(),
                format!("{:?}", t.semver),
                t.enabled,
            )
        })
        .collect();
    let want = [
        ("feat", "Features", "\u{2728}", "Minor"),
        ("fix", "Bug Fixes", "\u{1F41E}", "Patch"),
        ("perf", "Performance", "\u{26A1}\u{FE0F}", "Patch"),
        ("docs", "Documentation", "\u{1F4DA}", "Unchanged"),
        ("refactor", "Refactors", "\u{1F6E0}", "Patch"),
        ("style", "Styles", "\u{1F3A8}", "Unchanged"),
        ("test", "Tests", "\u{1F9EA}", "Unchanged"),
        ("build", "Build System", "\u{1F4E6}", "Unchanged"),
        ("ci", "Continuous Integration", "\u{1F477}", "Unchanged"),
        ("chore", "Chores", "\u{1F9F9}", "Unchanged"),
        ("revert", "Reverts", "\u{23EA}", "Patch"),
    ];
    assert_eq!(got.len(), want.len());
    for (g, w) in got.iter().zip(want.iter()) {
        assert_eq!((g.0.as_str(), g.1.as_str(), g.2.as_str(), g.3.as_str(), g.4), (w.0, w.1, w.2, w.3, true));
    }
    assert!(cfg.warnings.is_empty());
    assert!(cfg.scope_map.is_empty());
    assert!(cfg.new_version.is_none());
    assert!(cfg.repo.is_none());
    assert_eq!(cfg.parallel_threshold, 50);
}

fn layer_with_types(entries: Vec<(&str, TypeToggleOrConfig)>) -> RawConfig {
    let mut layer = RawConfig::new();
    layer.types_override =
        Some(entries.into_iter().map(|(k, v)| (k.to_string(), v)).collect());
    layer
}

fn partial(title: Option<&str>, emoji: Option<&str>, semver: Option<&str>) -> TypeToggleOrConfig {
    TypeToggleOrConfig::Config(TypeConfigPartial {
        title: title.map(|s| s.to_string()),
        emoji: emoji.map(|s| s.to_string()),
        semver: semver.map(|s| s.to_string()),
    })
}

#[test]
fn layers_disable_enable_and_add_types() {
    let file = layer_with_types(vec![
        ("chore", TypeToggleOrConfig::Disabled(false)),
        ("feat", TypeToggleOrConfig::Disabled(true)),
        ("deps", TypeToggleOrConfig::Disabled(false)),
        ("fix", partial(Some("Fixes"), None, Some("minor"))),
        ("security", partial(None, Some("!"), Some("major"))),
        ("perf", partial(None, None, Some("bogus"))),
    ]);
    let cli = layer_with_types(vec![
        ("chore", partial(None, None, None)),
        ("deps", partial(Some("Dependencies"), None, None)),
    ]);
    let cfg = merged(vec![file, cli]);
    let find = |k: &str| cfg.types.iter().find(|t| t.key == k).unwrap();
    assert_eq!(cfg.types.len(), 13);
    assert_eq!(cfg.types[11].key, "deps");
    assert_eq!(cfg.types[12].key, "security");
    assert!(find("feat").enabled);
    let chore = find("chore");
    assert!(chore.enabled);
    assert_eq!(chore.title, "Chores");
    assert_eq!(chore.semver, SemverImpact::Unchanged);
    let deps = find("deps");
    assert!(deps.enabled);
    assert_eq!(deps.title, "Dependencies");
    assert_eq!(deps.emoji, "");
    assert_eq!(deps.semver, SemverImpact::Unchanged);
    let fix = find("fix");
    assert_eq!(fix.title, "Fixes");
    assert_eq!(fix.emoji, "\u{1F41E}");
    assert_eq!(fix.semver, SemverImpact::Minor);
    let security = find("security");
    assert_eq!(security.title, "security");
    assert_eq!(security.emoji, "!");
    assert_eq!(security.semver, SemverImpact::Major);
    assert_eq!(find("perf").semver, SemverImpact::Patch);
}

#[test]
fn later_layers_win_for_version_and_scopes() {
    let mut file = RawConfig::new();
    file.new_version = Some("1.2.3".to_string());
    file.scope_map = Some(vec![
        ("a".to_string(), "x".to_string()),
        ("b".to_string(), "y".to_string()),
    ]);
    file.unknown = vec!["colour".to_string()];
    let mut cli = RawConfig::new();
    cli.new_version = Some("not-a-version".to_string());
    cli.scope_map = Some(vec![("a".to_string(), "z".to_string())]);
    cli.unknown = vec!["size".to_string(), "shape".to_string()];
    let cfg = merge_and_resolve_config(
        "/work",
        vec![file, cli],
        vec!["Failed loading novalyn.toml: nope".to_string()].into(),
        Some("/work/novalyn.toml".to_string()),
        Some("token".to_string()),
        Some("weird remote".to_string()),
        7,
    );
    assert_eq!(cfg.new_version, Some(Version::new(1, 2, 3)));
    assert_eq!(cfg.scope_map.get("a").map(|s| s.as_str()), Some("z"));
    assert_eq!(cfg.scope_map.get("b").map(|s| s.as_str()), Some("y"));
    assert_eq!(cfg.scope_map.get("c"), None);
    assert_eq!(cfg.scope_map.len(), 2);
    assert_eq!(cfg.cwd, "/work");
    assert_eq!(cfg.source_file.as_deref(), Some("/work/novalyn.toml"));
    assert_eq!(cfg.github_token.as_deref(), Some("token"));
    assert_eq!(cfg.parallel_threshold, 7);
    assert!(cfg.repo.is_none());
    assert_eq!(cfg.warnings.len(), 6);
    assert_eq!(cfg.warnings[0], "Failed loading novalyn.toml: nope");
    assert!(cfg.warnings[1].starts_with("Invalid new_version 'not-a-version': "));
    assert_eq!(cfg.warnings[2], "Unknown config key: colour");
    assert_eq!(cfg.warnings[3], "Unknown config key: size");
    assert_eq!(cfg.warnings[4], "Unknown config key: shape");
    assert_eq!(cfg.warnings[5], "Unrecognized remote URL format: weird remote");
}

#[test]
fn remote_is_read_into_the_repository() {
    let cfg = merge_and_resolve_config(
        ".",
        Vec::new(),
        ecow::EcoVec::new(),
        None,
        None,
        Some("git@github.com:owner/repo.git".to_string()),
        50,
    );
    let repo = cfg.repo.unwrap();
    assert_eq!(repo.provider, Provider::GitHub);
    assert_eq!(repo.owner, "owner");
    assert!(cfg.warnings.is_empty());
}

#[test]
fn first_token_that_is_set_wins() {
    let some = |s: &str| Some(s.to_string());
    assert_eq!(resolve_github_token(&vec![None, some("b"), some("c")]), some("b"));
    assert_eq!(resolve_github_token(&vec![some(""), None, some("c")]), some("c"));
    assert_eq!(resolve_github_token(&vec![some("a"), some("b")]), some("a"));
    assert_eq!(resolve_github_token(&vec![some(""), None]), None);
    assert_eq!(resolve_github_token(&Vec::new()), None);
}

#[test]
fn text_map_holds_the_last_word_for_a_key() {
    let mut map = TextMap::new();
    assert!(map.is_empty());
    map.insert("a", "1");
    map.insert("b", "2");
    map.insert("a", "3");
    assert_eq!(map.len(), 2);
    assert_eq!(map.get("a").map(|s| s.as_str()), Some("3"));
    assert_eq!(map.get("b").map(|s| s.as_str()), Some("2"));
    assert_eq!(map.get(""), None);
    let empty: TextMap = Default::default();
    assert_eq!(empty.len(), 0);
}
