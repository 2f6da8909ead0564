use ecow::EcoVec;
use novalyn::config::{RawConfig, ResolvedConfig, DEFAULT_PARALLEL_THRESHOLD};
use novalyn::dispatch::{parse_and_classify, parse_and_classify_parallel};
use novalyn::git::RawCommit;
use novalyn::parse::{parse_and_classify_sequential, ParsedCommit};
use novalyn::resolve::merge_and_resolve_config;

fn config_with(layers: Vec<RawConfig>, threshold: usize) -> ResolvedConfig {
    merge_and_resolve_config(".", layers, EcoVec::new(), None, None, None, threshold)
}

fn default_config() -> ResolvedConfig {
    config_with(Vec::new(), DEFAULT_PARALLEL_THRESHOLD)
}

fn mk(summary: &str) -> RawCommit {
    mk_commit(summary, "")
}

fn mk_commit(summary: &str, body: &str) -> RawCommit {
    RawCommit {
        id: "x".into(),
        short_id: "x".into(),
        summary: summary.into(),
        body: body.into(),
        author_name: "A".into(),
        author_email: "a@b.c".into(),
        timestamp: 0,
    }
}

fn same_commit(a: &ParsedCommit, b: &ParsedCommit) {
    assert_eq!(a.raw.id, b.raw.id);
    assert_eq!(a.raw.summary, b.raw.summary);
    assert_eq!(a.commit_type, b.commit_type);
    assert_eq!(a.scope, b.scope);
    assert_eq!(a.description, b.description);
    assert_eq!(a.body, b.body);
    assert_eq!(a.footers, b.footers);
    assert_eq!(a.breaking, b.breaking);
    assert_eq!(a.issues, b.issues);
    assert_eq!(a.co_authors, b.co_authors);
    assert_eq!(a.type_cfg.is_some(), b.type_cfg.is_some());
    assert_eq!(a.index, b.index);
}

#[test]
fn filters_chore_deps_variants() {
    let cfg = default_config();
    let commits = vec![
        mk("chore(deps): bump"),
        mk("chore(deps-dev): bump dev"),
        mk("chore(other): keep"),
    ];
    let parsed = parse_and_classify(commits.into(), &cfg);
    assert_eq!(parsed.len(), 1, "only chore(other) should remain");
    assert_eq!(parsed[0].raw.summary, "chore(other): keep");
}

#[test]
fn keeps_breaking_chore_deps() {
    let cfg = default_config();
    let commits = vec![mk("chore(deps)!: major bump")];
    let parsed = parse_and_classify(commits.into(), &cfg);
    assert_eq!(parsed.len(), 1);
    assert!(parsed[0].breaking);
}

#[test]
fn chore_deps_filter_reads_the_header_as_written() {
    let cfg = default_config();
    let parsed = parse_and_classify(vec![mk("Chore(DEPS): bump"), mk("chore: deps")].into(), &cfg);
    assert_eq!(parsed.len(), 1);
    assert_eq!(parsed[0].raw.summary, "chore: deps");
    assert_eq!(parsed[0].index, 1);
}

#[test]
fn feat_bang_breaking() {
    let cfg = default_config();
    let commits = parse_and_classify(
        vec![mk("feat!: change api"), mk("feat(core)!: change core")].into(),
        &cfg,
    );
    assert_eq!(commits.len(), 2);
    assert!(commits.iter().all(|c| c.breaking));
    assert!(commits.iter().any(|c| c.scope.as_deref() == Some("core")));
}

#[test]
fn extracts_multiple_issues_grouped_and_body() {
    let cfg = default_config();
    let c = mk_commit(
        "fix(parser): handle edge (#12, #34)",
        "Implements fix refs #56 #78\n\nFooter: note\nBREAKING CHANGE: behaviour changed significantly\n    Additional explanation line\nAnother: value",
    );
    let parsed = parse_and_classify(vec![c].into(), &cfg);
    assert_eq!(parsed[0].issues, vec![12, 34, 56, 78]);
    assert!(parsed[0].breaking, "breaking change detected via footer");
    let breaking_footer = parsed[0]
        .footers
        .iter()
        .find(|(k, _)| k.eq_ignore_ascii_case("BREAKING CHANGE"))
        .unwrap();
    assert!(breaking_footer.1.contains("behaviour changed"));
    assert!(
        breaking_footer.1.contains("Additional explanation line"),
        "expects continuation line captured"
    );
}

#[test]
fn parse_basic() {
    let cfg = default_config();
    let commits = vec![
        mk_commit(
            "feat(parser): add new parser",
            "Body\n\nBREAKING CHANGE: format changed",
        ),
        mk_commit("fix: bug fix", ""),
        mk_commit("chore(deps): update deps", ""),
        mk_commit("refactor!: big refactor", "details"),
        mk_commit(
            "style: tabs",
            "Body part\n\nCo-authored-by: Someone <s@e.com>",
        ),
    ];
    let parsed = parse_and_classify(commits.into(), &cfg);
    assert!(parsed.iter().any(|c| c.commit_type == "feat" && c.breaking));
    assert!(!parsed.iter().any(|c| c.raw.summary.starts_with("chore")));
    assert!(parsed.iter().any(|c| c.commit_type == "refactor" && c.breaking));
    assert!(parsed.iter().any(|c| c.co_authors.len() == 1));
}

#[test]
fn scope_mapping_replacement_and_removal() {
    let mut cli = RawConfig::new();
    cli.scope_map = Some(vec![
        ("core".to_string(), "runtime".to_string()),
        ("temp".to_string(), String::new()),
    ]);
    let cfg = config_with(vec![cli], DEFAULT_PARALLEL_THRESHOLD);
    let commits = vec![
        mk("feat(core): change"),
        mk("fix(temp): fix"),
        mk("docs(other): doc"),
    ];
    let parsed = parse_and_classify(commits.into(), &cfg);
    let mut core_mapped = false;
    let mut temp_removed = false;
    for c in parsed.iter() {
        if c.description.contains("change") {
            assert_eq!(c.scope.as_deref(), Some("runtime"));
            core_mapped = true;
        }
        if c.description.contains("fix") {
            assert!(c.scope.is_none());
            temp_removed = true;
        }
    }
    assert!(core_mapped && temp_removed);
}

fn create_test_commits(count: usize) -> Vec<RawCommit> {
    let mut commits = Vec::new();
    for i in 0..count {
        commits.push(RawCommit {
            id: format!("commit{:03}", i),
            short_id: format!("c{:03}", i),
            summary: format!("feat: feature {}", i),
            body: String::new(),
            author_name: "Test Author".to_string(),
            author_email: "test@example.com".to_string(),
            timestamp: 1704110400,
        });
    }
    commits
}

#[test]
fn parallel_vs_sequential_identical_output() {
    let commits = create_test_commits(100);

    let sequential_cfg = config_with(Vec::new(), 1000);
    let sequential_result = parse_and_classify(commits.clone().into(), &sequential_cfg);

    let parallel_cfg = config_with(Vec::new(), 50);
    let parallel_result = parse_and_classify(commits.into(), &parallel_cfg);

    assert_eq!(sequential_result.len(), parallel_result.len());
    for (seq, par) in sequential_result.iter().zip(parallel_result.iter()) {
        assert_eq!(seq.index, par.index);
        assert_eq!(seq.raw.id, par.raw.id);
        assert_eq!(seq.commit_type, par.commit_type);
    }
}

#[test]
fn parallel_threshold_respected() {
    let cfg = config_with(Vec::new(), 200);
    let commits = create_test_commits(10);
    let result = parse_and_classify(commits.into(), &cfg);
    assert!(result.len() <= 10);
}

fn mixed_batch(count: usize) -> Vec<RawCommit> {
    let mut commits = Vec::new();
    for i in 0..count {
        let (summary, body) = match i % 7 {
            0 => (format!("feat(core): feature {} (#{})", i, i), String::new()),
            1 => (format!("fix: bug {}", i), format!("Fixes #{}\n\nRefs: #{}", i, i + 1)),
            2 => (format!("chore(deps): bump {}", i), String::new()),
            3 => (format!("refactor!: rework {}", i), "details".to_string()),
            4 => (format!("docs: page {}", i), "Text\n\nCo-authored-by: B <b@x.y>".to_string()),
            5 => (format!("no type here {}", i), String::new()),
            _ => (format!("chore(deps)!: major {}", i), "BREAKING CHANGE: yes".to_string()),
        };
        commits.push(RawCommit {
            id: format!("commit{:03}", i),
            short_id: format!("c{:03}", i),
            summary,
            body,
            author_name: "Test Author".to_string(),
            author_email: "test@example.com".to_string(),
            timestamp: 1704110400 + i as i64,
        });
    }
    commits
}

#[test]
fn five_hundred_commits_agree_on_both_paths() {
    let commits = mixed_batch(500);
    let sequential = parse_and_classify(commits.clone().into(), &config_with(Vec::new(), 501));
    let parallel = parse_and_classify(commits.into(), &config_with(Vec::new(), 499));
    assert_eq!(sequential.len(), parallel.len());
    assert_eq!(sequential.len(), 500 - 72);
    for (a, b) in sequential.iter().zip(parallel.iter()) {
        same_commit(a, b);
    }
    for pair in parallel.windows(2) {
        assert!(pair[0].index < pair[1].index);
    }
}

#[test]
fn both_paths_agree_around_the_threshold() {
    let cfg = default_config();
    for size in [0usize, 1, 2, 49, 50, 51] {
        let commits = mixed_batch(size);
        let sequential = parse_and_classify_sequential(&commits, &cfg);
        let parallel = parse_and_classify_parallel(&commits, &cfg);
        let dispatched = parse_and_classify(commits.into(), &cfg);
        assert_eq!(sequential.len(), parallel.len());
        assert_eq!(sequential.len(), dispatched.len());
        for ((a, b), c) in sequential.iter().zip(parallel.iter()).zip(dispatched.iter()) {
            same_commit(a, b);
            same_commit(a, c);
        }
    }
}

#[test]
fn parallel_path_restores_the_order_of_the_batch() {
    let cfg = default_config();
    let commits = mixed_batch(300);
    let parallel = parse_and_classify_parallel(&commits, &cfg);
    for p in parallel.iter() {
        assert_eq!(p.raw.id, format!("commit{:03}", p.index));
    }
    let places: Vec<usize> = parallel.iter().map(|p| p.index).collect();
    let mut sorted = places.clone();
    sorted.sort();
    assert_eq!(places, sorted);
}

fn determinism_commits() -> Vec<RawCommit> {
    vec![
        RawCommit {
            id: "abc123".to_string(),
            short_id: "abc123".to_string(),
            summary: "feat: add new feature".to_string(),
            body: "This adds a new feature\n\nCloses #123".to_string(),
            author_name: "Alice".to_string(),
            author_email: "alice@example.com".to_string(),
            timestamp: 1704110400,
        },
        RawCommit {
            id: "def456".to_string(),
            short_id: "def456".to_string(),
            summary: "fix: resolve bug".to_string(),
            body: String::new(),
            author_name: "Bob".to_string(),
            author_email: "bob@example.com".to_string(),
            timestamp: 1704110500,
        },
        RawCommit {
            id: "ghi789".to_string(),
            short_id: "ghi789".to_string(),
            summary: "feat!: breaking change".to_string(),
            body: "BREAKING CHANGE: This breaks API".to_string(),
            author_name: "Charlie".to_string(),
            author_email: "charlie@example.com".to_string(),
            timestamp: 1704110600,
        },
    ]
}

#[test]
fn repeated_parse_identical() {
    let cfg = default_config();
    let commits = determinism_commits();

    let result1 = parse_and_classify(commits.clone().into(), &cfg);
    let result2 = parse_and_classify(commits.clone().into(), &cfg);
    let result3 = parse_and_classify(commits.into(), &cfg);

    assert_eq!(result1.len(), result2.len());
    assert_eq!(result1.len(), result3.len());

    for ((r1, r2), r3) in result1.iter().zip(result2.iter()).zip(result3.iter()) {
        assert_eq!(r1.raw.id, r2.raw.id);
        assert_eq!(r1.raw.id, r3.raw.id);
        assert_eq!(r1.commit_type, r2.commit_type);
        assert_eq!(r1.commit_type, r3.commit_type);
        assert_eq!(r1.scope, r2.scope);
        assert_eq!(r1.scope, r3.scope);
        assert_eq!(r1.description, r2.description);
        assert_eq!(r1.description, r3.description);
        assert_eq!(r1.breaking, r2.breaking);
        assert_eq!(r1.breaking, r3.breaking);
        assert_eq!(r1.index, r2.index);
        assert_eq!(r1.index, r3.index);
    }
}

#[test]
fn disabled_type_is_not_attached_but_kept() {
    let mut layer = RawConfig::new();
    layer.types_override = Some(vec![(
        "docs".to_string(),
        novalyn::config::TypeToggleOrConfig::Disabled(false),
    )]);
    let cfg = config_with(vec![layer], DEFAULT_PARALLEL_THRESHOLD);
    let parsed = parse_and_classify(vec![mk("docs: page"), mk("feat: x")].into(), &cfg);
    assert_eq!(parsed.len(), 2);
    assert!(parsed[0].type_cfg.is_none());
    assert_eq!(parsed[1].type_cfg.as_ref().unwrap().key, "feat");
}

#[test]
fn unknown_type_is_kept_without_entry() {
    let cfg = default_config();
    let parsed = parse_and_classify(vec![mk("wip: something"), mk("just text")].into(), &cfg);
    assert_eq!(parsed.len(), 2);
    assert_eq!(parsed[0].commit_type, "wip");
    assert!(parsed[0].type_cfg.is_none());
    assert_eq!(parsed[1].commit_type, "just");
    assert_eq!(parsed[1].description, "text");
}

fn placed(index: usize, id: &str) -> ParsedCommit {
    ParsedCommit {
        raw: RawCommit {
            id: id.into(),
            short_id: id.into(),
            summary: "feat: x".into(),
            body: String::new(),
            author_name: "A".into(),
            author_email: "a@b.c".into(),
            timestamp: 0,
        },
        commit_type: "feat".into(),
        scope: None,
        description: "x".into(),
        body: String::new(),
        footers: EcoVec::new(),
        breaking: false,
        issues: EcoVec::new(),
        co_authors: EcoVec::new(),
        type_cfg: None,
        index,
    }
}

#[test]
fn order_of_places_is_restored() {
    let mut found = vec![
        placed(5, "e"),
        placed(2, "b1"),
        placed(9, "f"),
        placed(0, "a"),
        placed(2, "b2"),
        placed(3, "c"),
    ];
    novalyn::dispatch::restore_order(&mut found);
    let got: Vec<(usize, &str)> = found.iter().map(|c| (c.index, c.raw.id.as_str())).collect();
    assert_eq!(got, vec![(0, "a"), (2, "b1"), (2, "b2"), (3, "c"), (5, "e"), (9, "f")]);
    let mut none: Vec<ParsedCommit> = Vec::new();
    novalyn::dispatch::restore_order(&mut none);
    assert!(none.is_empty());
}
