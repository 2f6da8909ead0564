use novalyn::authors::{parse_co_author_line, Author, AuthorOptions, Authors};
use novalyn::config::{ResolvedConfig, TextMap, DEFAULT_PARALLEL_THRESHOLD};
use novalyn::dispatch::parse_and_classify;
use novalyn::git::RawCommit;
use novalyn::parse::ParsedCommit;
use novalyn::resolve::merge_and_resolve_config;

fn default_config() -> ResolvedConfig {
    merge_and_resolve_config(
        ".",
        Vec::new(),
        ecow::EcoVec::new(),
        None,
        None,
        None,
        DEFAULT_PARALLEL_THRESHOLD,
    )
}

fn mk_parsed(name: &str, email: &str, co: &[&str]) -> ParsedCommit {
    ParsedCommit {
        raw: RawCommit {
            id: "1".into(),
            short_id: "1".into(),
            summary: "feat: something".into(),
            body: String::new(),
            author_name: name.into(),
            author_email: email.into(),
            timestamp: 0,
        },
        commit_type: "feat".into(),
        scope: None,
        description: "something".into(),
        body: String::new(),
        footers: vec![].into(),
        breaking: false,
        issues: vec![].into(),
        co_authors: co.iter().map(|s| s.to_string()).collect(),
        type_cfg: None,
        index: 0,
    }
}

fn mk_commit(name: &str, email: &str, co_authors: &[&str]) -> RawCommit {
    let mut body = String::new();
    for co in co_authors {
        body.push_str(&format!("Co-authored-by: {}\n", co));
    }
    RawCommit {
        id: "x".into(),
        short_id: "x".into(),
        summary: "feat: test".into(),
        body,
        author_name: name.into(),
        author_email: email.into(),
        timestamp: 0,
    }
}

#[test]
fn collects_and_dedups() {
    let commits = vec![
        mk_parsed("Alice", "alice@example.com", &[]),
        mk_parsed("Bob", "bob@example.com", &[]),
        mk_parsed("Alice", "alice@example.com", &[]),
    ];
    let a = Authors::collect(&commits, &AuthorOptions::default());
    assert_eq!(a.list.len(), 2);
}

#[test]
fn co_authors_parsed() {
    let commits = vec![mk_parsed(
        "Alice",
        "alice@example.com",
        &["Charlie <charlie@x.com>"],
    )];
    let a = Authors::collect(&commits, &AuthorOptions::default());
    assert_eq!(a.list.len(), 2);
}

#[test]
fn exclusion_and_hide_email() {
    let commits = vec![mk_parsed("\u{c5}lice", "alice@example.com", &[])];
    let a = Authors::collect(
        &commits,
        &AuthorOptions {
            exclude: vec!["\u{c5}lice".to_string()].into(),
            ..Default::default()
        },
    );
    assert!(a.list.is_empty());
    let commits = vec![mk_parsed("Dana", "dana@example.com", &[])];
    let a2 = Authors::collect(
        &commits,
        &AuthorOptions {
            hide_author_email: true,
            ..Default::default()
        },
    );
    assert_eq!(a2.list[0].email, None);
}

#[test]
fn author_aliasing() {
    let mut aliases = TextMap::new();
    aliases.insert("old@example.com", "new@example.com");
    aliases.insert("OldName", "NewName");

    let commits = vec![
        mk_parsed("OldName", "old@example.com", &[]),
        mk_parsed("NewName", "new@example.com", &[]),
    ];

    let a = Authors::collect(
        &commits,
        &AuthorOptions {
            aliases,
            ..Default::default()
        },
    );

    assert_eq!(a.list.len(), 1);
    assert_eq!(a.list[0].name, "NewName");
    assert_eq!(a.list[0].email, Some("new@example.com".to_string()));
}

#[test]
fn test_author_collection_basic() {
    let cfg = default_config();
    let commits = vec![
        mk_commit("Alice", "alice@example.com", &[]),
        mk_commit("Bob", "bob@example.com", &[]),
    ];
    let parsed = parse_and_classify(commits.into(), &cfg);

    let opts = AuthorOptions::default();
    let authors = Authors::collect(&parsed, &opts);

    assert_eq!(authors.list.len(), 2);
    assert!(!authors.suppressed);
}

#[test]
fn test_author_deduplication() {
    let cfg = default_config();
    let commits = vec![
        mk_commit("Alice", "alice@example.com", &[]),
        mk_commit("Alice", "alice@example.com", &[]),
        mk_commit("Bob", "bob@example.com", &[]),
    ];
    let parsed = parse_and_classify(commits.into(), &cfg);

    let opts = AuthorOptions::default();
    let authors = Authors::collect(&parsed, &opts);

    assert_eq!(authors.list.len(), 2);
}

#[test]
fn test_author_exclusion_by_name() {
    let cfg = default_config();
    let commits = vec![
        mk_commit("Alice", "alice@example.com", &[]),
        mk_commit("Bot", "bot@example.com", &[]),
    ];
    let parsed = parse_and_classify(commits.into(), &cfg);

    let mut opts = AuthorOptions::default();
    opts.exclude = vec!["Bot".to_string()].into();
    let authors = Authors::collect(&parsed, &opts);

    assert_eq!(authors.list.len(), 1);
    assert_eq!(authors.list[0].name.as_str(), "Alice");
}

#[test]
fn test_author_exclusion_by_email() {
    let cfg = default_config();
    let commits = vec![
        mk_commit("Alice", "alice@example.com", &[]),
        mk_commit("Bot", "bot@example.com", &[]),
    ];
    let parsed = parse_and_classify(commits.into(), &cfg);

    let mut opts = AuthorOptions::default();
    opts.exclude = vec!["bot@example.com".to_string()].into();
    let authors = Authors::collect(&parsed, &opts);

    assert_eq!(authors.list.len(), 1);
    assert_eq!(authors.list[0].name.as_str(), "Alice");
}

#[test]
fn test_hide_author_email() {
    let cfg = default_config();
    let commits = vec![mk_commit("Alice", "alice@example.com", &[])];
    let parsed = parse_and_classify(commits.into(), &cfg);

    let mut opts = AuthorOptions::default();
    opts.hide_author_email = true;
    let authors = Authors::collect(&parsed, &opts);

    assert_eq!(authors.list.len(), 1);
    assert!(authors.list[0].email.is_none());
}

#[test]
fn test_no_authors_suppression() {
    let cfg = default_config();
    let commits = vec![mk_commit("Alice", "alice@example.com", &[])];
    let parsed = parse_and_classify(commits.into(), &cfg);

    let mut opts = AuthorOptions::default();
    opts.no_authors = true;
    let authors = Authors::collect(&parsed, &opts);

    assert!(authors.list.is_empty());
    assert!(authors.suppressed);
}

#[test]
fn test_co_authors_parsing() {
    let cfg = default_config();
    let commits = vec![mk_commit(
        "Alice",
        "alice@example.com",
        &["Charlie <charlie@example.com>"],
    )];
    let parsed = parse_and_classify(commits.into(), &cfg);

    let opts = AuthorOptions::default();
    let authors = Authors::collect(&parsed, &opts);

    assert!(!authors.list.is_empty());
}

#[test]
fn test_author_aliasing() {
    let cfg = default_config();
    let commits = vec![
        mk_commit("Alice", "alice@example.com", &[]),
        mk_commit("Alice Smith", "alice@example.com", &[]),
    ];
    let parsed = parse_and_classify(commits.into(), &cfg);

    let mut opts = AuthorOptions::default();
    opts.aliases.insert("Alice Smith", "Alice");
    let authors = Authors::collect(&parsed, &opts);

    assert_eq!(authors.list.len(), 1);
    assert_eq!(authors.list[0].name.as_str(), "Alice");
}

#[test]
fn test_unicode_normalization() {
    let cfg = default_config();
    let commits = vec![
        mk_commit("Jos\u{e9}", "jose@example.com", &[]),
        mk_commit("Jose\u{301}", "jose@example.com", &[]),
    ];
    let parsed = parse_and_classify(commits.into(), &cfg);

    let opts = AuthorOptions::default();
    let authors = Authors::collect(&parsed, &opts);

    assert_eq!(authors.list.len(), 1);
    assert_eq!(authors.list[0].name, "Jos\u{e9}");
}

#[test]
fn test_empty_email_handling() {
    let cfg = default_config();
    let commits = vec![mk_commit("Alice", "", &[])];
    let parsed = parse_and_classify(commits.into(), &cfg);

    let opts = AuthorOptions::default();
    let authors = Authors::collect(&parsed, &opts);

    assert_eq!(authors.list.len(), 1);
    assert!(authors.list[0].email.is_none());
}

#[test]
fn test_resolve_github_handles_structure() {
    let authors = Authors {
        list: vec![Author {
            name: "Alice".to_string(),
            email: Some("alice@example.com".to_string()),
        }]
        .into(),
        suppressed: false,
    };

    assert_eq!(authors.list.len(), 1);
    assert!(!authors.suppressed);
}

#[test]
fn test_author_options_default() {
    let opts = AuthorOptions::default();
    assert!(opts.exclude.is_empty());
    assert!(!opts.hide_author_email);
    assert!(!opts.no_authors);
    assert!(opts.aliases.is_empty());
    assert!(opts.github_token.is_none());
    assert!(!opts.enable_github_aliasing);
}

#[test]
fn co_author_line_is_split_at_the_last_brackets() {
    assert_eq!(
        parse_co_author_line("  Jane Doe <jane@example.com>  "),
        Some(("Jane Doe".to_string(), "jane@example.com".to_string()))
    );
    assert_eq!(
        parse_co_author_line("A <b> C <d@e>"),
        Some(("A <b> C".to_string(), "d@e".to_string()))
    );
    assert_eq!(parse_co_author_line("<>"), Some((String::new(), String::new())));
    assert_eq!(parse_co_author_line("no brackets"), None);
    assert_eq!(parse_co_author_line("wrong > order <"), None);
    assert_eq!(parse_co_author_line(""), None);
}

#[test]
fn authors_come_in_the_order_of_first_appearance() {
    let commits = vec![
        mk_parsed(" Bob ", "bob@x.y", &["Carol <carol@x.y>", "Bob <bob@x.y>", "broken line"]),
        mk_parsed("Alice", " ", &["Carol <other@x.y>"]),
        mk_parsed("Bob", "bob@x.y", &[]),
    ];
    let a = Authors::collect(&commits, &AuthorOptions::default());
    let got: Vec<(&str, Option<&str>)> =
        a.list.iter().map(|x| (x.name.as_str(), x.email.as_deref())).collect();
    assert_eq!(
        got,
        vec![
            ("Bob", Some("bob@x.y")),
            ("Carol", Some("carol@x.y")),
            ("Alice", None),
            ("Carol", Some("other@x.y")),
        ]
    );
}

#[test]
fn handles_replace_the_names_they_were_found_for() {
    let mut authors = Authors {
        list: vec![
            Author { name: "Alice".into(), email: Some("a@x.y".into()) },
            Author { name: "Bob".into(), email: None },
            Author { name: "Carol".into(), email: Some("c@x.y".into()) },
        ]
        .into(),
        suppressed: false,
    };
    assert_eq!(
        authors.emails_to_resolve(),
        vec![(0, "a@x.y".to_string()), (2, "c@x.y".to_string())]
    );
    authors.apply_handles(&vec![(0, None), (2, Some("@carol".to_string())), (9, Some("@nobody".to_string()))]);
    let names: Vec<&str> = authors.list.iter().map(|a| a.name.as_str()).collect();
    assert_eq!(names, vec!["Alice", "Bob", "@carol"]);
    assert_eq!(authors.list[2].email.as_deref(), Some("c@x.y"));
}
