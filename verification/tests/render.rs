use novalyn::authors::{Author, Authors};
use novalyn::config::{default_types, ResolvedConfig};
use novalyn::git::RawCommit;
use novalyn::parse::ParsedCommit;
use novalyn::render::{render_release_block, RenderContext};
use novalyn::repository::{Provider, Repository};
use novalyn::version::Version;

fn dummy_cfg() -> ResolvedConfig {
    ResolvedConfig {
        scope_map: Default::default(),
        types: default_types(),
        new_version: None,
        warnings: vec![].into(),
        github_token: None,
        cwd: ".".into(),
        source_file: None,
        repo: None,
        parallel_threshold: 50,
    }
}

fn mk(idx: usize, t: &str, desc: &str) -> ParsedCommit {
    ParsedCommit {
        raw: RawCommit {
            id: format!("{idx}"),
            short_id: format!("{idx}"),
            summary: format!("{t}: {desc}"),
            body: String::new(),
            author_name: "A".into(),
            author_email: "a@x".into(),
            timestamp: idx as i64,
        },
        commit_type: t.into(),
        scope: None,
        description: desc.into(),
        body: String::new(),
        footers: vec![].into(),
        breaking: false,
        issues: vec![].into(),
        co_authors: vec![].into(),
        type_cfg: None,
        index: idx,
    }
}

#[test]
fn basic_render() {
    let cfg = dummy_cfg();
    let commits = vec![mk(0, "feat", "add"), mk(0, "fix", "bug")];
    let rc = RenderContext {
        version: &Version::parse("1.0.0").unwrap(),
        previous_version: None,
        commits: &commits,
        authors: None,
        repo: None,
        cfg: &cfg,
        previous_tag: None,
        current_ref: "HEAD",
    };
    let txt = render_release_block(&rc);
    assert!(txt.contains("## v1.0.0"));
    assert!(txt.contains("### \u{2728} Features"));
    assert!(txt.contains("### \u{1F41E} Bug Fixes"));
}

#[test]
fn render_block_snapshot() {
    let cfg = dummy_cfg();
    let commits = vec![mk(0, "feat", "add A"), mk(1, "fix", "bug B")];
    let rc = RenderContext {
        version: &Version::parse("1.2.0").unwrap(),
        previous_version: Some(&Version::parse("1.1.0").unwrap()),
        commits: &commits,
        authors: None,
        repo: None,
        cfg: &cfg,
        previous_tag: Some("v1.1.0"),
        current_ref: "HEAD",
    };
    let txt = render_release_block(&rc);
    assert_eq!(
        txt,
        "## v1.2.0\n\n### \u{2728} Features\n* \u{2728}: add A\n\n### \u{1F41E} Bug Fixes\n* \u{1F41E}: bug B\n"
    );
}

#[test]
fn deterministic_ordering() {
    let cfg = dummy_cfg();
    let mut commits = vec![
        mk(2, "feat", "third"),
        mk(0, "feat", "first"),
        mk(1, "feat", "second"),
    ];
    let rc = RenderContext {
        version: &Version::parse("1.0.0").unwrap(),
        previous_version: None,
        commits: &commits,
        authors: None,
        repo: None,
        cfg: &cfg,
        previous_tag: None,
        current_ref: "HEAD",
    };
    let txt = render_release_block(&rc);
    let feat_section = txt.split("### \u{2728} Features").nth(1).unwrap();
    let lines: Vec<&str> = feat_section
        .lines()
        .filter(|l| l.starts_with("* "))
        .collect();
    assert_eq!(
        lines,
        vec!["* \u{2728}: first", "* \u{2728}: second", "* \u{2728}: third"]
    );
    commits.swap(0, 1);
    let rc2 = RenderContext {
        version: &Version::parse("1.0.0").unwrap(),
        previous_version: None,
        commits: &commits,
        authors: None,
        repo: None,
        cfg: &cfg,
        previous_tag: None,
        current_ref: "HEAD",
    };
    let txt2 = render_release_block(&rc2);
    let feat_section2 = txt2.split("### \u{2728} Features").nth(1).unwrap();
    let lines2: Vec<&str> = feat_section2
        .lines()
        .filter(|l| l.starts_with("* "))
        .collect();
    assert_eq!(
        lines2,
        vec!["* \u{2728}: first", "* \u{2728}: second", "* \u{2728}: third"]
    );
}

#[test]
fn repeated_render_identical() {
    let cfg = dummy_cfg();
    let commits = vec![mk(0, "feat", "add new feature"), mk(1, "fix", "resolve bug")];
    let version = Version::new(1, 0, 0);
    let prev_version = Version::new(0, 9, 0);

    let ctx1 = RenderContext {
        commits: &commits,
        version: &version,
        previous_version: Some(&prev_version),
        authors: None,
        repo: None,
        cfg: &cfg,
        previous_tag: Some("v0.9.0"),
        current_ref: "HEAD",
    };
    let output1 = render_release_block(&ctx1);

    let ctx2 = RenderContext {
        commits: &commits,
        version: &version,
        previous_version: Some(&prev_version),
        authors: None,
        repo: None,
        cfg: &cfg,
        previous_tag: Some("v0.9.0"),
        current_ref: "HEAD",
    };
    let output2 = render_release_block(&ctx2);

    assert_eq!(output1, output2);
}

#[test]
fn full_block_with_links_scopes_and_contributors() {
    let mut cfg = dummy_cfg();
    cfg.types[1].enabled = false;
    let repo = Repository {
        host: "github.com".into(),
        owner: "o".into(),
        name: "r".into(),
        provider: Provider::GitHub,
        original: String::new(),
    };
    let mut a = mk(0, "feat", "first");
    a.scope = Some("core".into());
    a.breaking = true;
    a.issues = vec![1, 22].into();
    let b = mk(1, "fix", "hidden");
    let mut c = mk(2, "docs", "page");
    c.issues = vec![3].into();
    let d = mk(3, "unknown", "not shown");
    let commits = vec![a, b, c, d];
    let authors = Authors {
        list: vec![
            Author { name: "Alice".into(), email: Some("a@x.y".into()) },
            Author { name: "Bob".into(), email: None },
        ]
        .into(),
        suppressed: false,
    };
    let version = Version::new(2, 0, 0);
    let previous = Version::new(1, 9, 0);
    let rc = RenderContext {
        version: &version,
        previous_version: Some(&previous),
        commits: &commits,
        authors: Some(&authors),
        repo: Some(&repo),
        cfg: &cfg,
        previous_tag: Some("v1.9.0"),
        current_ref: "HEAD",
    };
    let want = "## v2.0.0\n\
        [compare changes](https://github.com/o/r/compare/v1.9.0...v2.0.0)\n\
        \n### \u{2728} Features\n\
        * \u{2728}(core): first (BREAKING) ([#1](https://github.com/o/r/issues/1), [#22](https://github.com/o/r/issues/22))\n\
        \n### \u{1F4DA} Documentation\n\
        * \u{1F4DA}: page ([#3](https://github.com/o/r/issues/3))\n\
        \n### Contributors\n\
        - Alice <a@x.y>\n\
        - Bob\n";
    assert_eq!(render_release_block(&rc), want);

    let suppressed = Authors { list: authors.list.clone(), suppressed: true };
    let rc2 = RenderContext {
        version: &version,
        previous_version: None,
        commits: &commits[2..3],
        authors: Some(&suppressed),
        repo: None,
        cfg: &cfg,
        previous_tag: Some("v1.9.0"),
        current_ref: "HEAD",
    };
    assert_eq!(
        render_release_block(&rc2),
        "## v2.0.0\n\n### \u{1F4DA} Documentation\n* \u{1F4DA}: page (#3)\n"
    );
    let rc3 = RenderContext {
        version: &version,
        previous_version: None,
        commits: &[],
        authors: None,
        repo: None,
        cfg: &cfg,
        previous_tag: None,
        current_ref: "HEAD",
    };
    assert_eq!(render_release_block(&rc3), "## v2.0.0\n");
}
