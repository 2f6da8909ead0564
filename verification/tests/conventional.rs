use novalyn::conventional::parse_commit_fast;
use novalyn::footers::is_valid_footer_token;
use novalyn::git::RawCommit;
use novalyn::issues::extract_issues_fast;

fn make_commit(summary: &str, body: &str) -> RawCommit {
    RawCommit {
        id: "test".into(),
        short_id: "test".into(),
        summary: summary.into(),
        body: body.into(),
        author_name: "Author".into(),
        author_email: "author@test.com".into(),
        timestamp: 0,
    }
}

#[test]
fn test_simple_commit() {
    let rc = make_commit("feat: add feature", "");
    let parsed = parse_commit_fast(&rc);

    assert_eq!(parsed.commit_type, "feat");
    assert_eq!(parsed.scope, None);
    assert_eq!(parsed.description, "add feature");
    assert_eq!(parsed.body, "");
    assert!(parsed.footers.is_empty());
    assert!(!parsed.breaking);
    assert!(parsed.issues.is_empty());
    assert!(parsed.co_authors.is_empty());
}

#[test]
fn test_with_scope() {
    let rc = make_commit("fix(api): handle null", "");
    let parsed = parse_commit_fast(&rc);

    assert_eq!(parsed.commit_type, "fix");
    assert_eq!(parsed.scope, Some("api".into()));
}

#[test]
fn test_breaking() {
    let rc = make_commit("feat!: breaking change", "");
    let parsed = parse_commit_fast(&rc);

    assert!(parsed.breaking);
}

#[test]
fn test_with_issues() {
    let rc = make_commit("feat: add feature #123 #456", "Body with #789");
    let parsed = parse_commit_fast(&rc);

    assert_eq!(parsed.issues.len(), 3);
    assert!(parsed.issues.contains(&123));
    assert!(parsed.issues.contains(&456));
    assert!(parsed.issues.contains(&789));
}

#[test]
fn test_with_footers() {
    let rc = make_commit(
        "feat: add feature",
        "Body text.\n\nReviewed-by: John\nRefs: #123",
    );
    let parsed = parse_commit_fast(&rc);

    assert_eq!(parsed.body, "Body text.");
    assert_eq!(parsed.footers.len(), 2);
    assert_eq!(parsed.footers[0].0, "Reviewed-by");
    assert_eq!(parsed.footers[0].1, "John");
}

#[test]
fn test_breaking_footer() {
    let rc = make_commit("feat: add", "BREAKING CHANGE: breaks stuff");
    let parsed = parse_commit_fast(&rc);

    assert!(parsed.breaking);
}

#[test]
fn test_co_author() {
    let rc = make_commit("feat: add", "Co-authored-by: Jane Doe <jane@example.com>");
    let parsed = parse_commit_fast(&rc);

    assert_eq!(parsed.co_authors.len(), 1);
    assert_eq!(parsed.co_authors[0], "Jane Doe <jane@example.com>");
}

fn issues_of(summary: &str, body: &str) -> Vec<u64> {
    parse_commit_fast(&make_commit(summary, body)).issues.to_vec()
}

#[test]
fn header_with_bang_and_no_body() {
    let p = parse_commit_fast(&make_commit("feat!: change api", ""));
    assert_eq!(p.commit_type, "feat");
    assert_eq!(p.scope, None);
    assert!(p.breaking);
    assert_eq!(p.description, "change api");
    assert_eq!(p.body, "");
    assert!(p.footers.is_empty());
}

#[test]
fn issues_breaking_footer_and_continuation() {
    let p = parse_commit_fast(&make_commit(
        "fix(parser): handle edge (#12, #34)",
        "Implements fix refs #56 #78\n\nFooter: note\nBREAKING CHANGE: behaviour changed significantly\n    extra line\nAnother: value",
    ));
    assert_eq!(p.issues, vec![12, 34, 56, 78]);
    assert!(p.breaking);
    assert_eq!(p.body, "Implements fix refs #56 #78");
    assert_eq!(
        p.footers,
        vec![
            ("Footer".to_string(), "note".to_string()),
            (
                "BREAKING CHANGE".to_string(),
                "behaviour changed significantly\nextra line".to_string()
            ),
            ("Another".to_string(), "value".to_string()),
        ]
    );
    assert_eq!(p.commit_type, "fix");
    assert_eq!(p.scope.as_deref(), Some("parser"));
    assert_eq!(p.description, "handle edge (#12, #34)");
}

#[test]
fn type_is_never_empty_and_in_small_letters() {
    for header in [
        "",
        " ",
        ": x",
        "!",
        "(scope): x",
        "123",
        "FEAT: x",
        "FeAt(Scope)!: X",
        "\u{e9}t\u{e9}: x",
        "fix\u{1F41E}: x",
        "\u{0}\u{ff}\u{10FFFF}",
        "\n\n",
        "a",
    ] {
        for body in ["", "\n", "x", ":", "a: b\n\n\n", "\r\n\r\n", "#", "\u{2028}"] {
            let p = parse_commit_fast(&make_commit(header, body));
            assert!(!p.commit_type.is_empty(), "header {:?}", header);
            assert!(p.commit_type.chars().all(|c| c.is_ascii_lowercase()));
            for pair in p.issues.windows(2) {
                assert!(pair[0] < pair[1]);
            }
        }
    }
    assert_eq!(parse_commit_fast(&make_commit("", "")).commit_type, "other");
    assert_eq!(parse_commit_fast(&make_commit("123: x", "")).commit_type, "other");
    assert_eq!(parse_commit_fast(&make_commit("FeAt(Scope)!: X", "")).commit_type, "feat");
    assert_eq!(parse_commit_fast(&make_commit("\u{e9}t\u{e9}: x", "")).commit_type, "other");
}

#[test]
fn well_formed_headers_are_read_back() {
    for kind in ["feat", "Fix", "CHORE", "x"] {
        for scope in [None, Some(""), Some("api"), Some("a b(c"), Some("\u{e9}")] {
            for breaking in [false, true] {
                for description in ["add", " add  ", "", "\t\u{a0}x: y (#1)\u{2003}", "(paren)"] {
                    let mut header = kind.to_string();
                    if let Some(s) = scope {
                        header.push('(');
                        header.push_str(s);
                        header.push(')');
                    }
                    if breaking {
                        header.push('!');
                    }
                    header.push(':');
                    header.push_str(description);
                    let p = parse_commit_fast(&make_commit(&header, ""));
                    assert_eq!(p.commit_type, kind.to_ascii_lowercase(), "{:?}", header);
                    assert_eq!(p.scope.as_deref(), scope, "{:?}", header);
                    assert_eq!(p.breaking, breaking, "{:?}", header);
                    assert_eq!(p.description, description.trim(), "{:?}", header);
                }
            }
        }
    }
}

#[test]
fn malformed_headers_get_a_best_reading() {
    let p = parse_commit_fast(&make_commit("feat(api: open", ""));
    assert_eq!(p.commit_type, "feat");
    assert_eq!(p.scope, None);
    assert!(!p.breaking);
    assert_eq!(p.description, "api: open");
    let p = parse_commit_fast(&make_commit("just some words", ""));
    assert_eq!(p.commit_type, "just");
    assert_eq!(p.description, "some words");
    let p = parse_commit_fast(&make_commit("fix!x", ""));
    assert!(p.breaking);
    assert_eq!(p.description, "x");
    let p = parse_commit_fast(&make_commit("fix :x", ""));
    assert_eq!(p.description, ":x");
    let p = parse_commit_fast(&make_commit("fix:\u{b}x\u{b}", ""));
    assert_eq!(p.description, "x");
    let p = parse_commit_fast(&make_commit("fix(a)(b): c", ""));
    assert_eq!(p.scope.as_deref(), Some("a"));
    assert_eq!(p.description, "(b): c");
}

#[test]
fn issues_are_sorted_and_unique() {
    assert_eq!(issues_of("fix #3 #1 #2 #3 #1", ""), vec![1, 2, 3]);
    assert_eq!(issues_of("#10#9 ##8 #x #", "#007 and #7"), vec![7, 8, 9, 10]);
    assert_eq!(
        issues_of("#18446744073709551615 #18446744073709551616 #0", ""),
        vec![0, 18446744073709551615]
    );
    assert_eq!(issues_of("#99999999999999999999999999 #5", ""), vec![5]);
    assert_eq!(issues_of("a", "b\n\nRefs #4: #2\n  #3"), vec![2, 3, 4]);
    assert!(issues_of("no issues # here", "none").is_empty());
}

#[test]
fn extract_issues_keeps_the_order_of_the_text() {
    assert_eq!(extract_issues_fast("#3 #1 #3"), vec![3, 1, 3]);
    assert_eq!(extract_issues_fast("(#12, #34)"), vec![12, 34]);
    assert_eq!(extract_issues_fast(""), Vec::<u64>::new());
    assert_eq!(extract_issues_fast("\u{e9}#5\u{e9}"), vec![5]);
}

#[test]
fn footer_tokens() {
    assert!(is_valid_footer_token("Reviewed-by"));
    assert!(is_valid_footer_token("BREAKING CHANGE"));
    assert!(is_valid_footer_token("a1 -"));
    assert!(!is_valid_footer_token(""));
    assert!(!is_valid_footer_token("with_underscore"));
    assert!(!is_valid_footer_token("caf\u{e9}"));
    assert!(!is_valid_footer_token("a:b"));
}

#[test]
fn footer_block_is_found_from_the_end() {
    let p = parse_commit_fast(&make_commit(
        "feat: x",
        "Intro\n\nnot: a footer block\nplain words\n\nRefs: #2\n\nCloses: #3\n",
    ));
    assert_eq!(p.body, "Intro\n\nnot: a footer block\nplain words\n\nRefs: #2");
    assert_eq!(p.footers, vec![("Closes".to_string(), "#3".to_string())]);
    assert_eq!(p.issues, vec![2, 3]);

    let p = parse_commit_fast(&make_commit("feat: x", "Text\n\nA: 1\n\n"));
    assert_eq!(p.body, "Text");
    assert_eq!(p.footers, vec![("A".to_string(), "1".to_string())]);

    let p = parse_commit_fast(&make_commit("feat: x", "Text\n\nA: 1\nplain\n"));
    assert_eq!(p.body, "Text\n\nA: 1\nplain");
    assert!(p.footers.is_empty());

    let p = parse_commit_fast(&make_commit("feat: x", "  Text \r\n\r\n  \r\n"));
    assert_eq!(p.body, "Text");
    assert!(p.footers.is_empty());
}

#[test]
fn body_that_is_all_footers() {
    let p = parse_commit_fast(&make_commit(
        "feat: x",
        "Fixes: #1\n  and more\nplain words\nRefs: #2",
    ));
    assert_eq!(p.body, "");
    assert_eq!(p.footers, vec![("Fixes".to_string(), "#1\nand more".to_string())]);
    assert_eq!(p.issues, vec![1]);

    let p = parse_commit_fast(&make_commit("feat: x", "Token : spaced\n\tnext\nB-c:"));
    assert_eq!(p.body, "");
    assert_eq!(
        p.footers,
        vec![
            ("Token".to_string(), "spaced\nnext".to_string()),
            ("B-c".to_string(), String::new()),
        ]
    );

    let p = parse_commit_fast(&make_commit("feat: x", "Token : spaced\n\tnext\n\n  \nB-c:"));
    assert_eq!(p.body, "Token : spaced\n\tnext");
    assert_eq!(p.footers, vec![("B-c".to_string(), String::new())]);
}

#[test]
fn footers_keep_their_order_and_repeats() {
    let p = parse_commit_fast(&make_commit(
        "feat: x",
        "Body\n\n  leading continuation\nRefs: #1\nRefs: #2\nbreaking-changes: late\n   Indented: is a footer\nCo-Authored-By: A <a@b>\nco-authored-by: B <b@c>\n  and friends",
    ));
    assert_eq!(
        p.footers,
        vec![
            ("Refs".to_string(), "#1".to_string()),
            ("Refs".to_string(), "#2".to_string()),
            ("breaking-changes".to_string(), "late".to_string()),
            ("Indented".to_string(), "is a footer".to_string()),
            ("Co-Authored-By".to_string(), "A <a@b>".to_string()),
            ("co-authored-by".to_string(), "B <b@c>\nand friends".to_string()),
        ]
    );
    assert!(!p.breaking);
    assert_eq!(p.co_authors, vec!["A <a@b>".to_string(), "B <b@c>\nand friends".to_string()]);
    for token in ["BREAKING CHANGE", "breaking-change", "Breaking Changes"] {
        let body = format!("{}: x\nOther: y", token);
        assert!(parse_commit_fast(&make_commit("feat: x", &body)).breaking, "{}", token);
        let body = format!("Other: y\n{}: x\nLast: z", token);
        assert!(parse_commit_fast(&make_commit("feat: x", &body)).breaking, "{}", token);
    }
}

#[test]
fn trimming_knows_every_whitespace_character() {
    for c in '\0'..=char::MAX {
        let header = format!("fix:x{}", c);
        let p = parse_commit_fast(&make_commit(&header, ""));
        assert_eq!(p.description == "x", c.is_whitespace(), "{:?}", c);
        assert_eq!(p.description, header[4..].trim(), "{:?}", c);
    }
}

#[test]
fn type_run_knows_every_letter() {
    for c in '\0'..=char::MAX {
        let header = format!("{}: x", c);
        let p = parse_commit_fast(&make_commit(&header, ""));
        if c.is_ascii_alphabetic() {
            assert_eq!(p.commit_type, c.to_ascii_lowercase().to_string());
            assert_eq!(p.description, "x");
        } else {
            assert_eq!(p.commit_type, "other", "{:?}", c);
        }
    }
}

#[test]
fn lines_are_split_as_the_standard_library_splits_them() {
    for body in [
        "a\nb",
        "a\r\nb\r\n",
        "a\rb\n",
        "\n",
        "\r\n\r\n",
        "a\n\nb\n\n",
        "a\r",
        "\r",
        "x\n\r\ny",
        "only",
    ] {
        let message = format!("head\n{}", body);
        let c = novalyn::git::to_raw_commit("0123456", &message, "", "", 0);
        let want: Vec<&str> = message.lines().skip(1).collect();
        assert_eq!(c.body, want.join("\n"), "{:?}", body);
        assert_eq!(c.summary, "head");
    }
}
