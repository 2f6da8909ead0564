use novalyn::bump::BumpKind;
use novalyn::config::{ResolvedConfig, DEFAULT_PARALLEL_THRESHOLD};
use novalyn::dispatch::parse_and_classify;
use novalyn::git::RawCommit;
use novalyn::infer::{aggregate_of, infer_version};
use novalyn::resolve::merge_and_resolve_config;
use novalyn::version::Version;

fn default_config() -> ResolvedConfig {
    merge_and_resolve_config(
        ".",
        Vec::new(),
        ecow::EcoVec::new(),
        None,
        None,
        None,
        DEFAULT_PARALLEL_THRESHOLD,
    )
}

fn mk(summary: &str) -> RawCommit {
    RawCommit {
        id: "x".into(),
        short_id: "x".into(),
        summary: summary.into(),
        body: String::new(),
        author_name: "A".into(),
        author_email: "a@b.c".into(),
        timestamp: 0,
    }
}

const ALL: [BumpKind; 4] = [
    BumpKind::Major,
    BumpKind::Minor,
    BumpKind::Patch,
    BumpKind::Unchanged,
];

#[test]
fn explicit_override_used() {
    let prev = Version::parse("1.2.3").unwrap();
    let (v, kind) = infer_version(&prev, &[], Some(Version::parse("9.9.9").unwrap()));
    assert_eq!(v.to_string(), "9.9.9");
    assert_eq!(kind, BumpKind::Unchanged);
}

#[test]
fn idempotent_same_version_no_change() {
    let prev = Version::parse("1.2.3").unwrap();
    let (v, kind) = infer_version(&prev, &[], None);
    assert_eq!(v.to_string(), "1.2.3");
    assert_eq!(kind, BumpKind::Unchanged);
}

#[test]
fn override_wins_over_commits() {
    let cfg = default_config();
    let commits = parse_and_classify(vec![mk("feat!: change")].into(), &cfg);
    let prev = Version::parse("1.2.3").unwrap();
    let (v, kind) = infer_version(&prev, &commits, Some(Version::parse("0.0.1-rc.1").unwrap()));
    assert_eq!(v, Version::parse("0.0.1-rc.1").unwrap());
    assert_eq!(v.to_string(), "0.0.1-rc.1");
    assert_eq!(kind, BumpKind::Unchanged);
}

#[test]
fn inferring_twice_without_commits_changes_nothing() {
    let prev = Version::parse("4.5.6").unwrap();
    let (once, _) = infer_version(&prev, &[], None);
    let (twice, kind) = infer_version(&once, &[], None);
    assert_eq!(twice, prev);
    assert_eq!(kind, BumpKind::Unchanged);
}

#[test]
fn bump_rules_pre_1() {
    let cfg = default_config();
    let commits = parse_and_classify(vec![mk("feat: add"), mk("fix: bug")].into(), &cfg);
    let (new, kind) = infer_version(&Version::parse("0.1.0").unwrap(), &commits, None);
    assert_eq!(new, Version::parse("0.1.1").unwrap());
    assert_eq!(
        kind,
        BumpKind::Patch,
        "expected patch bump kind under pre-1.0 rule"
    );
}

#[test]
fn bump_rules_breaking_pre_1() {
    let cfg = default_config();
    let commits = parse_and_classify(vec![mk("feat!: change")].into(), &cfg);
    let (new, kind) = infer_version(&Version::parse("0.1.0").unwrap(), &commits, None);
    assert_eq!(new, Version::parse("0.2.0").unwrap());
    assert_eq!(kind, BumpKind::Major);
}

#[test]
fn bump_rules_normal() {
    let cfg = default_config();
    let commits = parse_and_classify(vec![mk("feat: add"), mk("fix: bug")].into(), &cfg);
    let (new, kind) = infer_version(&Version::parse("1.1.0").unwrap(), &commits, None);
    assert_eq!(new, Version::parse("1.2.0").unwrap());
    assert_eq!(kind, BumpKind::Minor);
}

#[test]
fn no_impact_commits_patch_bump() {
    let cfg = default_config();
    let commits = parse_and_classify(
        vec![mk("docs: update docs"), mk("chore(other): maintenance")].into(),
        &cfg,
    );
    let prev = Version::parse("1.2.3").unwrap();
    let (new, kind) = infer_version(&prev, &commits, None);
    assert_eq!(new, Version::parse("1.2.4").unwrap());
    assert_eq!(kind, BumpKind::Patch);
}

#[test]
fn policy_table_after_version_one() {
    let cfg = default_config();
    let prev = Version::new(2, 3, 4);
    let major = parse_and_classify(vec![mk("fix!: x")].into(), &cfg);
    assert_eq!(infer_version(&prev, &major, None), (Version::new(3, 0, 0), BumpKind::Major));
    let minor = parse_and_classify(vec![mk("feat: x")].into(), &cfg);
    assert_eq!(infer_version(&prev, &minor, None), (Version::new(2, 4, 0), BumpKind::Minor));
    let patch = parse_and_classify(vec![mk("fix: x")].into(), &cfg);
    assert_eq!(infer_version(&prev, &patch, None), (Version::new(2, 3, 5), BumpKind::Patch));
    let none = parse_and_classify(vec![mk("docs: x")].into(), &cfg);
    assert_eq!(infer_version(&prev, &none, None), (Version::new(2, 3, 5), BumpKind::Patch));
}

#[test]
fn policy_table_before_version_one() {
    let cfg = default_config();
    let prev = Version::new(0, 3, 4);
    let major = parse_and_classify(vec![mk("fix!: x")].into(), &cfg);
    assert_eq!(infer_version(&prev, &major, None), (Version::new(0, 4, 0), BumpKind::Major));
    let minor = parse_and_classify(vec![mk("feat: x")].into(), &cfg);
    assert_eq!(infer_version(&prev, &minor, None), (Version::new(0, 3, 5), BumpKind::Patch));
    let patch = parse_and_classify(vec![mk("fix: x")].into(), &cfg);
    assert_eq!(infer_version(&prev, &patch, None), (Version::new(0, 3, 5), BumpKind::Patch));
    let none = parse_and_classify(vec![mk("unknown: x")].into(), &cfg);
    assert_eq!(infer_version(&prev, &none, None), (Version::new(0, 3, 5), BumpKind::Patch));
}

#[test]
fn pre_release_and_build_texts_are_kept() {
    let cfg = default_config();
    let commits = parse_and_classify(vec![mk("fix: x")].into(), &cfg);
    let prev = Version::parse("1.2.3-alpha.1+build.5").unwrap();
    let (new, _) = infer_version(&prev, &commits, None);
    assert_eq!(new.to_string(), "1.2.4-alpha.1+build.5");
}

#[test]
fn aggregate_does_not_depend_on_order() {
    let cfg = default_config();
    let forward = parse_and_classify(vec![mk("docs: a"), mk("feat: b"), mk("fix: c")].into(), &cfg);
    let backward = parse_and_classify(vec![mk("fix: c"), mk("feat: b"), mk("docs: a")].into(), &cfg);
    assert_eq!(aggregate_of(&forward), BumpKind::Minor);
    assert_eq!(aggregate_of(&backward), BumpKind::Minor);
    assert_eq!(aggregate_of(&[]), BumpKind::Unchanged);
}

#[test]
fn version_is_written_as_it_was_read() {
    for text in ["0.0.0", "1.2.3", "10.20.30", "1.0.0-rc.1", "1.0.0+7", "3.4.5-a.b+c.d"] {
        assert_eq!(Version::parse(text).unwrap().to_string(), text);
    }
    assert_eq!(Version::new(18446744073709551615, 0, 7).to_string(), "18446744073709551615.0.7");
    assert!(Version::parse("1.2").is_err());
    assert!(Version::parse("").is_err());
    assert!(Version::parse("01.2.3").is_err());
}

#[test]
fn escalate_is_commutative_associative_idempotent() {
    for a in ALL {
        assert_eq!(a.escalate(a), a);
        assert_eq!(a.escalate(BumpKind::Unchanged), a);
        assert_eq!(BumpKind::Unchanged.escalate(a), a);
        assert_eq!(a.escalate(BumpKind::Major), BumpKind::Major);
        assert_eq!(BumpKind::Major.escalate(a), BumpKind::Major);
        for b in ALL {
            assert_eq!(a.escalate(b), b.escalate(a));
            for c in ALL {
                assert_eq!(a.escalate(b).escalate(c), a.escalate(b.escalate(c)));
            }
        }
    }
}

#[test]
fn test_typical_release_progression() {
    let sequence = [
        BumpKind::Patch,
        BumpKind::Patch,
        BumpKind::Minor,
        BumpKind::Patch,
    ];

    let result = sequence
        .iter()
        .fold(BumpKind::Unchanged, |acc, &b| acc.escalate(b));
    assert_eq!(result, BumpKind::Minor);
}

#[test]
fn test_breaking_change_override() {
    let sequence = [
        BumpKind::Patch,
        BumpKind::Minor,
        BumpKind::Patch,
        BumpKind::Major,
        BumpKind::Patch,
    ];

    let result = sequence
        .iter()
        .fold(BumpKind::Unchanged, |acc, &b| acc.escalate(b));
    assert_eq!(result, BumpKind::Major);
}

#[test]
fn test_no_changes() {
    let sequence = [BumpKind::Unchanged; 10];
    let result = sequence
        .iter()
        .fold(BumpKind::Unchanged, |acc, &b| acc.escalate(b));
    assert_eq!(result, BumpKind::Unchanged);
}

#[test]
fn test_single_bump() {
    assert_eq!(BumpKind::Unchanged.escalate(BumpKind::Major), BumpKind::Major);
    assert_eq!(BumpKind::Unchanged.escalate(BumpKind::Minor), BumpKind::Minor);
    assert_eq!(BumpKind::Unchanged.escalate(BumpKind::Patch), BumpKind::Patch);
}

#[test]
fn test_all_combinations() {
    for &a in &ALL {
        for &b in &ALL {
            let result = a.escalate(b);
            assert!(matches!(
                result,
                BumpKind::Major | BumpKind::Minor | BumpKind::Patch | BumpKind::Unchanged
            ));
        }
    }
}

#[test]
fn test_minor_dominates_patch() {
    assert_eq!(BumpKind::Minor.escalate(BumpKind::Patch), BumpKind::Minor);
    assert_eq!(BumpKind::Patch.escalate(BumpKind::Minor), BumpKind::Minor);
}

#[test]
fn test_minor_dominates_none() {
    assert_eq!(BumpKind::Minor.escalate(BumpKind::Unchanged), BumpKind::Minor);
    assert_eq!(BumpKind::Unchanged.escalate(BumpKind::Minor), BumpKind::Minor);
}
