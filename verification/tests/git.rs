use novalyn::git::{current_ref, last_tag, to_raw_commit, HeadState, TagInfo};
use novalyn::utils::process_indexed;

fn tag(name: &str, time: i64) -> TagInfo {
    TagInfo { name: name.to_string(), time }
}

#[test]
fn message_is_split_into_header_and_body() {
    let c = to_raw_commit(
        "0123456789abcdef",
        "feat: add\n\nBody line\r\nsecond\n",
        "Ann",
        "ann@x.y",
        42,
    );
    assert_eq!(c.id, "0123456789abcdef");
    assert_eq!(c.short_id, "0123456");
    assert_eq!(c.summary, "feat: add");
    assert_eq!(c.body, "\nBody line\nsecond");
    assert_eq!(c.author_name, "Ann");
    assert_eq!(c.author_email, "ann@x.y");
    assert_eq!(c.timestamp, 42);
    let c = to_raw_commit("abcdefg", "", "", "", -1);
    assert_eq!((c.short_id.as_str(), c.summary.as_str(), c.body.as_str()), ("abcdefg", "", ""));
    let c = to_raw_commit("abcdefg", "only header", "", "", 0);
    assert_eq!((c.summary.as_str(), c.body.as_str()), ("only header", ""));
}

#[test]
fn latest_tag_is_chosen_by_time_then_version() {
    assert_eq!(last_tag(&vec![]), None);
    assert_eq!(last_tag(&vec![tag("nightly", 9), tag("v1", 9)]), None);
    assert_eq!(
        last_tag(&vec![tag("v1.0.0", 10), tag("v0.9.0", 20), tag("latest", 30)]),
        Some("v0.9.0".to_string())
    );
    assert_eq!(
        last_tag(&vec![tag("v1.0.0", 10), tag("v1.1.0", 10), tag("1.0.5", 10)]),
        Some("v1.1.0".to_string())
    );
    assert_eq!(
        last_tag(&vec![tag("v2.0.0", 10), tag("vv2.0.0", 10)]),
        Some("v2.0.0".to_string())
    );
    assert_eq!(
        last_tag(&vec![tag("v1.0.0-rc.1", 5), tag("v1.0.0", 5), tag("v1.0.0-rc.2", 5)]),
        Some("v1.0.0".to_string())
    );
}

#[test]
fn head_is_named_by_branch_tag_or_commit() {
    assert_eq!(current_ref(&HeadState::Unborn), None);
    assert_eq!(current_ref(&HeadState::Branch(Some("main".into()))), Some("main".to_string()));
    assert_eq!(current_ref(&HeadState::Branch(None)), None);
    assert_eq!(
        current_ref(&HeadState::Detached { oid: Some("abc".into()), tag: Some("v1".into()) }),
        Some("v1".to_string())
    );
    assert_eq!(
        current_ref(&HeadState::Detached { oid: Some("abc".into()), tag: None }),
        Some("DETACHED@abc".to_string())
    );
    assert_eq!(
        current_ref(&HeadState::Detached { oid: None, tag: None }),
        Some("DETACHED@".to_string())
    );
}

#[test]
fn items_are_processed_with_their_places() {
    let items = vec!["a", "bb", "", "dddd"];
    let out = process_indexed(&items, |i, s: &&str| {
        if s.is_empty() {
            None
        } else {
            Some(format!("{}{}", i, s))
        }
    });
    assert_eq!(out, vec!["0a".to_string(), "1bb".to_string(), "3dddd".to_string()]);
    let none: Vec<u8> = Vec::new();
    assert!(process_indexed(&none, |_, x: &u8| Some(*x)).is_empty());
}

fn remote(name: &str, url: Option<&str>) -> novalyn::git::RemoteInfo {
    novalyn::git::RemoteInfo { name: name.to_string(), url: url.map(|u| u.to_string()) }
}

#[test]
fn origin_is_preferred_among_the_remotes() {
    let pick = novalyn::git::pick_remote_url;
    assert_eq!(pick(&vec![]), None);
    assert_eq!(
        pick(&vec![remote("fork", Some("a")), remote("origin", Some("b"))]),
        Some("b".to_string())
    );
    assert_eq!(
        pick(&vec![remote("fork", None), remote("origin", None), remote("up", Some("c"))]),
        Some("c".to_string())
    );
    assert_eq!(pick(&vec![remote("a", Some("x")), remote("b", Some("y"))]), Some("x".to_string()));
    assert_eq!(pick(&vec![remote("origin", None)]), None);
}
