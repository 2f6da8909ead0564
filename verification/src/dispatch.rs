//! Parallel processing of a batch, and the proof that it yields what the
//! sequential pass yields.

use crate::config::{type_views, ResolvedConfig};
use crate::conventional::all_issue_refs;
use crate::eco::{commits_from, held_commits, held_numbers, held_raw_commits, raw_commits_in};
use crate::git::{RawCommit, RawCommitView};
use crate::issues::{lemma_sorted_unique, sorted_unique, strictly_ascending};
use crate::parse::{
    classified_all, classify_one, commit_views, kept, parse_and_classify_sequential, processed,
    raw_views, should_keep, ParsedCommit, ParsedCommitView,
};
use ecow::EcoVec;
use rayon::iter::{IndexedParallelIterator, IntoParallelRefIterator, ParallelIterator};
use vstd::multiset::group_multiset_axioms;
use vstd::prelude::*;
use vstd::seq_lib::{
    to_multiset_build, to_multiset_contains, to_multiset_insert, to_multiset_len,
    to_multiset_remove,
};

verus! {

/// The places rise from one commit to the next.
pub open spec fn ascending_places(commits: Seq<ParsedCommitView>) -> bool {
    forall|i: int, j: int|
        0 <= i < j < commits.len() ==> (#[trigger] commits[i]).index < (
        #[trigger] commits[j]).index
}

/// No commit stands before one with a smaller place.
pub open spec fn sorted_places(commits: Seq<ParsedCommitView>) -> bool {
    forall|i: int, j: int|
        0 <= i < j < commits.len() ==> (#[trigger] commits[i]).index <= (
        #[trigger] commits[j]).index
}

/// `rayon`'s `par_iter`, `enumerate`, `map`, `filter` and `collect` over the
/// batch, with `classify_one` as the map and `should_keep` as the filter.
/// Every commit of the batch is handed to the two functions exactly once
/// with its place, so the result holds what the sequential pass keeps, each
/// as often. Of the order nothing is claimed.
#[verifier::external_body]
fn classify_in_parallel(commits: &[RawCommit], cfg: &ResolvedConfig) -> (r: Vec<ParsedCommit>)
    ensures
        commit_views(r@).to_multiset() == classified_all(raw_views(commits@), cfg).to_multiset(),
{
    commits.par_iter().enumerate().map(|(index, rc)| classify_one(index, rc, cfg)).filter(
        should_keep,
    ).collect()
}

/// `slice::sort_by_key` with the place as key: the same commits, each as
/// often as before, none before one with a smaller place, and commits of one
/// place in the order that they had.
#[verifier::external_body]
fn sort_by_index(commits: &mut Vec<ParsedCommit>)
    ensures
        final(commits)@.to_multiset() == old(commits)@.to_multiset(),
        forall|i: int, j: int|
            0 <= i < j < final(commits)@.len() ==> (#[trigger] final(commits)@[i]).index <= (
            #[trigger] final(commits)@[j]).index,
        forall|i: int, j: int|
            #![trigger final(commits)@[i], final(commits)@[j]]
            0 <= i < j < final(commits)@.len()
                && final(commits)@[i].index == final(commits)@[j].index
                ==> exists|a: int, b: int|
                #![trigger old(commits)@[a], old(commits)@[b]]
                0 <= a < b < old(commits)@.len()
                    && old(commits)@[a] == final(commits)@[i]
                    && old(commits)@[b] == final(commits)@[j],
{
    commits.sort_by_key(|p| p.index);
}

/// Lists that hold the same commits, each as often, have views that hold the
/// same views, each as often.
proof fn lemma_views_of_permutation(a: Seq<ParsedCommit>, b: Seq<ParsedCommit>)
    requires
        a.to_multiset() == b.to_multiset(),
    ensures
        commit_views(a).to_multiset() == commit_views(b).to_multiset(),
    decreases a.len(),
{
    broadcast use group_multiset_axioms;

    to_multiset_len(a);
    to_multiset_len(b);
    if a.len() == 0 {
        assert(commit_views(a) =~= commit_views(b));
    } else {
        let x = a.last();
        let a1 = a.drop_last();
        assert(a =~= a1.push(x));
        to_multiset_build(a1, x);
        to_multiset_contains(b, x);
        assert(a.to_multiset().count(x) > 0);
        let k = choose|k: int| 0 <= k < b.len() && b[k] == x;
        let b1 = b.remove(k);
        to_multiset_remove(b, k);
        assert(b1.to_multiset() =~= a1.to_multiset());
        lemma_views_of_permutation(a1, b1);
        assert(commit_views(a) =~= commit_views(a1).push(x@));
        to_multiset_build(commit_views(a1), x@);
        assert(commit_views(b) =~= commit_views(b1).insert(k, x@));
        to_multiset_insert(commit_views(b1), k, x@);
    }
}

/// A list ordered by place that holds the commits of a list with rising
/// places, each as often, is that list.
proof fn lemma_sorted_permutation(w: Seq<ParsedCommitView>, a: Seq<ParsedCommitView>)
    requires
        ascending_places(a),
        sorted_places(w),
        w.to_multiset() == a.to_multiset(),
    ensures
        w == a,
    decreases a.len(),
{
    broadcast use group_multiset_axioms;

    to_multiset_len(a);
    to_multiset_len(w);
    if a.len() == 0 {
        assert(w =~= a);
    } else {
        let n = a.len() as int;
        let x = a.last();
        let y = w.last();
        to_multiset_contains(w, x);
        to_multiset_contains(a, x);
        to_multiset_contains(w, y);
        to_multiset_contains(a, y);
        assert(a[n - 1] == x);
        assert(a.contains(x));
        assert(w[n - 1] == y);
        assert(w.contains(y));
        let k = choose|k: int| 0 <= k < w.len() && w[k] == x;
        let j = choose|j: int| 0 <= j < a.len() && a[j] == y;
        assert(w[k].index <= w[n - 1].index);
        assert(a[j].index <= a[n - 1].index);
        assert(j == n - 1) by {
            if j < n - 1 {
                assert(a[j].index < a[n - 1].index);
            }
        }
        assert(x == y);
        let a1 = a.drop_last();
        let w1 = w.drop_last();
        assert(a =~= a1.push(x));
        assert(w =~= w1.push(x));
        to_multiset_build(a1, x);
        to_multiset_build(w1, x);
        assert(w1.to_multiset() =~= a1.to_multiset()) by {
            assert(w1.to_multiset() =~= w.to_multiset().remove(x));
            assert(a1.to_multiset() =~= a.to_multiset().remove(x));
        }
        assert(ascending_places(a1)) by {
            assert forall|i: int, j: int| 0 <= i < j < a1.len() implies (#[trigger] a1[i]).index
                < (#[trigger] a1[j]).index by {
                assert(a1[i] == a[i] && a1[j] == a[j]);
            }
        }
        assert(sorted_places(w1)) by {
            assert forall|i: int, j: int| 0 <= i < j < w1.len() implies (#[trigger] w1[i]).index
                <= (#[trigger] w1[j]).index by {
                assert(w1[i] == w[i] && w1[j] == w[j]);
            }
        }
        lemma_sorted_permutation(w1, a1);
    }
}

/// What is made of a commit has the place that it was given and holds the
/// commit as it came.
proof fn lemma_processed_keeps(index: usize, rc: RawCommitView, cfg: &ResolvedConfig)
    ensures
        processed(index, rc, cfg).index == index,
        processed(index, rc, cfg).raw == rc,
{
    reveal(processed);
}

/// One more commit adds at most one member to the change set, at its end.
proof fn lemma_change_set_step(commits: Seq<RawCommitView>, cfg: &ResolvedConfig)
    requires
        commits.len() > 0,
    ensures
        ({
            let rest = classified_all(commits.drop_last(), cfg);
            let p = processed((commits.len() - 1) as usize, commits.last(), cfg);
            classified_all(commits, cfg) == if kept(p) {
                rest.push(p)
            } else {
                rest
            }
        }),
{
}

/// In the change set of a batch each commit has the place that it had in the
/// batch, so the places rise and stay below the size of the batch; and each
/// is what parsing and classifying made of the commit at its place, and is
/// one that is kept.
pub proof fn lemma_places_of_change_set(commits: Seq<RawCommitView>, cfg: &ResolvedConfig)
    requires
        commits.len() <= usize::MAX,
    ensures
        ascending_places(classified_all(commits, cfg)),
        classified_all(commits, cfg).len() <= commits.len(),
        forall|i: int|
            #![trigger classified_all(commits, cfg)[i]]
            0 <= i < classified_all(commits, cfg).len() ==> {
                let c = classified_all(commits, cfg)[i];
                &&& c.index < commits.len()
                &&& c == processed(c.index, commits[c.index as int], cfg)
                &&& kept(c)
                &&& c.raw == commits[c.index as int]
            },
    decreases commits.len(),
{
    if commits.len() > 0 {
        let shorter = commits.drop_last();
        let rest = classified_all(shorter, cfg);
        let last = (commits.len() - 1) as usize;
        let p = processed(last, commits.last(), cfg);
        let all = classified_all(commits, cfg);
        lemma_places_of_change_set(shorter, cfg);
        lemma_change_set_step(commits, cfg);
        lemma_processed_keeps(last, commits.last(), cfg);
        assert forall|i: int| 0 <= i < all.len() implies {
            let c = #[trigger] all[i];
            &&& c.index < commits.len()
            &&& c == processed(c.index, commits[c.index as int], cfg)
            &&& kept(c)
            &&& c.raw == commits[c.index as int]
        } by {
            if i < rest.len() {
                assert(all[i] == rest[i]);
                assert(shorter[rest[i].index as int] == commits[rest[i].index as int]);
            } else {
                assert(all[i] == p);
            }
        }
        assert forall|i: int, j: int| 0 <= i < j < all.len() implies (#[trigger] all[i]).index < (
        #[trigger] all[j]).index by {
            assert(all[i] == rest[i]);
            if j < rest.len() {
                assert(all[j] == rest[j]);
            } else {
                assert(all[j] == p);
                assert(rest[i].index < shorter.len());
            }
        }
    }
}

/// Puts commits in the order of their places. The commits stay the same,
/// each as often as before, and commits of one place keep their order.
pub fn restore_order(found: &mut Vec<ParsedCommit>)
    ensures
        final(found)@.to_multiset() == old(found)@.to_multiset(),
        commit_views(final(found)@).to_multiset() == commit_views(old(found)@).to_multiset(),
        sorted_places(commit_views(final(found)@)),
{
    let ghost unordered = found@;
    sort_by_index(found);
    proof {
        lemma_views_of_permutation(found@, unordered);
        assert forall|i: int, j: int| 0 <= i < j < commit_views(found@).len() implies (
        #[trigger] commit_views(found@)[i]).index <= (#[trigger] commit_views(
            found@,
        )[j]).index by {
            assert(found@[i].index <= found@[j].index);
        }
    }
}

/// Parses and classifies a batch in parallel, and puts what is kept back in
/// the order of the batch.
pub fn parse_and_classify_parallel(commits: &[RawCommit], cfg: &ResolvedConfig) -> (r: Vec<
    ParsedCommit,
>)
    ensures
        commit_views(r@) == classified_all(raw_views(commits@), cfg),
{
    let size = commits.len();
    let mut found = classify_in_parallel(commits, cfg);
    restore_order(&mut found);
    proof {
        let expected = classified_all(raw_views(commits@), cfg);
        assert(raw_views(commits@).len() == size);
        lemma_places_of_change_set(raw_views(commits@), cfg);
        lemma_sorted_permutation(commit_views(found@), expected);
    }
    found
}

/// Parses and classifies a batch of commits, oldest first, and returns those
/// that are kept, in the order of the batch, each with its place in the
/// batch. A batch below the configured threshold is processed one commit
/// after the other, a larger one in parallel: the result is the same.
pub fn parse_and_classify(batch: EcoVec<RawCommit>, cfg: &ResolvedConfig) -> (r: EcoVec<
    ParsedCommit,
>)
    ensures
        commit_views(held_commits(r)) == classified_all(raw_views(held_raw_commits(batch)), cfg),
        held_commits(r).len() <= held_raw_commits(batch).len(),
        forall|i: int, j: int|
            0 <= i < j < held_commits(r).len() ==> (#[trigger] held_commits(r)[i]).index < (
            #[trigger] held_commits(r)[j]).index,
        forall|i: int|
            #![trigger held_commits(r)[i]]
            0 <= i < held_commits(r).len() ==> {
                let c = held_commits(r)[i];
                &&& c.index < held_raw_commits(batch).len()
                &&& c.raw@ == held_raw_commits(batch)[c.index as int]@
                &&& c@ == processed(c.index, held_raw_commits(batch)[c.index as int]@, cfg)
                &&& strictly_ascending(held_numbers(c.issues))
            },
{
    let given = raw_commits_in(&batch);
    let size = given.len();
    let out = if size >= cfg.parallel_threshold {
        parse_and_classify_parallel(given, cfg)
    } else {
        parse_and_classify_sequential(given, cfg)
    };
    proof {
        let raws = raw_views(given@);
        assert(raws.len() == size);
        lemma_places_of_change_set(raws, cfg);
        let views = commit_views(out@);
        assert forall|i: int, j: int| 0 <= i < j < out@.len() implies (#[trigger] out@[i]).index
            < (#[trigger] out@[j]).index by {
            assert(views[i].index < views[j].index);
        }
        assert forall|i: int| 0 <= i < out@.len() implies {
            &&& (#[trigger] out@[i]).index < given@.len()
            &&& out@[i].raw@ == given@[out@[i].index as int]@
            &&& out@[i]@ == processed(out@[i].index, given@[out@[i].index as int]@, cfg)
            &&& strictly_ascending(held_numbers(out@[i].issues))
        } by {
            let c = views[i];
            assert(c == out@[i]@);
            assert(c.index < given@.len());
            assert(raws[c.index as int] == given@[c.index as int]@);
            assert(c.issues == sorted_unique(all_issue_refs(c.raw.summary, c.raw.body))) by {
                reveal(processed);
            }
            lemma_sorted_unique(all_issue_refs(c.raw.summary, c.raw.body));
        }
    }
    commits_from(out)
}

/// Whatever the threshold, the two ways of processing a batch agree: both
/// yield the change set of the batch.
pub proof fn lemma_dispatch_agrees(
    sequential: Seq<ParsedCommitView>,
    parallel: Seq<ParsedCommitView>,
    commits: Seq<RawCommitView>,
    cfg: &ResolvedConfig,
)
    requires
        commits.len() <= usize::MAX,
        sequential == classified_all(commits, cfg),
        sorted_places(parallel),
        parallel.to_multiset() == classified_all(commits, cfg).to_multiset(),
    ensures
        parallel == sequential,
{
    lemma_places_of_change_set(commits, cfg);
    lemma_sorted_permutation(parallel, sequential);
}

/// The change set of a batch depends on the configuration through the type
/// table and the scope map alone: configurations that agree on these two,
/// whatever their thresholds, yield the same change set.
pub proof fn lemma_threshold_is_irrelevant(
    commits: Seq<RawCommitView>,
    a: &ResolvedConfig,
    b: &ResolvedConfig,
)
    requires
        type_views(a.types@) == type_views(b.types@),
        forall|k: Seq<char>| a.scope_map.lookup(k) == b.scope_map.lookup(k),
    ensures
        classified_all(commits, a) == classified_all(commits, b),
    decreases commits.len(),
{
    if commits.len() > 0 {
        lemma_threshold_is_irrelevant(commits.drop_last(), a, b);
        let last = (commits.len() - 1) as usize;
        assert(processed(last, commits.last(), a) == processed(last, commits.last(), b)) by {
            reveal(processed);
        }
    }
}

} // verus!
