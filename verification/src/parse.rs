//! Classification of parsed commits against the type table, the retention
//! rule, and the dispatch of a whole batch.

use crate::config::{
    find_type, position_of_type, type_views, ResolvedConfig, TextMap, TypeConfigResolved,
    TypeConfigView,
};
use crate::conventional::{
    footer_views, option_view, parse_commit, parse_commit_fast, string_views, ParsedFields,
};
use crate::eco::{held_numbers, held_pairs, held_texts};
use crate::git::{RawCommit, RawCommitView};
use crate::text::{chars_of, has_prefix, lower, lower_of, same_text, starts_with};
use crate::utils::{kept_outcomes, outcomes_of, process_indexed};
use ecow::EcoVec;
use vstd::prelude::*;

verus! {

/// A commit with what was read from it, the entry of the type table that it
/// falls under, and its place in the batch it came in.
#[derive(Debug, Clone)]
pub struct ParsedCommit {
    pub raw: RawCommit,
    pub commit_type: String,
    pub scope: Option<String>,
    pub description: String,
    pub body: String,
    pub footers: EcoVec<(String, String)>,
    pub breaking: bool,
    pub issues: EcoVec<u64>,
    pub co_authors: EcoVec<String>,
    /// The enabled entry of the type table for the commit's type, if any.
    pub type_cfg: Option<TypeConfigResolved>,
    /// Position of the commit in the batch, counted from zero.
    pub index: usize,
}

/// A `ParsedCommit` with its texts as character sequences.
pub struct ParsedCommitView {
    pub raw: RawCommitView,
    pub commit_type: Seq<char>,
    pub scope: Option<Seq<char>>,
    pub description: Seq<char>,
    pub body: Seq<char>,
    pub footers: Seq<(Seq<char>, Seq<char>)>,
    pub breaking: bool,
    pub issues: Seq<u64>,
    pub co_authors: Seq<Seq<char>>,
    pub type_cfg: Option<TypeConfigView>,
    pub index: usize,
}

/// The view of an optional entry of the type table.
pub open spec fn type_cfg_view(entry: Option<TypeConfigResolved>) -> Option<TypeConfigView> {
    match entry {
        Some(t) => Some(t@),
        None => None,
    }
}

impl View for ParsedCommit {
    type V = ParsedCommitView;

    open spec fn view(&self) -> ParsedCommitView {
        ParsedCommitView {
            raw: self.raw@,
            commit_type: self.commit_type@,
            scope: option_view(self.scope),
            description: self.description@,
            body: self.body@,
            footers: footer_views(held_pairs(self.footers)),
            breaking: self.breaking,
            issues: held_numbers(self.issues),
            co_authors: string_views(held_texts(self.co_authors)),
            type_cfg: type_cfg_view(self.type_cfg),
            index: self.index,
        }
    }
}

/// The views of a list of parsed commits.
pub open spec fn commit_views(commits: Seq<ParsedCommit>) -> Seq<ParsedCommitView> {
    Seq::new(commits.len(), |i: int| commits[i]@)
}

/// The views of a list of raw commits.
pub open spec fn raw_views(commits: Seq<RawCommit>) -> Seq<RawCommitView> {
    Seq::new(commits.len(), |i: int| commits[i]@)
}

/// A raw commit as parsed: no entry of the type table yet, and place zero.
pub open spec fn parsed(rc: RawCommitView) -> ParsedCommitView {
    ParsedCommitView {
        raw: rc,
        commit_type: parse_commit(rc.summary, rc.body).commit_type,
        scope: parse_commit(rc.summary, rc.body).scope,
        description: parse_commit(rc.summary, rc.body).description,
        body: parse_commit(rc.summary, rc.body).body,
        footers: parse_commit(rc.summary, rc.body).footers,
        breaking: parse_commit(rc.summary, rc.body).breaking,
        issues: parse_commit(rc.summary, rc.body).issues,
        co_authors: parse_commit(rc.summary, rc.body).co_authors,
        type_cfg: None,
        index: 0,
    }
}

/// The scope after renaming: unchanged where the map does not hold it, gone
/// where the map sends it to the empty text, else what the map sends it to.
pub open spec fn renamed_scope(scope: Option<Seq<char>>, map: &TextMap) -> Option<Seq<char>> {
    match scope {
        None => None,
        Some(s) => match map.lookup(s) {
            None => Some(s),
            Some(to) => if to.len() == 0 {
                None
            } else {
                Some(to)
            },
        },
    }
}

/// The entry attached to a commit of type `key`: the first entry for that
/// type where it is enabled, else what was attached before.
pub open spec fn resolved_type(
    types: Seq<TypeConfigView>,
    key: Seq<char>,
    before: Option<TypeConfigView>,
) -> Option<TypeConfigView> {
    match find_type(types, key) {
        Some(t) => if t.enabled {
            Some(t)
        } else {
            before
        },
        None => before,
    }
}

/// A commit after classification: its scope renamed, its entry attached.
pub open spec fn classified(pc: ParsedCommitView, cfg: &ResolvedConfig) -> ParsedCommitView {
    ParsedCommitView {
        raw: pc.raw,
        commit_type: pc.commit_type,
        scope: renamed_scope(pc.scope, &cfg.scope_map),
        description: pc.description,
        body: pc.body,
        footers: pc.footers,
        breaking: pc.breaking,
        issues: pc.issues,
        co_authors: pc.co_authors,
        type_cfg: resolved_type(type_views(cfg.types@), pc.commit_type, pc.type_cfg),
        index: pc.index,
    }
}

/// A chore that does not break anything and whose header, as it was written,
/// begins with `chore(deps` in any case of letters.
pub open spec fn is_dependency_chore(pc: ParsedCommitView) -> bool {
    pc.commit_type == "chore"@ && !pc.breaking && starts_with(
        lower(pc.raw.summary),
        "chore(deps"@,
    )
}

/// Whether a commit stays in the change set: its attached entry is not
/// disabled, and it is no dependency chore.
pub open spec fn kept(pc: ParsedCommitView) -> bool {
    !(pc.type_cfg is Some && !pc.type_cfg->0.enabled) && !is_dependency_chore(pc)
}

/// The commit at place `index` of a batch, parsed and classified.
#[verifier::opaque]
pub open spec fn processed(index: usize, rc: RawCommitView, cfg: &ResolvedConfig)
    -> ParsedCommitView {
    classified(
        ParsedCommitView {
            raw: parsed(rc).raw,
            commit_type: parsed(rc).commit_type,
            scope: parsed(rc).scope,
            description: parsed(rc).description,
            body: parsed(rc).body,
            footers: parsed(rc).footers,
            breaking: parsed(rc).breaking,
            issues: parsed(rc).issues,
            co_authors: parsed(rc).co_authors,
            type_cfg: parsed(rc).type_cfg,
            index,
        },
        cfg,
    )
}

/// The change set of a batch: each commit parsed and classified with its
/// place in the batch, those that are kept, in the order of the batch.
pub open spec fn classified_all(commits: Seq<RawCommitView>, cfg: &ResolvedConfig) -> Seq<
    ParsedCommitView,
>
    decreases commits.len(),
{
    if commits.len() == 0 {
        Seq::empty()
    } else if kept(processed((commits.len() - 1) as usize, commits.last(), cfg)) {
        classified_all(commits.drop_last(), cfg).push(
            processed((commits.len() - 1) as usize, commits.last(), cfg),
        )
    } else {
        classified_all(commits.drop_last(), cfg)
    }
}

/// Parses one raw commit. No entry of the type table is attached yet, and the
/// place is zero.
pub fn parse_one(rc: &RawCommit) -> (r: ParsedCommit)
    ensures
        r@ == parsed(rc@),
{
    let fields = parse_commit_fast(rc);
    let ParsedFields {
        commit_type,
        scope,
        description,
        body,
        footers,
        breaking,
        issues,
        co_authors,
    } = fields;
    ParsedCommit {
        raw: rc.clone(),
        commit_type,
        scope,
        description,
        body,
        footers,
        breaking,
        issues,
        co_authors,
        type_cfg: None,
        index: 0,
    }
}

/// The scope after renaming by `map`.
fn rename_scope(scope: Option<String>, map: &TextMap) -> (r: Option<String>)
    ensures
        option_view(r) == renamed_scope(option_view(scope), map),
{
    match scope {
        None => None,
        Some(s) => {
            match map.get(s.as_str()) {
                None => Some(s),
                Some(to) => {
                    if to.as_str().is_empty() {
                        None
                    } else {
                        Some(to.clone())
                    }
                },
            }
        },
    }
}

/// Renames the scope of a commit by the scope map and attaches the enabled
/// entry of the type table for its type.
pub fn classify(pc: &mut ParsedCommit, cfg: &ResolvedConfig)
    ensures
        final(pc)@ == classified(old(pc)@, cfg),
{
    let mut scope: Option<String> = None;
    std::mem::swap(&mut scope, &mut pc.scope);
    pc.scope = rename_scope(scope, &cfg.scope_map);
    let key = chars_of(pc.commit_type.as_str());
    match position_of_type(&cfg.types, key.as_slice()) {
        Some(i) => {
            assert(type_views(cfg.types@)[i as int] == cfg.types@[i as int]@);
            if cfg.types[i].enabled {
                pc.type_cfg = Some(cfg.types[i].clone());
            }
        },
        None => {},
    }
}

/// Whether a classified commit stays in the change set.
pub fn should_keep(pc: &ParsedCommit) -> (r: bool)
    ensures
        r == kept(pc@),
{
    match &pc.type_cfg {
        Some(tc) => {
            if !tc.enabled {
                return false;
            }
        },
        None => {},
    }
    if same_text(pc.commit_type.as_str(), "chore") && !pc.breaking {
        let summary = chars_of(pc.raw.summary.as_str());
        let folded = lower_of(summary.as_slice());
        let prefix = chars_of("chore(deps");
        if has_prefix(folded.as_slice(), prefix.as_slice()) {
            return false;
        }
    }
    true
}

/// Parses and classifies the commit at place `index` of a batch.
pub fn classify_one(index: usize, rc: &RawCommit, cfg: &ResolvedConfig) -> (r: ParsedCommit)
    ensures
        r@ == processed(index, rc@, cfg),
{
    let mut p = parse_one(rc);
    p.index = index;
    classify(&mut p, cfg);
    proof {
        reveal(processed);
    }
    p
}

/// The view of an optional commit.
pub open spec fn commit_option_view(c: Option<ParsedCommit>) -> Option<ParsedCommitView> {
    match c {
        Some(p) => Some(p@),
        None => None,
    }
}

/// The outcome of processing the commit at place `index`: the commit parsed
/// and classified where it is kept, nothing where it is not.
pub open spec fn outcome_at(index: usize, rc: RawCommitView, cfg: &ResolvedConfig) -> Option<
    ParsedCommitView,
> {
    if kept(processed(index, rc, cfg)) {
        Some(processed(index, rc, cfg))
    } else {
        None
    }
}

/// Parses and classifies the commit at place `index`, and hands it on where
/// it is kept.
pub fn keep_one(index: usize, rc: &RawCommit, cfg: &ResolvedConfig) -> (r: Option<ParsedCommit>)
    ensures
        commit_option_view(r) == outcome_at(index, rc@, cfg),
{
    let p = classify_one(index, rc, cfg);
    if should_keep(&p) {
        Some(p)
    } else {
        None
    }
}

/// What is kept of outcomes that are those of the commits of a batch is the
/// change set of the batch.
proof fn lemma_kept_outcomes(
    commits: Seq<RawCommit>,
    outcomes: Seq<Option<ParsedCommit>>,
    cfg: &ResolvedConfig,
)
    requires
        commits.len() <= usize::MAX,
        outcomes.len() == commits.len(),
        forall|i: int|
            0 <= i < commits.len() ==> commit_option_view(#[trigger] outcomes[i]) == outcome_at(
                i as usize,
                commits[i]@,
                cfg,
            ),
    ensures
        commit_views(kept_outcomes(outcomes)) == classified_all(raw_views(commits), cfg),
    decreases commits.len(),
{
    if commits.len() > 0 {
        let fewer = commits.drop_last();
        let before = outcomes.drop_last();
        assert forall|i: int| 0 <= i < fewer.len() implies commit_option_view(#[trigger] before[i])
            == outcome_at(i as usize, fewer[i]@, cfg) by {
            assert(before[i] == outcomes[i]);
            assert(fewer[i] == commits[i]);
        }
        lemma_kept_outcomes(fewer, before, cfg);
        assert(raw_views(commits).drop_last() == raw_views(fewer));
        assert(raw_views(commits).last() == commits.last()@);
        let last = outcomes[outcomes.len() - 1];
        assert(commit_option_view(last) == outcome_at(
            (commits.len() - 1) as usize,
            commits[commits.len() - 1]@,
            cfg,
        ));
        match last {
            Some(p) => {
                assert(commit_views(kept_outcomes(before).push(p)) == commit_views(
                    kept_outcomes(before),
                ).push(p@));
            },
            None => {},
        }
    } else {
        assert(commit_views(kept_outcomes(outcomes)) == Seq::<ParsedCommitView>::empty());
    }
}

/// Parses and classifies a batch one commit after the other.
pub fn parse_and_classify_sequential(commits: &[RawCommit], cfg: &ResolvedConfig) -> (r: Vec<
    ParsedCommit,
>)
    ensures
        commit_views(r@) == classified_all(raw_views(commits@), cfg),
{
    let size = commits.len();
    let process = |index: usize, rc: &RawCommit| -> (r: Option<ParsedCommit>)
        ensures
            commit_option_view(r) == outcome_at(index, rc@, cfg),
        { keep_one(index, rc, cfg) };
    let out = process_indexed(commits, process);
    proof {
        let outcomes = choose|outcomes: Seq<Option<ParsedCommit>>|
            outcomes_of(process, commits@, outcomes) && out@ == kept_outcomes(outcomes);
        assert forall|i: int| 0 <= i < commits@.len() implies commit_option_view(
            #[trigger] outcomes[i],
        ) == outcome_at(i as usize, commits@[i]@, cfg) by {
            assert(call_ensures(process, (i as usize, &commits@[i]), outcomes[i]));
        }
        lemma_kept_outcomes(commits@, outcomes, cfg);
    }
    out
}

} // verus!
