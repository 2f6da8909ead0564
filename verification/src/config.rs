//! The resolved configuration that classification reads: the table of commit
//! types and the map that renames scopes.

use crate::bump::BumpKind;
use crate::repository::Repository;
use ecow::EcoVec;
use crate::text::{chars_of, same_chars, same_text, string_of};
use crate::version::Version;
use vstd::prelude::*;

verus! {

/// What a commit of some type means for the version number.
#[derive(Debug, Clone, Copy, PartialEq, Eq, Structural)]
pub enum SemverImpact {
    Major,
    Minor,
    Patch,
    Unchanged,
}

impl SemverImpact {
    /// The bump that this impact asks for.
    pub open spec fn bump(self) -> BumpKind {
        match self {
            SemverImpact::Major => BumpKind::Major,
            SemverImpact::Minor => BumpKind::Minor,
            SemverImpact::Patch => BumpKind::Patch,
            SemverImpact::Unchanged => BumpKind::Unchanged,
        }
    }

    /// The impact that `s` names, if it names one.
    pub open spec fn named(s: Seq<char>) -> Option<SemverImpact> {
        if s == "major"@ {
            Some(SemverImpact::Major)
        } else if s == "minor"@ {
            Some(SemverImpact::Minor)
        } else if s == "patch"@ {
            Some(SemverImpact::Patch)
        } else if s == "none"@ {
            Some(SemverImpact::Unchanged)
        } else {
            None
        }
    }

    /// Reads an impact from its name: `major`, `minor`, `patch` or `none`.
    pub fn from_str(s: &str) -> (r: Option<SemverImpact>)
        ensures
            r == Self::named(s@),
    {
        if same_text(s, "major") {
            Some(SemverImpact::Major)
        } else if same_text(s, "minor") {
            Some(SemverImpact::Minor)
        } else if same_text(s, "patch") {
            Some(SemverImpact::Patch)
        } else if same_text(s, "none") {
            Some(SemverImpact::Unchanged)
        } else {
            None
        }
    }

    /// The bump that this impact asks for.
    pub fn to_bump(self) -> (r: BumpKind)
        ensures
            r == self.bump(),
    {
        match self {
            SemverImpact::Major => BumpKind::Major,
            SemverImpact::Minor => BumpKind::Minor,
            SemverImpact::Patch => BumpKind::Patch,
            SemverImpact::Unchanged => BumpKind::Unchanged,
        }
    }
}

/// One entry of the type table.
#[derive(Debug)]
pub struct TypeConfigResolved {
    /// The type that the entry is for, such as `feat` or `fix`.
    pub key: String,
    /// Title of the section that lists commits of this type.
    pub title: String,
    pub emoji: String,
    pub semver: SemverImpact,
    /// Whether commits of this type are shown.
    pub enabled: bool,
}

/// A `TypeConfigResolved` with its texts as character sequences.
pub struct TypeConfigView {
    pub key: Seq<char>,
    pub title: Seq<char>,
    pub emoji: Seq<char>,
    pub semver: SemverImpact,
    pub enabled: bool,
}

impl View for TypeConfigResolved {
    type V = TypeConfigView;

    open spec fn view(&self) -> TypeConfigView {
        TypeConfigView {
            key: self.key@,
            title: self.title@,
            emoji: self.emoji@,
            semver: self.semver,
            enabled: self.enabled,
        }
    }
}

impl Clone for TypeConfigResolved {
    fn clone(&self) -> (r: Self)
        ensures
            r == *self,
    {
        TypeConfigResolved {
            key: self.key.clone(),
            title: self.title.clone(),
            emoji: self.emoji.clone(),
            semver: self.semver,
            enabled: self.enabled,
        }
    }
}

/// The views of the entries of a type table.
pub open spec fn type_views(types: Seq<TypeConfigResolved>) -> Seq<TypeConfigView> {
    Seq::new(types.len(), |i: int| types[i]@)
}

/// Index of the first entry for `key`, or the table's length.
pub open spec fn type_index(types: Seq<TypeConfigView>, key: Seq<char>) -> int
    decreases types.len(),
{
    if types.len() == 0 {
        0
    } else if types[0].key == key {
        0
    } else {
        1 + type_index(types.drop_first(), key)
    }
}

/// The first entry for `key`, if the table has one.
pub open spec fn find_type(types: Seq<TypeConfigView>, key: Seq<char>) -> Option<TypeConfigView> {
    if 0 <= type_index(types, key) < types.len() {
        Some(types[type_index(types, key)])
    } else {
        None
    }
}

/// `type_index` is the one position of a first entry for `key`.
pub proof fn lemma_type_index_is(types: Seq<TypeConfigView>, key: Seq<char>, k: int)
    requires
        0 <= k <= types.len(),
        forall|i: int| 0 <= i < k ==> (#[trigger] types[i]).key != key,
        k < types.len() ==> types[k].key == key,
    ensures
        type_index(types, key) == k,
    decreases types.len(),
{
    if k > 0 {
        let rest = types.drop_first();
        assert forall|i: int| 0 <= i < k - 1 implies (#[trigger] rest[i]).key != key by {
            assert(rest[i] == types[i + 1]);
        }
        lemma_type_index_is(rest, key, k - 1);
    }
}

/// Index of the first entry for `key` in `types`, if there is one.
pub fn position_of_type(types: &Vec<TypeConfigResolved>, key: &[char]) -> (r: Option<usize>)
    ensures
        match r {
            Some(i) => i < types@.len() && i == type_index(type_views(types@), key@),
            None => type_index(type_views(types@), key@) >= types@.len(),
        },
{
    let ghost views = type_views(types@);
    let mut i: usize = 0;
    while i < types.len()
        invariant
            i <= types@.len(),
            views == type_views(types@),
            forall|j: int| 0 <= j < i ==> (#[trigger] views[j]).key != key@,
        decreases types@.len() - i,
    {
        let entry_key = chars_of(types[i].key.as_str());
        if same_chars(entry_key.as_slice(), key) {
            proof {
                assert(views[i as int].key == key@);
                lemma_type_index_is(views, key@, i as int);
            }
            return Some(i);
        }
        assert(views[i as int].key != key@);
        i += 1;
    }
    proof {
        lemma_type_index_is(views, key@, i as int);
    }
    None
}

/// A map from text to text, such as the one that renames scopes. No text is
/// mapped twice.
#[derive(Debug)]
pub struct TextMap {
    entries: Vec<(String, String)>,
}

/// What the first pair for `key` maps it to.
pub open spec fn assoc(entries: Seq<(Seq<char>, Seq<char>)>, key: Seq<char>) -> Option<Seq<char>>
    decreases entries.len(),
{
    if entries.len() == 0 {
        None
    } else if entries[0].0 == key {
        Some(entries[0].1)
    } else {
        assoc(entries.drop_first(), key)
    }
}

/// No two pairs have the same key.
pub open spec fn distinct_keys(entries: Seq<(Seq<char>, Seq<char>)>) -> bool {
    forall|i: int, j: int|
        0 <= i < j < entries.len() ==> (#[trigger] entries[i]).0 != (#[trigger] entries[j]).0
}

/// Where no pair before `k` is for `key`, the map does what the pairs from `k`
/// on do.
proof fn lemma_assoc_skip(entries: Seq<(Seq<char>, Seq<char>)>, key: Seq<char>, k: int)
    requires
        0 <= k <= entries.len(),
        forall|i: int| 0 <= i < k ==> (#[trigger] entries[i]).0 != key,
    ensures
        assoc(entries, key) == assoc(entries.skip(k), key),
    decreases k,
{
    if k > 0 {
        let rest = entries.drop_first();
        assert forall|i: int| 0 <= i < k - 1 implies (#[trigger] rest[i]).0 != key by {
            assert(rest[i] == entries[i + 1]);
        }
        lemma_assoc_skip(rest, key, k - 1);
        assert(rest.skip(k - 1) == entries.skip(k));
    } else {
        assert(entries.skip(0) == entries);
    }
}

impl TextMap {
    /// The pairs of the map as character sequences.
    pub closed spec fn pairs(&self) -> Seq<(Seq<char>, Seq<char>)> {
        Seq::new(self.entries@.len(), |i: int| (self.entries@[i].0@, self.entries@[i].1@))
    }

    /// No text is mapped twice.
    pub closed spec fn wf(&self) -> bool {
        distinct_keys(self.pairs())
    }

    /// What the map sends `key` to, if it holds it.
    pub closed spec fn lookup(&self, key: Seq<char>) -> Option<Seq<char>> {
        assoc(self.pairs(), key)
    }

    /// Number of texts that the map holds.
    pub closed spec fn size(&self) -> nat {
        self.entries@.len()
    }

    /// The map that holds nothing.
    pub fn new() -> (r: TextMap)
        ensures
            r.wf(),
            r.size() == 0,
            forall|k: Seq<char>| r.lookup(k) is None,
    {
        TextMap { entries: Vec::new() }
    }

    /// Number of texts that the map holds.
    pub fn len(&self) -> (r: usize)
        ensures
            r == self.size(),
    {
        self.entries.len()
    }

    /// Whether the map holds nothing.
    pub fn is_empty(&self) -> (r: bool)
        ensures
            r == (self.size() == 0),
    {
        self.entries.len() == 0
    }

    /// Index of the pair for `key`, or the number of pairs.
    fn position(&self, key: &[char]) -> (r: usize)
        ensures
            r <= self.pairs().len(),
            forall|i: int| 0 <= i < r ==> (#[trigger] self.pairs()[i]).0 != key@,
            r < self.pairs().len() ==> self.pairs()[r as int].0 == key@,
            self.pairs().len() == self.entries@.len(),
    {
        let mut i: usize = 0;
        while i < self.entries.len()
            invariant
                i <= self.entries@.len(),
                self.pairs().len() == self.entries@.len(),
                forall|j: int| 0 <= j < i ==> (#[trigger] self.pairs()[j]).0 != key@,
            decreases self.entries@.len() - i,
        {
            let entry_key = chars_of(self.entries[i].0.as_str());
            if same_chars(entry_key.as_slice(), key) {
                assert(self.pairs()[i as int].0 == key@);
                return i;
            }
            assert(self.pairs()[i as int].0 != key@);
            i += 1;
        }
        i
    }

    /// What the map sends `key` to, if it holds it.
    pub fn get(&self, key: &str) -> (r: Option<&String>)
        ensures
            match r {
                Some(v) => self.lookup(key@) == Some(v@),
                None => self.lookup(key@) is None,
            },
    {
        let chars = chars_of(key);
        self.get_chars(chars.as_slice())
    }

    /// What the map sends the text of `key` to, if it holds it.
    pub fn get_chars(&self, key: &[char]) -> (r: Option<&String>)
        ensures
            match r {
                Some(v) => self.lookup(key@) == Some(v@),
                None => self.lookup(key@) is None,
            },
    {
        let i = self.position(key);
        proof {
            lemma_assoc_skip(self.pairs(), key@, i as int);
            if i < self.pairs().len() {
                assert(self.pairs().skip(i as int)[0] == self.pairs()[i as int]);
            }
        }
        if i < self.entries.len() {
            Some(&self.entries[i].1)
        } else {
            None
        }
    }

    /// Makes the map send `key` to `value`, whatever it sent it to before.
    pub fn insert(&mut self, key: &str, value: &str)
        requires
            old(self).wf(),
        ensures
            final(self).wf(),
            final(self).lookup(key@) == Some(value@),
            forall|k: Seq<char>| k != key@ ==> final(self).lookup(k) == old(self).lookup(k),
            final(self).size() == old(self).size() + (if old(self).lookup(key@) is None {
                1nat
            } else {
                0nat
            }),
    {
        let chars = chars_of(key);
        let i = self.position(chars.as_slice());
        let ghost before = self.pairs();
        let pair = (string_of(chars.as_slice()), string_of(chars_of(value).as_slice()));
        proof {
            lemma_assoc_skip(before, key@, i as int);
            if i < before.len() {
                assert(before.skip(i as int)[0] == before[i as int]);
            }
        }
        if i < self.entries.len() {
            self.entries.set(i, pair);
            proof {
                let after = self.pairs();
                assert(after =~= before.update(i as int, (key@, value@)));
                lemma_assoc_skip(after, key@, i as int);
                assert(after.skip(i as int)[0] == after[i as int]);
                assert forall|k: Seq<char>| k != key@ implies assoc(after, k) == assoc(
                    before,
                    k,
                ) by {
                    lemma_assoc_update(before, i as int, value@, k);
                }
            }
        } else {
            self.entries.push(pair);
            proof {
                let after = self.pairs();
                assert(after =~= before.push((key@, value@)));
                lemma_assoc_skip(after, key@, i as int);
                assert(after.skip(i as int)[0] == after[i as int]);
                assert forall|k: Seq<char>| k != key@ implies assoc(after, k) == assoc(
                    before,
                    k,
                ) by {
                    lemma_assoc_push(before, (key@, value@), k);
                }
            }
        }
    }
}

impl Default for TextMap {
    fn default() -> (r: TextMap)
        ensures
            r.wf(),
            r.size() == 0,
            forall|k: Seq<char>| r.lookup(k) is None,
    {
        TextMap::new()
    }
}

/// A new value for one key leaves what the other keys are mapped to.
proof fn lemma_assoc_update(
    entries: Seq<(Seq<char>, Seq<char>)>,
    i: int,
    value: Seq<char>,
    k: Seq<char>,
)
    requires
        0 <= i < entries.len(),
        k != entries[i].0,
    ensures
        assoc(entries.update(i, (entries[i].0, value)), k) == assoc(entries, k),
    decreases entries.len(),
{
    let after = entries.update(i, (entries[i].0, value));
    if i == 0 {
        assert(after.drop_first() == entries.drop_first());
    } else {
        assert(after[0] == entries[0]);
        let rest = entries.drop_first();
        assert(rest[i - 1] == entries[i]);
        lemma_assoc_update(rest, i - 1, value, k);
        assert(after.drop_first() == rest.update(i - 1, (rest[i - 1].0, value)));
    }
}

/// A pair for another key at the end leaves what a key is mapped to.
proof fn lemma_assoc_push(
    entries: Seq<(Seq<char>, Seq<char>)>,
    pair: (Seq<char>, Seq<char>),
    k: Seq<char>,
)
    requires
        k != pair.0,
    ensures
        assoc(entries.push(pair), k) == assoc(entries, k),
    decreases entries.len(),
{
    let after = entries.push(pair);
    if entries.len() == 0 {
        assert(after.drop_first() == entries);
    } else {
        assert(after[0] == entries[0]);
        assert(after.drop_first() == entries.drop_first().push(pair));
        lemma_assoc_push(entries.drop_first(), pair, k);
    }
}

/// The configuration after all its sources were merged.
#[derive(Debug)]
pub struct ResolvedConfig {
    /// Scopes to rename; the empty text as target removes the scope.
    pub scope_map: TextMap,
    /// The type table, in the order in which sections are shown.
    pub types: Vec<TypeConfigResolved>,
    pub new_version: Option<Version>,
    pub warnings: EcoVec<String>,
    pub github_token: Option<String>,
    pub cwd: String,
    pub source_file: Option<String>,
    /// The hosted repository, where the remote names one.
    pub repo: Option<Repository>,
    /// Number of commits from which a batch is processed in parallel.
    pub parallel_threshold: usize,
}

/// Number of commits from which a batch is processed in parallel unless the
/// configuration says otherwise.
pub const DEFAULT_PARALLEL_THRESHOLD: usize = 50;

/// One entry of the built-in type table.
pub open spec fn default_entry(
    key: Seq<char>,
    title: Seq<char>,
    emoji: Seq<char>,
    semver: SemverImpact,
) -> TypeConfigView {
    TypeConfigView { key, title, emoji, semver, enabled: true }
}

/// The built-in type table.
pub open spec fn default_type_table() -> Seq<TypeConfigView> {
    seq![
        default_entry("feat"@, "Features"@, "\u{2728}"@, SemverImpact::Minor),
        default_entry("fix"@, "Bug Fixes"@, "\u{1F41E}"@, SemverImpact::Patch),
        default_entry("perf"@, "Performance"@, "\u{26A1}\u{FE0F}"@, SemverImpact::Patch),
        default_entry("docs"@, "Documentation"@, "\u{1F4DA}"@, SemverImpact::Unchanged),
        default_entry("refactor"@, "Refactors"@, "\u{1F6E0}"@, SemverImpact::Patch),
        default_entry("style"@, "Styles"@, "\u{1F3A8}"@, SemverImpact::Unchanged),
        default_entry("test"@, "Tests"@, "\u{1F9EA}"@, SemverImpact::Unchanged),
        default_entry("build"@, "Build System"@, "\u{1F4E6}"@, SemverImpact::Unchanged),
        default_entry("ci"@, "Continuous Integration"@, "\u{1F477}"@, SemverImpact::Unchanged),
        default_entry("chore"@, "Chores"@, "\u{1F9F9}"@, SemverImpact::Unchanged),
        default_entry("revert"@, "Reverts"@, "\u{23EA}"@, SemverImpact::Patch),
    ]
}

/// An enabled entry of the type table.
fn enabled_type(key: &str, title: &str, emoji: &str, semver: SemverImpact) -> (r:
    TypeConfigResolved)
    ensures
        r@ == default_entry(key@, title@, emoji@, semver),
{
    TypeConfigResolved {
        key: key.to_owned(),
        title: title.to_owned(),
        emoji: emoji.to_owned(),
        semver,
        enabled: true,
    }
}

/// The built-in type table: eleven types, all enabled, in the order in which
/// their sections are shown.
pub fn default_types() -> (r: Vec<TypeConfigResolved>)
    ensures
        type_views(r@) == default_type_table(),
{
    let mut out: Vec<TypeConfigResolved> = Vec::new();
    out.push(enabled_type("feat", "Features", "\u{2728}", SemverImpact::Minor));
    out.push(enabled_type("fix", "Bug Fixes", "\u{1F41E}", SemverImpact::Patch));
    out.push(enabled_type("perf", "Performance", "\u{26A1}\u{FE0F}", SemverImpact::Patch));
    out.push(enabled_type("docs", "Documentation", "\u{1F4DA}", SemverImpact::Unchanged));
    out.push(enabled_type("refactor", "Refactors", "\u{1F6E0}", SemverImpact::Patch));
    out.push(enabled_type("style", "Styles", "\u{1F3A8}", SemverImpact::Unchanged));
    out.push(enabled_type("test", "Tests", "\u{1F9EA}", SemverImpact::Unchanged));
    out.push(enabled_type("build", "Build System", "\u{1F4E6}", SemverImpact::Unchanged));
    out.push(enabled_type("ci", "Continuous Integration", "\u{1F477}", SemverImpact::Unchanged));
    out.push(enabled_type("chore", "Chores", "\u{1F9F9}", SemverImpact::Unchanged));
    out.push(enabled_type("revert", "Reverts", "\u{23EA}", SemverImpact::Patch));
    assert(type_views(out@) =~= default_type_table());
    out
}

/// What a configuration file says of one commit type.
#[derive(Debug)]
pub struct TypeConfigPartial {
    pub title: Option<String>,
    pub emoji: Option<String>,
    /// `major`, `minor`, `patch` or `none`.
    pub semver: Option<String>,
}

/// An entry of a configuration file for a commit type: a switch, of which
/// only `false` says anything, or a partial configuration.
#[derive(Debug)]
pub enum TypeToggleOrConfig {
    Disabled(bool),
    Config(TypeConfigPartial),
}

/// One layer of configuration as it was read, before merging.
#[derive(Debug)]
pub struct RawConfig {
    pub new_version: Option<String>,
    /// What the layer says of commit types, in the order of the keys.
    pub types_override: Option<Vec<(String, TypeToggleOrConfig)>>,
    /// The scopes that the layer renames, in the order of the keys.
    pub scope_map: Option<Vec<(String, String)>>,
    pub hide_author_email: Option<bool>,
    pub no_authors: Option<bool>,
    /// The keys of the layer that the configuration does not know.
    pub unknown: Vec<String>,
}

impl RawConfig {
    /// A layer that says nothing.
    pub fn new() -> (r: RawConfig)
        ensures
            r.new_version is None,
            r.types_override is None,
            r.scope_map is None,
            r.hide_author_email is None,
            r.no_authors is None,
            r.unknown@.len() == 0,
    {
        RawConfig {
            new_version: None,
            types_override: None,
            scope_map: None,
            hide_author_email: None,
            no_authors: None,
            unknown: Vec::new(),
        }
    }
}

/// Where to look for configuration, and what the command line overrides.
#[derive(Debug)]
pub struct LoadOptions {
    pub cwd: String,
    pub cli_overrides: Option<RawConfig>,
}

} // verus!
