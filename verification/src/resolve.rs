//! Merging of the layers of configuration into the resolved configuration.

use crate::config::{
    default_type_table, default_types, position_of_type, type_index, type_views, RawConfig,
    ResolvedConfig, TextMap, SemverImpact, TypeConfigPartial, TypeConfigResolved,
    TypeConfigView, TypeToggleOrConfig,
};
use crate::conventional::{option_view, string_views};
use crate::eco::{held_texts, texts_from, texts_in};
use crate::infer::version_option_view;
use crate::repository::{parse_remote, Repository, RepositoryView};
use crate::text::{chars_of, push_text, string_of};
use crate::version::{semver_parse, Version, VersionView};
use ecow::EcoVec;
use vstd::prelude::*;

verus! {

/// The text, or `fallback` where there is none.
pub open spec fn text_or(text: Option<String>, fallback: Seq<char>) -> Seq<char> {
    match text {
        Some(t) => t@,
        None => fallback,
    }
}

/// The impact that a partial configuration names, or `fallback` where it
/// names none.
pub open spec fn impact_or(part: &TypeConfigPartial, fallback: SemverImpact) -> SemverImpact {
    match part.semver {
        Some(s) => match SemverImpact::named(s@) {
            Some(impact) => impact,
            None => fallback,
        },
        None => fallback,
    }
}

/// The type table after one entry of a layer. `false` disables the type, on
/// a new entry at the end where the table did not have it. `true` says
/// nothing. A
/// partial configuration enables the type and sets what it names, on the
/// entry that the table has or on a new one at the end.
pub open spec fn apply_override(
    types: Seq<TypeConfigView>,
    key: Seq<char>,
    entry: &TypeToggleOrConfig,
) -> Seq<TypeConfigView> {
    let i = type_index(types, key);
    match entry {
        TypeToggleOrConfig::Disabled(on) => if *on {
            types
        } else if 0 <= i < types.len() {
            types.update(
                i,
                TypeConfigView {
                    key: types[i].key,
                    title: types[i].title,
                    emoji: types[i].emoji,
                    semver: types[i].semver,
                    enabled: false,
                },
            )
        } else {
            types.push(
                TypeConfigView {
                    key,
                    title: key,
                    emoji: Seq::empty(),
                    semver: SemverImpact::Unchanged,
                    enabled: false,
                },
            )
        },
        TypeToggleOrConfig::Config(part) => if 0 <= i < types.len() {
            types.update(
                i,
                TypeConfigView {
                    key: types[i].key,
                    title: text_or(part.title, types[i].title),
                    emoji: text_or(part.emoji, types[i].emoji),
                    semver: impact_or(part, types[i].semver),
                    enabled: true,
                },
            )
        } else {
            types.push(
                TypeConfigView {
                    key,
                    title: text_or(part.title, key),
                    emoji: text_or(part.emoji, Seq::empty()),
                    semver: impact_or(part, SemverImpact::Unchanged),
                    enabled: true,
                },
            )
        },
    }
}

/// The type table after the entries of one layer, in their order.
pub open spec fn apply_overrides(
    types: Seq<TypeConfigView>,
    entries: Seq<(String, TypeToggleOrConfig)>,
) -> Seq<TypeConfigView>
    decreases entries.len(),
{
    if entries.len() == 0 {
        types
    } else {
        apply_override(
            apply_overrides(types, entries.drop_last()),
            entries.last().0@,
            &entries.last().1,
        )
    }
}

/// The type table after one layer.
pub open spec fn apply_layer(types: Seq<TypeConfigView>, layer: &RawConfig) -> Seq<
    TypeConfigView,
> {
    match layer.types_override {
        Some(entries) => apply_overrides(types, entries@),
        None => types,
    }
}

/// The type table after all layers, from the built-in table.
pub open spec fn merged_types(layers: Seq<RawConfig>) -> Seq<TypeConfigView>
    decreases layers.len(),
{
    if layers.len() == 0 {
        default_type_table()
    } else {
        apply_layer(merged_types(layers.drop_last()), &layers.last())
    }
}

/// The version that the layers ask for: what the last layer with a readable
/// version writes.
pub open spec fn merged_version(layers: Seq<RawConfig>) -> Option<VersionView>
    decreases layers.len(),
{
    if layers.len() == 0 {
        None
    } else {
        match layers.last().new_version {
            Some(text) => match semver_parse(text@) {
                Ok(v) => Some(v),
                Err(_) => merged_version(layers.drop_last()),
            },
            None => merged_version(layers.drop_last()),
        }
    }
}

/// The warning for a version that cannot be read.
pub open spec fn version_warning(text: Seq<char>, reason: Seq<char>) -> Seq<char> {
    "Invalid new_version '"@ + text + "': "@ + reason
}

/// The warnings for the versions of the layers that cannot be read.
pub open spec fn version_warnings(layers: Seq<RawConfig>) -> Seq<Seq<char>>
    decreases layers.len(),
{
    if layers.len() == 0 {
        Seq::empty()
    } else {
        match layers.last().new_version {
            Some(text) => match semver_parse(text@) {
                Ok(_) => version_warnings(layers.drop_last()),
                Err(reason) => version_warnings(layers.drop_last()).push(
                    version_warning(text@, reason),
                ),
            },
            None => version_warnings(layers.drop_last()),
        }
    }
}

/// The warnings for the keys of one layer that are not known.
pub open spec fn unknown_key_warnings(keys: Seq<String>) -> Seq<Seq<char>> {
    Seq::new(keys.len(), |i: int| "Unknown config key: "@ + keys[i]@)
}

/// The warnings for the unknown keys of all layers.
pub open spec fn unknown_warnings(layers: Seq<RawConfig>) -> Seq<Seq<char>>
    decreases layers.len(),
{
    if layers.len() == 0 {
        Seq::empty()
    } else {
        unknown_warnings(layers.drop_last()) + unknown_key_warnings(layers.last().unknown@)
    }
}

/// The warning for a remote that names no repository, if there is a remote
/// and it names none.
pub open spec fn remote_warnings(remote: Option<Seq<char>>) -> Seq<Seq<char>> {
    match remote {
        Some(url) => if parse_remote(url) is None {
            seq!["Unrecognized remote URL format: "@ + url]
        } else {
            Seq::empty()
        },
        None => Seq::empty(),
    }
}

/// The repository that the remote names, if there is a remote and it names
/// one.
pub open spec fn remote_repository(remote: Option<Seq<char>>) -> Option<RepositoryView> {
    match remote {
        Some(url) => parse_remote(url),
        None => None,
    }
}

/// What the last of the pairs for `key` maps it to.
pub open spec fn last_assoc(pairs: Seq<(String, String)>, key: Seq<char>) -> Option<Seq<char>>
    decreases pairs.len(),
{
    if pairs.len() == 0 {
        None
    } else if pairs.last().0@ == key {
        Some(pairs.last().1@)
    } else {
        last_assoc(pairs.drop_last(), key)
    }
}

/// What one layer does to where a scope is sent: its own word where it has
/// one, else what was said before.
pub open spec fn layer_scope(before: Option<Seq<char>>, layer: &RawConfig, key: Seq<char>)
    -> Option<Seq<char>> {
    match layer.scope_map {
        Some(pairs) => match last_assoc(pairs@, key) {
            Some(to) => Some(to),
            None => before,
        },
        None => before,
    }
}

/// Where the layers send a scope: later layers override earlier ones.
pub open spec fn merged_scope(layers: Seq<RawConfig>, key: Seq<char>) -> Option<Seq<char>>
    decreases layers.len(),
{
    if layers.len() == 0 {
        None
    } else {
        layer_scope(merged_scope(layers.drop_last(), key), &layers.last(), key)
    }
}

/// The view of an optional repository.
pub open spec fn repo_view(repo: Option<Repository>) -> Option<RepositoryView> {
    match repo {
        Some(r) => Some(r@),
        None => None,
    }
}

/// A copy of an optional text, or of the fallback.
fn text_or_else(text: &Option<String>, fallback: &String) -> (r: String)
    ensures
        r@ == text_or(*text, fallback@),
{
    match text {
        Some(t) => t.clone(),
        None => fallback.clone(),
    }
}

/// The impact that a partial configuration names, or the fallback.
fn impact_or_else(part: &TypeConfigPartial, fallback: SemverImpact) -> (r: SemverImpact)
    ensures
        r == impact_or(part, fallback),
{
    match &part.semver {
        Some(s) => match SemverImpact::from_str(s.as_str()) {
            Some(impact) => impact,
            None => fallback,
        },
        None => fallback,
    }
}

/// Applies one entry of a layer to the type table.
fn override_type(types: &mut Vec<TypeConfigResolved>, key: &String, entry: &TypeToggleOrConfig)
    ensures
        type_views(final(types)@) == apply_override(type_views(old(types)@), key@, entry),
{
    let ghost before = type_views(types@);
    let chars = chars_of(key.as_str());
    let found = position_of_type(types, chars.as_slice());
    match entry {
        TypeToggleOrConfig::Disabled(on) => {
            if !*on {
                match found {
                    Some(i) => {
                        let old_entry = types[i].clone();
                        assert(before[i as int] == old_entry@);
                        types.set(
                            i,
                            TypeConfigResolved {
                                key: old_entry.key,
                                title: old_entry.title,
                                emoji: old_entry.emoji,
                                semver: old_entry.semver,
                                enabled: false,
                            },
                        );
                        assert(type_views(types@) =~= apply_override(before, key@, entry));
                    },
                    None => {
                        types.push(
                            TypeConfigResolved {
                                key: key.clone(),
                                title: key.clone(),
                                emoji: String::new(),
                                semver: SemverImpact::Unchanged,
                                enabled: false,
                            },
                        );
                        assert(type_views(types@) =~= apply_override(before, key@, entry));
                    },
                }
            }
        },
        TypeToggleOrConfig::Config(part) => {
            match found {
                Some(i) => {
                    let old_entry = types[i].clone();
                    assert(before[i as int] == old_entry@);
                    let title = text_or_else(&part.title, &old_entry.title);
                    let emoji = text_or_else(&part.emoji, &old_entry.emoji);
                    let semver = impact_or_else(part, old_entry.semver);
                    types.set(
                        i,
                        TypeConfigResolved {
                            key: old_entry.key,
                            title,
                            emoji,
                            semver,
                            enabled: true,
                        },
                    );
                    assert(type_views(types@) =~= apply_override(before, key@, entry));
                },
                None => {
                    let none = String::new();
                    let title = text_or_else(&part.title, key);
                    let emoji = text_or_else(&part.emoji, &none);
                    let semver = impact_or_else(part, SemverImpact::Unchanged);
                    types.push(
                        TypeConfigResolved { key: key.clone(), title, emoji, semver, enabled: true },
                    );
                    assert(type_views(types@) =~= apply_override(before, key@, entry));
                },
            }
        },
    }
}

/// Applies the entries of one layer to the type table.
fn override_types(types: &mut Vec<TypeConfigResolved>, layer: &RawConfig)
    ensures
        type_views(final(types)@) == apply_layer(type_views(old(types)@), layer),
{
    let ghost start = type_views(types@);
    match &layer.types_override {
        Some(entries) => {
            let mut i: usize = 0;
            assert(entries@.take(0) == Seq::<(String, TypeToggleOrConfig)>::empty());
            while i < entries.len()
                invariant
                    i <= entries@.len(),
                    type_views(types@) == apply_overrides(start, entries@.take(i as int)),
                decreases entries@.len() - i,
            {
                proof {
                    let next = entries@.take(i + 1);
                    assert(next.drop_last() == entries@.take(i as int));
                    assert(next.last() == entries@[i as int]);
                }
                override_type(types, &entries[i].0, &entries[i].1);
                i += 1;
            }
            assert(entries@.take(i as int) == entries@);
        },
        None => {},
    }
}

/// The type table that the layers come to.
fn merge_types(layers: &Vec<RawConfig>) -> (r: Vec<TypeConfigResolved>)
    ensures
        type_views(r@) == merged_types(layers@),
{
    let mut types = default_types();
    let mut i: usize = 0;
    assert(layers@.take(0) == Seq::<RawConfig>::empty());
    while i < layers.len()
        invariant
            i <= layers@.len(),
            type_views(types@) == merged_types(layers@.take(i as int)),
        decreases layers@.len() - i,
    {
        proof {
            let next = layers@.take(i + 1);
            assert(next.drop_last() == layers@.take(i as int));
            assert(next.last() == layers@[i as int]);
        }
        override_types(&mut types, &layers[i]);
        i += 1;
    }
    assert(layers@.take(i as int) == layers@);
    types
}

/// The version that the layers ask for, and a warning for each version that
/// cannot be read.
fn merge_version(layers: &Vec<RawConfig>, warnings: &mut Vec<String>) -> (r: Option<Version>)
    ensures
        version_option_view(r) == merged_version(layers@),
        string_views(final(warnings)@) == string_views(old(warnings)@) + version_warnings(
            layers@,
        ),
{
    let ghost before = string_views(warnings@);
    let mut chosen: Option<Version> = None;
    let mut i: usize = 0;
    assert(layers@.take(0) == Seq::<RawConfig>::empty());
    assert(before + Seq::<Seq<char>>::empty() =~= before);
    while i < layers.len()
        invariant
            i <= layers@.len(),
            version_option_view(chosen) == merged_version(layers@.take(i as int)),
            string_views(warnings@) == before + version_warnings(layers@.take(i as int)),
        decreases layers@.len() - i,
    {
        proof {
            let next = layers@.take(i + 1);
            assert(next.drop_last() == layers@.take(i as int));
            assert(next.last() == layers@[i as int]);
        }
        match &layers[i].new_version {
            Some(text) => {
                match Version::parse(text.as_str()) {
                    Ok(v) => {
                        chosen = Some(v);
                    },
                    Err(reason) => {
                        let mut out: Vec<char> = Vec::new();
                        push_text(&mut out, "Invalid new_version '");
                        push_text(&mut out, text.as_str());
                        push_text(&mut out, "': ");
                        push_text(&mut out, reason.as_str());
                        let warning = string_of(out.as_slice());
                        assert(warning@ =~= version_warning(text@, reason@));
                        let ghost seen = string_views(warnings@);
                        warnings.push(warning);
                        assert(string_views(warnings@) =~= seen.push(warning@));
                        assert(string_views(warnings@) =~= before + version_warnings(
                            layers@.take(i + 1),
                        ));
                    },
                }
            },
            None => {},
        }
        i += 1;
    }
    assert(layers@.take(i as int) == layers@);
    chosen
}

/// Adds a warning for each unknown key of each layer.
fn warn_unknown(layers: &Vec<RawConfig>, warnings: &mut Vec<String>)
    ensures
        string_views(final(warnings)@) == string_views(old(warnings)@) + unknown_warnings(
            layers@,
        ),
{
    let ghost before = string_views(warnings@);
    let mut i: usize = 0;
    assert(layers@.take(0) == Seq::<RawConfig>::empty());
    assert(before + Seq::<Seq<char>>::empty() =~= before);
    while i < layers.len()
        invariant
            i <= layers@.len(),
            string_views(warnings@) == before + unknown_warnings(layers@.take(i as int)),
        decreases layers@.len() - i,
    {
        proof {
            let next = layers@.take(i + 1);
            assert(next.drop_last() == layers@.take(i as int));
            assert(next.last() == layers@[i as int]);
        }
        let keys = &layers[i].unknown;
        let ghost start = string_views(warnings@);
        let mut j: usize = 0;
        while j < keys.len()
            invariant
                j <= keys@.len(),
                string_views(warnings@) == start + unknown_key_warnings(keys@).take(j as int),
            decreases keys@.len() - j,
        {
            let mut out: Vec<char> = Vec::new();
            push_text(&mut out, "Unknown config key: ");
            push_text(&mut out, keys[j].as_str());
            let warning = string_of(out.as_slice());
            let ghost seen = string_views(warnings@);
            warnings.push(warning);
            assert(string_views(warnings@) =~= seen.push(warning@));
            assert(unknown_key_warnings(keys@).take(j + 1) =~= unknown_key_warnings(keys@).take(
                j as int,
            ).push(warning@));
            j += 1;
        }
        assert(unknown_key_warnings(keys@).take(j as int) =~= unknown_key_warnings(keys@));
        assert(string_views(warnings@) =~= before + unknown_warnings(layers@.take(i + 1)));
        i += 1;
    }
    assert(layers@.take(i as int) == layers@);
}

/// The scope map that the layers come to.
fn merge_scopes(layers: &Vec<RawConfig>) -> (r: TextMap)
    ensures
        r.wf(),
        forall|k: Seq<char>| #[trigger] r.lookup(k) == merged_scope(layers@, k),
{
    let mut map = TextMap::new();
    let mut i: usize = 0;
    assert(layers@.take(0) == Seq::<RawConfig>::empty());
    while i < layers.len()
        invariant
            i <= layers@.len(),
            map.wf(),
            forall|k: Seq<char>| #[trigger] map.lookup(k) == merged_scope(layers@.take(i as int), k),
        decreases layers@.len() - i,
    {
        proof {
            let next = layers@.take(i + 1);
            assert(next.drop_last() == layers@.take(i as int));
            assert(next.last() == layers@[i as int]);
        }
        let ghost start = map;
        match &layers[i].scope_map {
            Some(pairs) => {
                let mut j: usize = 0;
                assert(pairs@.take(0) == Seq::<(String, String)>::empty());
                while j < pairs.len()
                    invariant
                        j <= pairs@.len(),
                        map.wf(),
                        forall|k: Seq<char>| #[trigger]
                            map.lookup(k) == match last_assoc(pairs@.take(j as int), k) {
                                Some(to) => Some(to),
                                None => start.lookup(k),
                            },
                    decreases pairs@.len() - j,
                {
                    proof {
                        let next = pairs@.take(j + 1);
                        assert(next.drop_last() == pairs@.take(j as int));
                        assert(next.last() == pairs@[j as int]);
                    }
                    map.insert(pairs[j].0.as_str(), pairs[j].1.as_str());
                    j += 1;
                }
                assert(pairs@.take(j as int) == pairs@);
            },
            None => {},
        }
        i += 1;
    }
    assert(layers@.take(i as int) == layers@);
    map
}

/// The first of the candidates that is there and not empty.
pub open spec fn first_token(candidates: Seq<Option<String>>) -> Option<Seq<char>>
    decreases candidates.len(),
{
    if candidates.len() == 0 {
        None
    } else {
        match candidates[0] {
            Some(t) => if t@.len() > 0 {
                Some(t@)
            } else {
                first_token(candidates.drop_first())
            },
            None => first_token(candidates.drop_first()),
        }
    }
}

/// The GitHub token among the candidates, which are what the environment
/// holds under the names that are tried, in the order in which they are
/// tried: the first that is there and not empty.
pub fn resolve_github_token(candidates: &Vec<Option<String>>) -> (r: Option<String>)
    ensures
        option_view(r) == first_token(candidates@),
{
    let mut i: usize = 0;
    assert(candidates@.skip(0) == candidates@);
    while i < candidates.len()
        invariant
            i <= candidates@.len(),
            first_token(candidates@) == first_token(candidates@.skip(i as int)),
        decreases candidates@.len() - i,
    {
        proof {
            let rest = candidates@.skip(i as int);
            assert(rest[0] == candidates@[i as int]);
            assert(rest.drop_first() == candidates@.skip(i + 1));
        }
        match &candidates[i] {
            Some(t) => {
                if !t.as_str().is_empty() {
                    return Some(t.clone());
                }
            },
            None => {},
        }
        i += 1;
    }
    None
}

/// A copy of the warnings.
fn copy_warnings(warnings: &[String]) -> (r: Vec<String>)
    ensures
        string_views(r@) == string_views(warnings@),
{
    let mut out: Vec<String> = Vec::new();
    let mut i: usize = 0;
    while i < warnings.len()
        invariant
            i <= warnings@.len(),
            out@.len() == i,
            forall|j: int| 0 <= j < i ==> (#[trigger] out@[j])@ == warnings@[j]@,
        decreases warnings@.len() - i,
    {
        out.push(warnings[i].clone());
        i += 1;
    }
    assert(string_views(out@) =~= string_views(warnings@));
    out
}

/// Merges the layers of configuration, from the file through to the command
/// line, over the built-in defaults. `warnings` are those of reading the
/// layers; a warning is added for each version that cannot be read, then for
/// each unknown key, then for a remote that names no repository.
pub fn merge_and_resolve_config(
    cwd: &str,
    raw_stack: Vec<RawConfig>,
    warnings: EcoVec<String>,
    source_file: Option<String>,
    github_token: Option<String>,
    remote_url: Option<String>,
    parallel_threshold: usize,
) -> (r: ResolvedConfig)
    ensures
        type_views(r.types@) == merged_types(raw_stack@),
        version_option_view(r.new_version) == merged_version(raw_stack@),
        string_views(held_texts(r.warnings)) == string_views(held_texts(warnings))
            + version_warnings(raw_stack@) + unknown_warnings(raw_stack@) + remote_warnings(
            option_view(remote_url),
        ),
        r.scope_map.wf(),
        forall|k: Seq<char>| #[trigger] r.scope_map.lookup(k) == merged_scope(raw_stack@, k),
        repo_view(r.repo) == remote_repository(option_view(remote_url)),
        r.github_token == github_token,
        r.cwd@ == cwd@,
        r.source_file == source_file,
        r.parallel_threshold == parallel_threshold,
{
    let mut warnings = copy_warnings(texts_in(&warnings));
    let types = merge_types(&raw_stack);
    let new_version = merge_version(&raw_stack, &mut warnings);
    warn_unknown(&raw_stack, &mut warnings);
    let repo = match &remote_url {
        Some(url) => {
            let found = Repository::parse(url.as_str());
            if found.is_none() {
                let mut out: Vec<char> = Vec::new();
                push_text(&mut out, "Unrecognized remote URL format: ");
                push_text(&mut out, url.as_str());
                let warning = string_of(out.as_slice());
                let ghost seen = string_views(warnings@);
                warnings.push(warning);
                assert(string_views(warnings@) =~= seen + remote_warnings(Some(url@)));
            } else {
                assert(string_views(warnings@) + remote_warnings(Some(url@)) =~= string_views(
                    warnings@,
                ));
            }
            found
        },
        None => {
            assert(string_views(warnings@) + remote_warnings(None) =~= string_views(warnings@));
            None
        },
    };
    let scope_map = merge_scopes(&raw_stack);
    ResolvedConfig {
        scope_map,
        types,
        new_version,
        warnings: texts_from(warnings),
        github_token,
        cwd: cwd.to_owned(),
        source_file,
        repo,
        parallel_threshold,
    }
}

} // verus!
