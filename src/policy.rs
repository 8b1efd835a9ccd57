//! The override policy that biases and renames what the classifier assembles.
use vstd::prelude::*;

use crate::group::{same_group, GroupModel, TaxonGroupName};
use crate::text::text_eq;

verus! {

/// The override policy. Each field is a table keyed by text, with each key
/// at most once (`wf`); lookups take the first entry of a key.
pub struct CritterCategoryConfig {
    /// Renames applied at the species rank: display string to replacement.
    pub group_names: Vec<(String, String)>,
    /// Common names to skip, by rank name.
    pub ignored_common_names: Vec<(String, Vec<String>)>,
    /// Group names to keep rather than descend from, by the rank of the
    /// ancestor that would replace them.
    pub preferred_higher_ranks: Vec<(String, Vec<TaxonGroupName>)>,
}

/// The configuration of critter handling: name substitutions and the
/// category policy.
pub struct CritterConfig {
    pub name_substitutions: Vec<(String, String)>,
    pub categories: CritterCategoryConfig,
}

/// The index of the first entry keyed by `key`, or the length when none is.
pub open spec fn first_key<V>(entries: Seq<(String, V)>, key: Seq<char>) -> int
    decreases entries.len(),
{
    if entries.len() == 0 {
        0
    } else if entries[0].0@ == key {
        0
    } else {
        1 + first_key(entries.drop_first(), key)
    }
}

/// Whether no two entries carry the same key.
pub open spec fn keys_unique<V>(entries: Seq<(String, V)>) -> bool {
    forall|i: int, j: int|
        0 <= i < entries.len() && 0 <= j < entries.len() && i != j ==> (#[trigger] entries[i]).0@
            != (#[trigger] entries[j]).0@
}

/// The replacement that the policy gives for a display string, if any.
pub open spec fn renamed(p: CritterCategoryConfig, display: Seq<char>) -> Option<Seq<char>> {
    let i = first_key(p.group_names@, display);
    if i < p.group_names@.len() {
        Some(p.group_names@[i].1@)
    } else {
        None
    }
}

/// Whether the policy skips the common name `name` at rank `rank`.
pub open spec fn ignores(p: CritterCategoryConfig, rank: Seq<char>, name: Seq<char>) -> bool {
    let i = first_key(p.ignored_common_names@, rank);
    i < p.ignored_common_names@.len() && exists|j: int|
        0 <= j < p.ignored_common_names@[i].1@.len() && #[trigger] p.ignored_common_names@[i].1@[j]@
            == name
}

/// Whether the policy keeps the group `g` rather than let an ancestor of rank
/// `rank` replace it.
pub open spec fn prefers_higher(p: CritterCategoryConfig, rank: Seq<char>, g: GroupModel) -> bool {
    let i = first_key(p.preferred_higher_ranks@, rank);
    i < p.preferred_higher_ranks@.len() && exists|j: int|
        0 <= j < p.preferred_higher_ranks@[i].1@.len() && same_group(
            #[trigger] p.preferred_higher_ranks@[i].1@[j]@,
            g,
        )
}

proof fn lemma_first_key<V>(entries: Seq<(String, V)>, key: Seq<char>, i: int)
    requires
        0 <= i <= entries.len(),
        forall|j: int| 0 <= j < i ==> entries[j].0@ != key,
        i < entries.len() ==> entries[i].0@ == key,
    ensures
        first_key(entries, key) == i,
    decreases i,
{
    if i > 0 {
        lemma_first_key(entries.drop_first(), key, i - 1);
    }
}

/// With unique keys, the entry of a key is the one that carries it.
pub proof fn lemma_unique_key_found<V>(entries: Seq<(String, V)>, i: int)
    requires
        keys_unique(entries),
        0 <= i < entries.len(),
    ensures
        first_key(entries, entries[i].0@) == i,
{
    lemma_first_key(entries, entries[i].0@, i);
}

/// Whether no two entries of `entries` carry the same key.
fn unique_keys<V>(entries: &Vec<(String, V)>) -> (r: bool)
    ensures
        r == keys_unique(entries@),
{
    let n = entries.len();
    let mut i: usize = 0;
    while i < n
        invariant
            n == entries@.len(),
            i <= n,
            forall|a: int, b: int|
                0 <= a < i && 0 <= b < n && a != b ==> (#[trigger] entries@[a]).0@
                    != (#[trigger] entries@[b]).0@,
        decreases n - i,
    {
        let mut j: usize = 0;
        while j < n
            invariant
                n == entries@.len(),
                i < n,
                j <= n,
                forall|a: int, b: int|
                    0 <= a < i && 0 <= b < n && a != b ==> (#[trigger] entries@[a]).0@
                        != (#[trigger] entries@[b]).0@,
                forall|b: int| 0 <= b < j && b != i ==> entries@[i as int].0@ != (#[trigger] entries@[b]).0@,
            decreases n - j,
        {
            if j != i && text_eq(entries[i].0.as_str(), entries[j].0.as_str()) {
                return false;
            }
            j = j + 1;
        }
        i = i + 1;
    }
    true
}

/// The index of the first entry keyed by `key`, or the length when none is.
fn find_key<V>(entries: &Vec<(String, V)>, key: &str) -> (r: usize)
    ensures
        r == first_key(entries@, key@),
        r <= entries@.len(),
{
    let mut i: usize = 0;
    while i < entries.len()
        invariant
            i <= entries@.len(),
            forall|j: int| 0 <= j < i ==> entries@[j].0@ != key@,
        decreases entries@.len() - i,
    {
        if text_eq(entries[i].0.as_str(), key) {
            proof {
                lemma_first_key(entries@, key@, i as int);
            }
            return i;
        }
        i = i + 1;
    }
    proof {
        lemma_first_key(entries@, key@, i as int);
    }
    i
}

impl CritterCategoryConfig {
    /// Each table carries each key at most once.
    pub open spec fn wf(&self) -> bool {
        &&& keys_unique(self.group_names@)
        &&& keys_unique(self.ignored_common_names@)
        &&& keys_unique(self.preferred_higher_ranks@)
    }

    /// Whether each table carries each key at most once.
    pub fn has_unique_keys(&self) -> (r: bool)
        ensures
            r == self.wf(),
    {
        unique_keys(&self.group_names) && unique_keys(&self.ignored_common_names) && unique_keys(
            &self.preferred_higher_ranks,
        )
    }

    /// A policy with no overrides.
    pub fn new() -> (r: CritterCategoryConfig)
        ensures
            r.wf(),
            r.group_names@.len() == 0,
            r.ignored_common_names@.len() == 0,
            r.preferred_higher_ranks@.len() == 0,
    {
        CritterCategoryConfig {
            group_names: Vec::new(),
            ignored_common_names: Vec::new(),
            preferred_higher_ranks: Vec::new(),
        }
    }

    /// The replacement for the display string `display`, if the policy has one.
    pub fn group_name_for(&self, display: &str) -> (r: Option<&String>)
        ensures
            match r {
                Some(s) => renamed(*self, display@) == Some(s@),
                None => renamed(*self, display@).is_none(),
            },
    {
        let i = find_key(&self.group_names, display);
        if i < self.group_names.len() {
            Some(&self.group_names[i].1)
        } else {
            None
        }
    }
}

impl CritterConfig {
    /// A configuration with no substitutions and no overrides.
    pub fn new() -> (r: CritterConfig)
        ensures
            r.name_substitutions@.len() == 0,
            r.categories.group_names@.len() == 0,
            r.categories.ignored_common_names@.len() == 0,
            r.categories.preferred_higher_ranks@.len() == 0,
    {
        CritterConfig { name_substitutions: Vec::new(), categories: CritterCategoryConfig::new() }
    }
}

/// With unique keys, the rename table is a map: each entry's replacement is
/// the one given for its key.
pub proof fn lemma_rename_is_map_lookup(p: CritterCategoryConfig, i: int)
    requires
        p.wf(),
        0 <= i < p.group_names@.len(),
    ensures
        renamed(p, p.group_names@[i].0@) == Some(p.group_names@[i].1@),
{
    lemma_unique_key_found(p.group_names@, i);
}

impl TaxonGroupName {
    /// Whether the policy keeps this group rather than let an ancestor of
    /// rank `class` replace it.
    pub fn prefer_higher_common_name(&self, class: &str, overrides: &CritterCategoryConfig) -> (r:
        bool)
        ensures
            r == prefers_higher(*overrides, class@, self@),
    {
        let i = find_key(&overrides.preferred_higher_ranks, class);
        if i >= overrides.preferred_higher_ranks.len() {
            return false;
        }
        let list = &overrides.preferred_higher_ranks[i].1;
        let mut j: usize = 0;
        while j < list.len()
            invariant
                i < overrides.preferred_higher_ranks@.len(),
                i == first_key(overrides.preferred_higher_ranks@, class@),
                *list == overrides.preferred_higher_ranks@[i as int].1,
                j <= list@.len(),
                forall|k: int| 0 <= k < j ==> !same_group(#[trigger] list@[k]@, self@),
            decreases list@.len() - j,
        {
            if list[j] == *self {
                assert(same_group(overrides.preferred_higher_ranks@[i as int].1@[j as int]@, self@));
                return true;
            }
            j = j + 1;
        }
        false
    }

    /// Whether the policy skips the common name `name` at rank `class`.
    pub fn ignore_common_name(
        &self,
        class: &str,
        name: &str,
        overrides: &CritterCategoryConfig,
    ) -> (r: bool)
        ensures
            r == ignores(*overrides, class@, name@),
    {
        let i = find_key(&overrides.ignored_common_names, class);
        if i >= overrides.ignored_common_names.len() {
            return false;
        }
        let list = &overrides.ignored_common_names[i].1;
        let mut j: usize = 0;
        while j < list.len()
            invariant
                i < overrides.ignored_common_names@.len(),
                i == first_key(overrides.ignored_common_names@, class@),
                *list == overrides.ignored_common_names@[i as int].1,
                j <= list@.len(),
                forall|k: int| 0 <= k < j ==> #[trigger] list@[k]@ != name@,
            decreases list@.len() - j,
        {
            if text_eq(list[j].as_str(), name) {
                assert(overrides.ignored_common_names@[i as int].1@[j as int]@ == name@);
                return true;
            }
            j = j + 1;
        }
        false
    }
}

} // verus!
