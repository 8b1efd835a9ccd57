//! The rank-climbing classifier: walks a taxon's ancestors, root first, and
//! assembles one group name under the override policy.
use vstd::prelude::*;

use crate::group::{display_of, GroupKind, GroupModel, TaxonGroupName};
use crate::policy::{ignores, prefers_higher, renamed, CritterCategoryConfig};
use crate::text::text_eq;

verus! {

/// A taxon as the classifier and the caches read it.
#[derive(Clone, Debug)]
pub struct Taxon {
    /// Stable upstream identifier.
    pub id: i32,
    /// Scientific name.
    pub name: Option<String>,
    pub preferred_common_name: Option<String>,
    /// Rank tag: "phylum", "class", ..., "species".
    pub rank: Option<String>,
    /// Ancestor identifiers, root first; absent when no ancestry is known.
    pub ancestor_ids: Option<Vec<i32>>,
}

impl Taxon {
    /// A copy of this taxon.
    pub fn duplicate(&self) -> (r: Taxon)
        ensures
            r.id == self.id,
            r.name == self.name,
            r.preferred_common_name == self.preferred_common_name,
            r.rank == self.rank,
            r.ancestor_ids.is_some() == self.ancestor_ids.is_some(),
            r.ancestor_ids.is_some() ==> r.ancestor_ids.unwrap()@ == self.ancestor_ids.unwrap()@,
    {
        let ancestor_ids = match &self.ancestor_ids {
            Some(ids) => Some(ids.clone()),
            None => None,
        };
        Taxon {
            id: self.id,
            name: self.name.clone(),
            preferred_common_name: self.preferred_common_name.clone(),
            rank: self.rank.clone(),
            ancestor_ids,
        }
    }
}

/// The variant that an ancestor of rank `rank` would assign.
pub open spec fn rank_target(rank: Seq<char>) -> Option<GroupKind> {
    if rank == "phylum"@ {
        Some(GroupKind::Phylum)
    } else if rank == "subphylum"@ {
        Some(GroupKind::Subphylum)
    } else if rank == "class"@ {
        Some(GroupKind::Class)
    } else if rank == "subclass"@ {
        Some(GroupKind::Subclass)
    } else if rank == "infraclass"@ {
        Some(GroupKind::Infraclass)
    } else if rank == "superorder"@ {
        Some(GroupKind::Superorder)
    } else if rank == "order"@ {
        Some(GroupKind::Order)
    } else if rank == "suborder"@ {
        Some(GroupKind::Suborder)
    } else if rank == "infraorder"@ {
        Some(GroupKind::Infraorder)
    } else if rank == "superfamily"@ {
        Some(GroupKind::Superfamily)
    } else if rank == "family"@ {
        Some(GroupKind::Family)
    } else if rank == "subfamily"@ {
        Some(GroupKind::Subfamily)
    } else if rank == "genus"@ {
        Some(GroupKind::Genus)
    } else {
        None
    }
}

/// The rank table's guard: whether a group of variant `current` may be
/// replaced by one of variant `target`.
pub open spec fn guard_allows(target: GroupKind, current: GroupKind) -> bool {
    match target {
        GroupKind::Phylum | GroupKind::Subphylum | GroupKind::Class => true,
        GroupKind::Subclass => current == GroupKind::Phylum || current == GroupKind::Class,
        GroupKind::Infraclass => current == GroupKind::Phylum || current == GroupKind::Class
            || current == GroupKind::Subclass,
        GroupKind::Superorder => current == GroupKind::Phylum || current == GroupKind::Class
            || current == GroupKind::Subclass || current == GroupKind::Infraclass,
        GroupKind::Order => current == GroupKind::Phylum || current == GroupKind::Class || current
            == GroupKind::Subclass || current == GroupKind::Infraclass || current
            == GroupKind::Superorder,
        GroupKind::Suborder => current == GroupKind::Order,
        GroupKind::Infraorder => current == GroupKind::Phylum || current == GroupKind::Class
            || current == GroupKind::Subclass || current == GroupKind::Superorder || current
            == GroupKind::Suborder,
        GroupKind::Superfamily => current == GroupKind::Order || current == GroupKind::Infraclass
            || current == GroupKind::Subclass || current == GroupKind::Infraorder,
        GroupKind::Family => current == GroupKind::Phylum || current == GroupKind::Order || current
            == GroupKind::Infraorder || current == GroupKind::Subclass || current
            == GroupKind::Superfamily,
        GroupKind::Subfamily => current == GroupKind::Family,
        GroupKind::Genus => current == GroupKind::Subfamily,
        _ => false,
    }
}

/// Whether the policy's preference is consulted before an ancestor assigns
/// the variant `target`.
pub open spec fn checks_preference(target: GroupKind) -> bool {
    target != GroupKind::Phylum && target != GroupKind::Subphylum
}

/// The group after one ancestor of rank `rank` and common name `common` is
/// applied to the group `g`.
pub open spec fn climb_step(
    g: GroupModel,
    rank: Option<String>,
    common: Option<String>,
    p: CritterCategoryConfig,
) -> GroupModel {
    match rank {
        None => g,
        Some(r) => if r@ == "species"@ {
            match renamed(p, display_of(g)) {
                Some(t) => (GroupKind::Custom, t),
                None => g,
            }
        } else {
            match rank_target(r@) {
                None => g,
                Some(k) => if !guard_allows(k, g.0) {
                    g
                } else if checks_preference(k) && prefers_higher(p, r@, g) {
                    g
                } else {
                    match common {
                        None => g,
                        Some(n) => if k == GroupKind::Class && ignores(p, r@, n@) {
                            g
                        } else {
                            (k, n@)
                        },
                    }
                },
            }
        },
    }
}

/// The group assembled from a sequence of ancestors, root first.
pub open spec fn climb(ancestors: Seq<Taxon>, p: CritterCategoryConfig) -> GroupModel
    decreases ancestors.len(),
{
    if ancestors.len() == 0 {
        (GroupKind::Unspecified, Seq::empty())
    } else {
        let a = ancestors.last();
        climb_step(climb(ancestors.drop_last(), p), a.rank, a.preferred_common_name, p)
    }
}

/// The variant that an ancestor of rank `rank` would assign.
pub fn rank_group_kind(rank: &str) -> (r: Option<GroupKind>)
    ensures
        r == rank_target(rank@),
{
    if text_eq(rank, "phylum") {
        Some(GroupKind::Phylum)
    } else if text_eq(rank, "subphylum") {
        Some(GroupKind::Subphylum)
    } else if text_eq(rank, "class") {
        Some(GroupKind::Class)
    } else if text_eq(rank, "subclass") {
        Some(GroupKind::Subclass)
    } else if text_eq(rank, "infraclass") {
        Some(GroupKind::Infraclass)
    } else if text_eq(rank, "superorder") {
        Some(GroupKind::Superorder)
    } else if text_eq(rank, "order") {
        Some(GroupKind::Order)
    } else if text_eq(rank, "suborder") {
        Some(GroupKind::Suborder)
    } else if text_eq(rank, "infraorder") {
        Some(GroupKind::Infraorder)
    } else if text_eq(rank, "superfamily") {
        Some(GroupKind::Superfamily)
    } else if text_eq(rank, "family") {
        Some(GroupKind::Family)
    } else if text_eq(rank, "subfamily") {
        Some(GroupKind::Subfamily)
    } else if text_eq(rank, "genus") {
        Some(GroupKind::Genus)
    } else {
        None
    }
}

/// The rank table's guard: whether a group of variant `current` may be
/// replaced by one of variant `target`.
pub fn may_replace(target: GroupKind, current: GroupKind) -> (r: bool)
    ensures
        r == guard_allows(target, current),
{
    match target {
        GroupKind::Phylum | GroupKind::Subphylum | GroupKind::Class => true,
        GroupKind::Subclass => matches!(current, GroupKind::Phylum | GroupKind::Class),
        GroupKind::Infraclass => matches!(
            current,
            GroupKind::Phylum | GroupKind::Class | GroupKind::Subclass
        ),
        GroupKind::Superorder => matches!(
            current,
            GroupKind::Phylum | GroupKind::Class | GroupKind::Subclass | GroupKind::Infraclass
        ),
        GroupKind::Order => matches!(
            current,
            GroupKind::Phylum | GroupKind::Class | GroupKind::Subclass | GroupKind::Infraclass
                | GroupKind::Superorder
        ),
        GroupKind::Suborder => matches!(current, GroupKind::Order),
        GroupKind::Infraorder => matches!(
            current,
            GroupKind::Phylum | GroupKind::Class | GroupKind::Subclass | GroupKind::Superorder
                | GroupKind::Suborder
        ),
        GroupKind::Superfamily => matches!(
            current,
            GroupKind::Order | GroupKind::Infraclass | GroupKind::Subclass | GroupKind::Infraorder
        ),
        GroupKind::Family => matches!(
            current,
            GroupKind::Phylum | GroupKind::Order | GroupKind::Infraorder | GroupKind::Subclass
                | GroupKind::Superfamily
        ),
        GroupKind::Subfamily => matches!(current, GroupKind::Family),
        GroupKind::Genus => matches!(current, GroupKind::Subfamily),
        _ => false,
    }
}

/// Applies one ancestor to the group assembled so far, by the rank table.
pub fn apply_ancestor(
    group: TaxonGroupName,
    ancestor: &Taxon,
    overrides: &CritterCategoryConfig,
) -> (r: TaxonGroupName)
    ensures
        r@ == climb_step(group@, ancestor.rank, ancestor.preferred_common_name, *overrides),
{
    let rank = match &ancestor.rank {
        Some(rank) => rank.as_str(),
        None => {
            return group;
        },
    };
    if text_eq(rank, "species") {
        let display = group.to_string();
        return match overrides.group_name_for(display.as_str()) {
            Some(v) => TaxonGroupName::Custom(String::from_str(v.as_str())),
            None => group,
        };
    }
    let kind = match rank_group_kind(rank) {
        Some(kind) => kind,
        None => {
            return group;
        },
    };
    if !may_replace(kind, group.kind()) {
        return group;
    }
    let checked = !matches!(kind, GroupKind::Phylum | GroupKind::Subphylum);
    if checked && group.prefer_higher_common_name(rank, overrides) {
        return group;
    }
    match &ancestor.preferred_common_name {
        None => group,
        Some(name) => {
            if matches!(kind, GroupKind::Class) && group.ignore_common_name(
                rank,
                name.as_str(),
                overrides,
            ) {
                group
            } else {
                TaxonGroupName::new(kind, String::from_str(name.as_str()))
            }
        },
    }
}

/// Assembles the group name of a sequence of resolved ancestors, root first.
pub fn classify_ancestors(ancestors: &Vec<Taxon>, overrides: &CritterCategoryConfig) -> (r:
    TaxonGroupName)
    ensures
        r@ == climb(ancestors@, *overrides),
{
    let mut group = TaxonGroupName::Unspecified;
    let mut i: usize = 0;
    proof {
        assert(ancestors@.subrange(0, 0) =~= Seq::<Taxon>::empty());
    }
    while i < ancestors.len()
        invariant
            i <= ancestors@.len(),
            group@ == climb(ancestors@.subrange(0, i as int), *overrides),
        decreases ancestors@.len() - i,
    {
        group = apply_ancestor(group, &ancestors[i], overrides);
        proof {
            let next = ancestors@.subrange(0, i + 1);
            assert(next.drop_last() =~= ancestors@.subrange(0, i as int));
            assert(next.last() == ancestors@[i as int]);
        }
        i = i + 1;
    }
    proof {
        assert(ancestors@.subrange(0, i as int) =~= ancestors@);
    }
    group
}

/// The group name of a taxon under an override policy.
pub trait TaxonCategoryName {
    /// The group name assembled from `ancestors`, the resolved ancestors of
    /// this taxon in order.
    spec fn category(&self, ancestors: Seq<Taxon>, overrides: CritterCategoryConfig) -> GroupModel;

    /// Assembles the group name from `ancestors`, the resolved ancestors of
    /// this taxon in order.
    fn group_name(&self, ancestors: &Vec<Taxon>, overrides: &CritterCategoryConfig) -> (r:
        TaxonGroupName)
        ensures
            r@ == self.category(ancestors@, *overrides),
    ;
}

impl TaxonCategoryName for Taxon {
    /// Unspecified when no ancestry is known; else the climb over the ancestors.
    open spec fn category(&self, ancestors: Seq<Taxon>, overrides: CritterCategoryConfig) -> GroupModel {
        if self.ancestor_ids.is_none() {
            (GroupKind::Unspecified, Seq::empty())
        } else {
            climb(ancestors, overrides)
        }
    }

    fn group_name(&self, ancestors: &Vec<Taxon>, overrides: &CritterCategoryConfig) -> (r:
        TaxonGroupName) {
        if self.ancestor_ids.is_none() {
            return TaxonGroupName::Unspecified;
        }
        classify_ancestors(ancestors, overrides)
    }
}

/// A taxon with no known ancestry is classified as unspecified, whatever
/// ancestors are handed in.
pub proof fn lemma_no_ancestry_unspecified(
    taxon: Taxon,
    ancestors: Seq<Taxon>,
    overrides: CritterCategoryConfig,
)
    requires
        taxon.ancestor_ids.is_none(),
    ensures
        taxon.category(ancestors, overrides) == (GroupKind::Unspecified, Seq::<char>::empty()),
{
}

/// Each ancestor changes the group only as the rank table allows: the group
/// stays, or a species-rank ancestor renames it to a custom text, or the
/// ancestor's rank names the new variant and the guard admits the old one.
pub proof fn lemma_step_follows_table(
    g: GroupModel,
    rank: Option<String>,
    common: Option<String>,
    overrides: CritterCategoryConfig,
)
    ensures
        ({
            let r = climb_step(g, rank, common, overrides);
            ||| r == g
            ||| (r.0 == GroupKind::Custom && rank.is_some() && rank.unwrap()@ == "species"@)
            ||| (rank.is_some() && rank_target(rank.unwrap()@) == Some(r.0) && guard_allows(r.0, g.0))
        }),
{
}

/// Along any ancestor sequence, the group becomes a subclass only right after
/// it was a phylum or a class.
pub proof fn lemma_subclass_entry(ancestors: Seq<Taxon>, i: int, overrides: CritterCategoryConfig)
    requires
        0 <= i < ancestors.len(),
        climb(ancestors.subrange(0, i + 1), overrides).0 == GroupKind::Subclass,
        climb(ancestors.subrange(0, i), overrides).0 != GroupKind::Subclass,
    ensures
        climb(ancestors.subrange(0, i), overrides).0 == GroupKind::Phylum || climb(
            ancestors.subrange(0, i),
            overrides,
        ).0 == GroupKind::Class,
{
    let next = ancestors.subrange(0, i + 1);
    assert(next.drop_last() =~= ancestors.subrange(0, i));
    let a = next.last();
    lemma_step_follows_table(
        climb(ancestors.subrange(0, i), overrides),
        a.rank,
        a.preferred_common_name,
        overrides,
    );
}

/// A group that the policy prefers at a guarded rank is kept when an ancestor
/// of that rank comes.
pub proof fn lemma_preferred_group_kept(
    g: GroupModel,
    rank: String,
    common: Option<String>,
    overrides: CritterCategoryConfig,
)
    requires
        rank_target(rank@).is_some(),
        checks_preference(rank_target(rank@).unwrap()),
        prefers_higher(overrides, rank@, g),
    ensures
        climb_step(g, Some(rank), common, overrides) == g,
{
    assert(rank@ != "species"@) by {
        reveal_strlit("species");
        reveal_strlit("phylum");
        reveal_strlit("subphylum");
        reveal_strlit("class");
        reveal_strlit("subclass");
        reveal_strlit("infraclass");
        reveal_strlit("superorder");
        reveal_strlit("order");
        reveal_strlit("suborder");
        reveal_strlit("infraorder");
        reveal_strlit("superfamily");
        reveal_strlit("family");
        reveal_strlit("subfamily");
        reveal_strlit("genus");
        if rank@ == "species"@ {
            assert("species"@[0] == 's');
            assert("species"@.len() == 7);
        }
    }
}

} // verus!
