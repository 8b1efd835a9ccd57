//! The group name assembled for a species: a rank tag and a display text.
use vstd::prelude::*;

use crate::text::{display_text, lower_of, lowercase, normalize};

verus! {

/// The variants of a group name, in their order.
#[derive(Clone, Copy, Debug, PartialEq, Eq, Structural)]
pub enum GroupKind {
    Unspecified,
    Custom,
    Phylum,
    Subphylum,
    Class,
    Subclass,
    Infraclass,
    Superorder,
    Order,
    Suborder,
    Infraorder,
    Parvorder,
    Superfamily,
    Family,
    Subfamily,
    Genus,
}

/// A group name: unspecified, a custom text, or the common name found at one
/// of the recognised ranks.
#[derive(Clone, Debug, PartialOrd, Ord)]
pub enum TaxonGroupName {
    Unspecified,
    Custom(String),
    Phylum(String),
    Subphylum(String),
    Class(String),
    Subclass(String),
    Infraclass(String),
    Superorder(String),
    Order(String),
    Suborder(String),
    Infraorder(String),
    Parvorder(String),
    Superfamily(String),
    Family(String),
    Subfamily(String),
    Genus(String),
}

/// The model of a group name: its variant and its text (empty when unspecified).
pub type GroupModel = (GroupKind, Seq<char>);

/// The model of a group name of variant `k` with text `t`.
pub open spec fn group_of(k: GroupKind, t: Seq<char>) -> GroupModel {
    if k == GroupKind::Unspecified {
        (GroupKind::Unspecified, Seq::empty())
    } else {
        (k, t)
    }
}

/// Two group names are equal when they have the same variant and the same
/// text up to case.
pub open spec fn same_group(a: GroupModel, b: GroupModel) -> bool {
    a.0 == b.0 && lower_of(a.1) == lower_of(b.1)
}

/// The display string of a group name.
pub open spec fn display_of(g: GroupModel) -> Seq<char> {
    if g.0 == GroupKind::Unspecified {
        "Unknown"@
    } else {
        display_text(g.1)
    }
}

impl View for TaxonGroupName {
    type V = GroupModel;

    open spec fn view(&self) -> GroupModel {
        match self {
            TaxonGroupName::Unspecified => (GroupKind::Unspecified, Seq::empty()),
            TaxonGroupName::Custom(s) => (GroupKind::Custom, s@),
            TaxonGroupName::Phylum(s) => (GroupKind::Phylum, s@),
            TaxonGroupName::Subphylum(s) => (GroupKind::Subphylum, s@),
            TaxonGroupName::Class(s) => (GroupKind::Class, s@),
            TaxonGroupName::Subclass(s) => (GroupKind::Subclass, s@),
            TaxonGroupName::Infraclass(s) => (GroupKind::Infraclass, s@),
            TaxonGroupName::Superorder(s) => (GroupKind::Superorder, s@),
            TaxonGroupName::Order(s) => (GroupKind::Order, s@),
            TaxonGroupName::Suborder(s) => (GroupKind::Suborder, s@),
            TaxonGroupName::Infraorder(s) => (GroupKind::Infraorder, s@),
            TaxonGroupName::Parvorder(s) => (GroupKind::Parvorder, s@),
            TaxonGroupName::Superfamily(s) => (GroupKind::Superfamily, s@),
            TaxonGroupName::Family(s) => (GroupKind::Family, s@),
            TaxonGroupName::Subfamily(s) => (GroupKind::Subfamily, s@),
            TaxonGroupName::Genus(s) => (GroupKind::Genus, s@),
        }
    }
}

impl TaxonGroupName {
    /// The group name of variant `kind` carrying `text`.
    pub fn new(kind: GroupKind, text: String) -> (r: TaxonGroupName)
        ensures
            r@ == group_of(kind, text@),
    {
        match kind {
            GroupKind::Unspecified => TaxonGroupName::Unspecified,
            GroupKind::Custom => TaxonGroupName::Custom(text),
            GroupKind::Phylum => TaxonGroupName::Phylum(text),
            GroupKind::Subphylum => TaxonGroupName::Subphylum(text),
            GroupKind::Class => TaxonGroupName::Class(text),
            GroupKind::Subclass => TaxonGroupName::Subclass(text),
            GroupKind::Infraclass => TaxonGroupName::Infraclass(text),
            GroupKind::Superorder => TaxonGroupName::Superorder(text),
            GroupKind::Order => TaxonGroupName::Order(text),
            GroupKind::Suborder => TaxonGroupName::Suborder(text),
            GroupKind::Infraorder => TaxonGroupName::Infraorder(text),
            GroupKind::Parvorder => TaxonGroupName::Parvorder(text),
            GroupKind::Superfamily => TaxonGroupName::Superfamily(text),
            GroupKind::Family => TaxonGroupName::Family(text),
            GroupKind::Subfamily => TaxonGroupName::Subfamily(text),
            GroupKind::Genus => TaxonGroupName::Genus(text),
        }
    }

    /// The variant of this group name.
    pub fn kind(&self) -> (r: GroupKind)
        ensures
            r == self@.0,
    {
        match self {
            TaxonGroupName::Unspecified => GroupKind::Unspecified,
            TaxonGroupName::Custom(_) => GroupKind::Custom,
            TaxonGroupName::Phylum(_) => GroupKind::Phylum,
            TaxonGroupName::Subphylum(_) => GroupKind::Subphylum,
            TaxonGroupName::Class(_) => GroupKind::Class,
            TaxonGroupName::Subclass(_) => GroupKind::Subclass,
            TaxonGroupName::Infraclass(_) => GroupKind::Infraclass,
            TaxonGroupName::Superorder(_) => GroupKind::Superorder,
            TaxonGroupName::Order(_) => GroupKind::Order,
            TaxonGroupName::Suborder(_) => GroupKind::Suborder,
            TaxonGroupName::Infraorder(_) => GroupKind::Infraorder,
            TaxonGroupName::Parvorder(_) => GroupKind::Parvorder,
            TaxonGroupName::Superfamily(_) => GroupKind::Superfamily,
            TaxonGroupName::Family(_) => GroupKind::Family,
            TaxonGroupName::Subfamily(_) => GroupKind::Subfamily,
            TaxonGroupName::Genus(_) => GroupKind::Genus,
        }
    }

    /// The text carried by this group name; empty when unspecified.
    pub fn text(&self) -> (r: &str)
        ensures
            r@ == self@.1,
    {
        match self {
            TaxonGroupName::Unspecified => {
                proof {
                    reveal_strlit("");
                }
                ""
            },
            TaxonGroupName::Custom(s) => s.as_str(),
            TaxonGroupName::Phylum(s) => s.as_str(),
            TaxonGroupName::Subphylum(s) => s.as_str(),
            TaxonGroupName::Class(s) => s.as_str(),
            TaxonGroupName::Subclass(s) => s.as_str(),
            TaxonGroupName::Infraclass(s) => s.as_str(),
            TaxonGroupName::Superorder(s) => s.as_str(),
            TaxonGroupName::Order(s) => s.as_str(),
            TaxonGroupName::Suborder(s) => s.as_str(),
            TaxonGroupName::Infraorder(s) => s.as_str(),
            TaxonGroupName::Parvorder(s) => s.as_str(),
            TaxonGroupName::Superfamily(s) => s.as_str(),
            TaxonGroupName::Family(s) => s.as_str(),
            TaxonGroupName::Subfamily(s) => s.as_str(),
            TaxonGroupName::Genus(s) => s.as_str(),
        }
    }

    /// A copy of this group name.
    pub fn duplicate(&self) -> (r: TaxonGroupName)
        ensures
            r@ == self@,
    {
        TaxonGroupName::new(self.kind(), String::from_str(self.text()))
    }

    /// The display string: "Unknown" when unspecified, else the normalized text.
    pub fn to_string(&self) -> (r: String)
        ensures
            r@ == display_of(self@),
    {
        match self {
            TaxonGroupName::Unspecified => String::from_str("Unknown"),
            _ => normalize(self.text()),
        }
    }
}

impl PartialEq for TaxonGroupName {
    fn eq(&self, other: &TaxonGroupName) -> (r: bool)
        ensures
            r == same_group(self@, other@),
    {
        self.kind() == other.kind() && lowercase(self.text()) == lowercase(other.text())
    }
}

impl vstd::std_specs::cmp::PartialEqSpecImpl for TaxonGroupName {
    open spec fn obeys_eq_spec() -> bool {
        true
    }

    open spec fn eq_spec(&self, other: &TaxonGroupName) -> bool {
        same_group(self@, other@)
    }
}

impl Eq for TaxonGroupName {}

} // verus!
