//! Records of the dive log's critters and the changes proposed for them.
use vstd::prelude::*;

use crate::classify::Taxon;
use crate::text::{
    contains_char, sentence_case, sentence_of, text_eq, title_or_keep, titled, trim, trim_white,
};

verus! {

/// A category of critters in the dive log.
#[derive(Debug)]
pub struct CritterCategory {
    pub id: i64,
    pub ent: Option<i64>,
    pub opt: Option<i64>,
    pub image: Option<String>,
    pub name: Option<String>,
    pub uuid: Option<String>,
}

/// The changes proposed for one critter.
#[derive(Debug)]
pub struct CritterUpdate {
    pub id: i64,
    pub category: Option<i64>,
    pub common_name: Option<String>,
    pub scientific_name: Option<String>,
}

impl CritterUpdate {
    /// Whether the update changes anything.
    pub fn has_changes(&self) -> (r: bool)
        ensures
            r == (self.category.is_some() || self.common_name.is_some()
                || self.scientific_name.is_some()),
    {
        self.category.is_some() || self.common_name.is_some() || self.scientific_name.is_some()
    }
}

/// Whether sentence casing can be applied to a text: it holds no long s.
pub open spec fn sentence_casable(s: Seq<char>) -> bool {
    !s.contains('\u{17f}')
}

/// The scientific name to propose for a critter logged as `species`: the
/// taxon's name in sentence case, when it differs from the logged one (both
/// compared in sentence case, which is skipped for a text it cannot apply to).
pub open spec fn proposed_scientific_name(species: Seq<char>, taxon_name: Option<String>) -> Option<
    Seq<char>,
> {
    match taxon_name {
        Some(p) => if sentence_casable(p@) && sentence_casable(titled(species)) && sentence_of(
            titled(species),
        ) != sentence_of(p@) {
            Some(sentence_of(p@))
        } else {
            None
        },
        None => None,
    }
}

/// The common name to propose for a critter logged with `current`: the
/// taxon's preferred common name, trimmed and title-cased (as `titled` does), when the logged
/// one is missing or differs from it.
pub open spec fn proposed_common_name(current: Option<Seq<char>>, preferred: Option<String>) -> Option<
    Seq<char>,
> {
    match preferred {
        None => None,
        Some(p) => {
            let wanted = titled(trim_white(p@));
            match current {
                None => Some(wanted),
                Some(c) => if titled(trim_white(c)) != wanted {
                    Some(wanted)
                } else {
                    None
                },
            }
        },
    }
}

/// The changes that bring the logged critter `id`, with common name `name`
/// and scientific name `species`, in line with the taxon found for it.
pub fn critter_update(id: i64, name: Option<&str>, species: &str, taxon: &Taxon) -> (r:
    CritterUpdate)
    ensures
        r.id == id,
        r.category.is_none(),
        match proposed_scientific_name(species@, taxon.name) {
            Some(s) => r.scientific_name.is_some() && r.scientific_name.unwrap()@ == s,
            None => r.scientific_name.is_none(),
        },
        match proposed_common_name(
            match name {
                Some(n) => Some(n@),
                None => None,
            },
            taxon.preferred_common_name,
        ) {
            Some(c) => r.common_name.is_some() && r.common_name.unwrap()@ == c,
            None => r.common_name.is_none(),
        },
{
    let mut update = CritterUpdate { id, category: None, common_name: None, scientific_name: None };
    if let Some(preferred) = &taxon.name {
        let logged = title_or_keep(species);
        if !contains_char(preferred.as_str(), '\u{17f}') && !contains_char(logged.as_str(), '\u{17f}') {
            let preferred = sentence_case(preferred.as_str());
            let current = sentence_case(logged.as_str());
            if !text_eq(current.as_str(), preferred.as_str()) {
                update.scientific_name = Some(preferred);
            }
        }
    }
    if let Some(preferred) = &taxon.preferred_common_name {
        let trimmed = trim(preferred.as_str());
        let wanted = title_or_keep(trimmed.as_str());
        match name {
            None => {
                update.common_name = Some(wanted);
            },
            Some(current) => {
                let trimmed = trim(current);
                let current = title_or_keep(trimmed.as_str());
                if !text_eq(current.as_str(), wanted.as_str()) {
                    update.common_name = Some(wanted);
                }
            },
        }
    }
    update
}

} // verus!
