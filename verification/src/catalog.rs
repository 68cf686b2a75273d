//! Catalog data model: the verification period and the metadata of the
//! checks that an external catalog lists for it.
//!
//! The catalog itself is loaded by the surrounding application; this
//! module holds what the coordinator reads from it: the ordered ids and
//! the display names.

use vstd::prelude::*;
use vstd::string::StringExecFns;

use crate::model::{keyed_map, lemma_keyed_map_domain, lemma_keyed_map_index, seq_views, unique_ids};

verus! {

/// Verification phase: selects the applicable catalog and dataset.
#[derive(Clone, Copy, Debug, PartialEq, Eq, Structural)]
pub enum VerificationPeriod {
    Setup,
    Tally,
}

impl VerificationPeriod {
    /// The display name of the period.
    pub open spec fn name_spec(self) -> Seq<char> {
        match self {
            VerificationPeriod::Setup => "Setup"@,
            VerificationPeriod::Tally => "Tally"@,
        }
    }

    /// The display name of the period, as used in titles and file names.
    pub fn name(&self) -> (r: String)
        ensures
            r@ == self.name_spec(),
    {
        match self {
            VerificationPeriod::Setup => String::from_str("Setup"),
            VerificationPeriod::Tally => String::from_str("Tally"),
        }
    }
}

/// One catalog entry: the stable id of a check and its display name.
/// Loaded once per run from an external catalog, immutable thereafter.
#[derive(Clone, Debug)]
pub struct VerificationMetadata {
    pub id: String,
    pub name: String,
}

/// The catalog's ordered id views.
pub open spec fn meta_ids(c: Seq<VerificationMetadata>) -> Seq<Seq<char>> {
    c.map_values(|m: VerificationMetadata| m.id@)
}

/// The catalog's name views, parallel to [`meta_ids`].
pub open spec fn meta_names(c: Seq<VerificationMetadata>) -> Seq<Seq<char>> {
    c.map_values(|m: VerificationMetadata| m.name@)
}

/// The display name that the catalog attaches to each id.
pub open spec fn name_map(c: Seq<VerificationMetadata>) -> Map<Seq<char>, Seq<char>> {
    keyed_map(meta_ids(c), meta_names(c))
}

/// The catalog's ordered id sequence.
pub fn catalog_ids(catalog: &Vec<VerificationMetadata>) -> (r: Vec<String>)
    ensures
        seq_views(r@) == meta_ids(catalog@),
{
    let mut r: Vec<String> = Vec::new();
    let mut i: usize = 0;
    while i < catalog.len()
        invariant
            i <= catalog@.len(),
            seq_views(r@) == meta_ids(catalog@).take(i as int),
        decreases catalog@.len() - i,
    {
        let ghost r_old = r@;
        r.push(catalog[i].id.clone());
        proof {
            assert(seq_views(r@) =~= seq_views(r_old).push(catalog@[i as int].id@));
            assert(meta_ids(catalog@).take(i + 1) =~= meta_ids(catalog@).take(i as int).push(
                catalog@[i as int].id@,
            ));
        }
        i += 1;
    }
    proof {
        assert(meta_ids(catalog@).take(catalog@.len() as int) =~= meta_ids(catalog@));
    }
    r
}

/// The display name the catalog holds for an id, if any.
pub fn display_name(catalog: &Vec<VerificationMetadata>, id: &String) -> (r: Option<String>)
    requires
        unique_ids(meta_ids(catalog@)),
    ensures
        match r {
            Some(n) => name_map(catalog@).contains_key(id@) && n@ == name_map(catalog@)[id@],
            None => !name_map(catalog@).contains_key(id@),
        },
{
    let mut i: usize = 0;
    while i < catalog.len()
        invariant
            unique_ids(meta_ids(catalog@)),
            i <= catalog@.len(),
            forall|j: int| 0 <= j < i ==> catalog@[j].id@ != id@,
        decreases catalog@.len() - i,
    {
        if catalog[i].id == *id {
            proof {
                lemma_keyed_map_index(meta_ids(catalog@), meta_names(catalog@), i as int);
            }
            return Some(catalog[i].name.clone());
        }
        i += 1;
    }
    proof {
        assert(forall|j: int| 0 <= j < meta_ids(catalog@).len()
            ==> meta_ids(catalog@)[j] != id@);
        lemma_keyed_map_domain(meta_ids(catalog@), meta_names(catalog@), id@);
    }
    None
}

} // verus!
