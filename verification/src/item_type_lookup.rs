//! The names under which rows store an item's kind.
use vstd::prelude::*;

use crate::model::BaseItemKind;
use crate::text::{opt_text, same_text};

verus! {

/// Which type name a row stores for which kind of item.
#[derive(Debug, Clone)]
pub struct ItemTypeNames {
    pub entries: Vec<(BaseItemKind, String)>,
}

/// The name that the first entry for `kind` gives.
pub open spec fn name_for(
    entries: Seq<(BaseItemKind, String)>,
    kind: BaseItemKind,
) -> Option<Seq<char>>
    decreases entries.len(),
{
    if entries.len() == 0 {
        None
    } else if entries[0].0 == kind {
        Some(entries[0].1@)
    } else {
        name_for(entries.drop_first(), kind)
    }
}

/// The kind that the first entry for `name` gives.
pub open spec fn kind_for(
    entries: Seq<(BaseItemKind, String)>,
    name: Seq<char>,
) -> Option<BaseItemKind>
    decreases entries.len(),
{
    if entries.len() == 0 {
        None
    } else if entries[0].1@ == name {
        Some(entries[0].0)
    } else {
        kind_for(entries.drop_first(), name)
    }
}

impl ItemTypeNames {
    /// The type name for `kind`, if it has one.
    pub open spec fn name_of(&self, kind: BaseItemKind) -> Option<Seq<char>> {
        name_for(self.entries@, kind)
    }

    /// The kind that rows with the type name `name` are of.
    pub open spec fn kind_of(&self, name: Seq<char>) -> Option<BaseItemKind> {
        kind_for(self.entries@, name)
    }

    /// The type name for `kind`, if it has one.
    pub fn stored_type_name(&self, kind: BaseItemKind) -> (r: Option<String>)
        ensures
            opt_text(r) == self.name_of(kind),
    {
        let mut i: usize = 0;
        assert(self.entries@.skip(0) =~= self.entries@);
        while i < self.entries.len()
            invariant
                i <= self.entries.len(),
                self.name_of(kind) == name_for(self.entries@.skip(i as int), kind),
            decreases self.entries.len() - i,
        {
            assert(self.entries@.skip(i as int).drop_first() =~= self.entries@.skip(i + 1));
            if self.entries[i].0 == kind {
                return Some(self.entries[i].1.clone());
            }
            i += 1;
        }
        None
    }

    /// The kind that rows with the type name `name` are of.
    pub fn kind_from_type_name(&self, name: &str) -> (r: Option<BaseItemKind>)
        ensures
            r == self.kind_of(name@),
    {
        let mut i: usize = 0;
        assert(self.entries@.skip(0) =~= self.entries@);
        while i < self.entries.len()
            invariant
                i <= self.entries.len(),
                self.kind_of(name@) == kind_for(self.entries@.skip(i as int), name@),
            decreases self.entries.len() - i,
        {
            assert(self.entries@.skip(i as int).drop_first() =~= self.entries@.skip(i + 1));
            if same_text(self.entries[i].1.as_str(), name) {
                return Some(self.entries[i].0);
            }
            i += 1;
        }
        None
    }
}

} // verus!
