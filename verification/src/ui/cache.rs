//! Listings that have been read before.

use vstd::prelude::*;

use crate::path::Platform;
use crate::ui::browser::{duplicate_entries, BrowserEntry, Location};

verus! {

/// The listing of a folder.
pub struct CachedFolder {
    pub location: Location,
    pub entries: Vec<BrowserEntry>,
}

/// Listings by their locations.
pub struct FolderCache {
    pub platform: Platform,
    pub folders: Vec<CachedFolder>,
}

/// The listings by what tells their locations apart; of two for the same location the later one
/// counts.
pub open spec fn by_key(platform: Platform, folders: Seq<CachedFolder>) -> Map<
    crate::ui::browser::LocationKey,
    Seq<crate::ui::browser::EntryView>,
>
    decreases folders.len(),
{
    if folders.len() == 0 {
        Map::empty()
    } else {
        by_key(platform, folders.drop_last()).insert(
            folders.last().location@.key(platform),
            crate::ui::browser::entry_views(folders.last().entries@),
        )
    }
}

impl View for FolderCache {
    type V = Map<crate::ui::browser::LocationKey, Seq<crate::ui::browser::EntryView>>;

    open spec fn view(&self) -> Self::V {
        by_key(self.platform, self.folders@)
    }
}

/// The views of optional rows.
pub open spec fn optional_rows(entries: Option<Vec<BrowserEntry>>) -> Option<
    Seq<crate::ui::browser::EntryView>,
> {
    match entries {
        Some(entries) => Some(crate::ui::browser::entry_views(entries@)),
        None => None,
    }
}

impl FolderCache {
    /// A cache that holds nothing.
    pub fn new(platform: Platform) -> (r: FolderCache)
        ensures
            r.platform == platform,
            r@ == Map::<
                crate::ui::browser::LocationKey,
                Seq<crate::ui::browser::EntryView>,
            >::empty(),
    {
        FolderCache { platform, folders: Vec::new() }
    }

    /// The listing of a location, if there is one.
    pub fn lookup(&self, location: &Location) -> (r: Option<Vec<BrowserEntry>>)
        ensures
            optional_rows(r) == if self@.contains_key(location@.key(self.platform)) {
                Some(self@[location@.key(self.platform)])
            } else {
                None
            },
    {
        let ghost key = location@.key(self.platform);
        let mut n: usize = self.folders.len();
        assert(self.folders@.take(n as int) =~= self.folders@);
        while n > 0
            invariant
                n <= self.folders@.len(),
                key == location@.key(self.platform),
                self@.contains_key(key) == by_key(
                    self.platform,
                    self.folders@.take(n as int),
                ).contains_key(key),
                self@.contains_key(key) ==> self@[key] == by_key(
                    self.platform,
                    self.folders@.take(n as int),
                )[key],
            decreases n,
        {
            let ghost first = self.folders@.take(n as int);
            assert(first.drop_last() =~= self.folders@.take(n - 1));
            n = n - 1;
            if self.folders[n].location.is_same(self.platform, location) {
                return Some(duplicate_entries(&self.folders[n].entries));
            }
        }
        None
    }

    /// Forgets the listing of a location.
    pub fn invalidate(&mut self, location: &Location)
        ensures
            final(self).platform == old(self).platform,
            final(self)@ == old(self)@.remove(location@.key(old(self).platform)),
    {
        let ghost key = location@.key(self.platform);
        let mut kept: Vec<CachedFolder> = Vec::new();
        let mut i: usize = 0;
        assert(by_key(self.platform, kept@) =~= by_key(
            self.platform,
            self.folders@.take(0),
        ).remove(key));
        while i < self.folders.len()
            invariant
                i <= self.folders@.len(),
                self.platform == old(self).platform,
                self.folders == old(self).folders,
                key == location@.key(self.platform),
                by_key(self.platform, kept@) == by_key(
                    self.platform,
                    self.folders@.take(i as int),
                ).remove(key),
            decreases self.folders@.len() - i,
        {
            let ghost next = self.folders@.take(i + 1);
            let ghost rest = by_key(self.platform, self.folders@.take(i as int));
            assert(next.drop_last() =~= self.folders@.take(i as int));
            if self.folders[i].location.is_same(self.platform, location) {
                assert(by_key(self.platform, next).remove(key) =~= rest.remove(key));
            } else {
                let ghost before = kept@;
                let folder = CachedFolder {
                    location: self.folders[i].location.duplicate(),
                    entries: duplicate_entries(&self.folders[i].entries),
                };
                kept.push(folder);
                assert(kept@.drop_last() =~= before);
                assert(by_key(self.platform, kept@) =~= by_key(self.platform, next).remove(key));
            }
            i = i + 1;
        }
        assert(self.folders@.take(i as int) =~= self.folders@);
        self.folders = kept;
    }

    /// Remembers the listing of a location in place of an earlier one.
    pub fn store(&mut self, location: &Location, entries: &Vec<BrowserEntry>)
        ensures
            final(self).platform == old(self).platform,
            final(self)@ == old(self)@.insert(
                location@.key(old(self).platform),
                crate::ui::browser::entry_views(entries@),
            ),
    {
        self.invalidate(location);
        let ghost before = self.folders@;
        self.folders.push(
            CachedFolder { location: location.duplicate(), entries: duplicate_entries(entries) },
        );
        assert(self.folders@.drop_last() =~= before);
        assert(self@ =~= old(self)@.insert(
            location@.key(old(self).platform),
            crate::ui::browser::entry_views(entries@),
        ));
    }
}

// ── laws ────────────────────────────────────────────────────────────────────

/// The listing that was stored last for a location is the one that it has, and the listings of
/// other locations stay.
pub proof fn law_later_listing_counts(
    platform: Platform,
    folders: Seq<CachedFolder>,
    folder: CachedFolder,
    key: crate::ui::browser::LocationKey,
)
    ensures
        ({
            let own = folder.location@.key(platform);
            let before = by_key(platform, folders);
            let after = by_key(platform, folders.push(folder));
            &&& after.contains_key(own)
            &&& after[own] == crate::ui::browser::entry_views(folder.entries@)
            &&& key != own ==> after.contains_key(key) == before.contains_key(key)
            &&& key != own && before.contains_key(key) ==> after[key] == before[key]
        }),
        !by_key(platform, seq![]).contains_key(key),
{
    assert(folders.push(folder).drop_last() =~= folders);
}

} // verus!
