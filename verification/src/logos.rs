//! The logo cache: decoded team logos keyed by team abbreviation.
//!
//! Entries are added one at a time as the background poller discovers
//! them and persist for the process lifetime; a duplicate arrival simply
//! overwrites the entry for its key and leaves every other key untouched.

use vstd::prelude::*;
use vstd::pervasive::VecAdditionalExecFns;

verus! {

/// A decoded logo: pixel dimensions and RGBA bytes, row-major, four
/// bytes per pixel.
#[derive(Debug)]
pub struct LogoImage {
    pub width: u32,
    pub height: u32,
    pub pixels: Vec<u8>,
}

/// The mapping a sequence of keyed entries denotes: a later entry for a
/// key overrides an earlier one.
spec fn entries_map(s: Seq<(String, LogoImage)>) -> Map<Seq<char>, LogoImage>
    decreases s.len(),
{
    if s.len() == 0 {
        Map::empty()
    } else {
        entries_map(s.drop_last()).insert(s.last().0@, s.last().1)
    }
}

/// An entry whose key does not occur at all is not in the map.
proof fn lemma_entries_map_absent(s: Seq<(String, LogoImage)>, k: Seq<char>)
    requires
        forall|j: int| 0 <= j < s.len() ==> (#[trigger] s[j]).0@ != k,
    ensures
        !entries_map(s).contains_key(k),
    decreases s.len(),
{
    if s.len() > 0 {
        lemma_entries_map_absent(s.drop_last(), k);
    }
}

/// The map carries the value of the last entry for each key.
proof fn lemma_entries_map_last_match(s: Seq<(String, LogoImage)>, i: int)
    requires
        0 <= i < s.len(),
        forall|j: int| i < j < s.len() ==> (#[trigger] s[j]).0@ != s[i].0@,
    ensures
        entries_map(s).contains_key(s[i].0@),
        entries_map(s)[s[i].0@] == s[i].1,
    decreases s.len(),
{
    if i < s.len() - 1 {
        lemma_entries_map_last_match(s.drop_last(), i);
    }
}

/// Replacing the last entry for a key changes the map exactly as an
/// insert for that key does.
proof fn lemma_entries_map_update_last(s: Seq<(String, LogoImage)>, i: int, e: (String, LogoImage))
    requires
        0 <= i < s.len(),
        e.0@ == s[i].0@,
        forall|j: int| i < j < s.len() ==> (#[trigger] s[j]).0@ != s[i].0@,
    ensures
        entries_map(s.update(i, e)) == entries_map(s).insert(e.0@, e.1),
    decreases s.len(),
{
    let t = s.update(i, e);
    if i == s.len() - 1 {
        assert(t.drop_last() =~= s.drop_last());
        assert(t.last() == e);
        assert(entries_map(s.drop_last()).insert(s[i].0@, s[i].1).insert(e.0@, e.1)
            =~= entries_map(s.drop_last()).insert(e.0@, e.1));
    } else {
        assert(t.drop_last() =~= s.drop_last().update(i, e));
        assert(s.drop_last()[i] == s[i]);
        lemma_entries_map_update_last(s.drop_last(), i, e);
        assert(t.last() == s.last());
        assert(s.last().0@ != e.0@);
        assert(entries_map(s.drop_last()).insert(e.0@, e.1).insert(s.last().0@, s.last().1)
            =~= entries_map(s.drop_last()).insert(s.last().0@, s.last().1).insert(e.0@, e.1));
    }
}

/// Mapping from team abbreviation to its decoded logo.
#[derive(Debug)]
pub struct LogoStore {
    entries: Vec<(String, LogoImage)>,
}

impl View for LogoStore {
    type V = Map<Seq<char>, LogoImage>;

    closed spec fn view(&self) -> Map<Seq<char>, LogoImage> {
        entries_map(self.entries@)
    }
}

impl LogoStore {
    /// An empty cache.
    pub fn new() -> (s: LogoStore)
        ensures
            s@ == Map::<Seq<char>, LogoImage>::empty(),
    {
        LogoStore { entries: Vec::new() }
    }

    /// Insert or overwrite the logo for one abbreviation. Never fails;
    /// every other key is unaffected.
    pub fn insert(&mut self, abbr: String, img: LogoImage)
        ensures
            final(self)@ == old(self)@.insert(abbr@, img),
    {
        let n = self.entries.len();
        let mut i: usize = n;
        while i > 0
            invariant
                i <= n,
                n == self.entries@.len(),
                self.entries@ == old(self).entries@,
                forall|j: int| i as int <= j < n as int ==> (#[trigger] self.entries@[j]).0@
                    != abbr@,
            decreases i,
        {
            i = i - 1;
            if self.entries[i].0 == abbr {
                proof {
                    lemma_entries_map_update_last(self.entries@, i as int, (abbr, img));
                }
                self.entries.set(i, (abbr, img));
                return;
            }
        }
        proof {
            assert(self.entries@.push((abbr, img)).drop_last() =~= self.entries@);
        }
        self.entries.push((abbr, img));
    }

    /// Look up the logo for an abbreviation.
    pub fn get(&self, abbr: &String) -> (r: Option<&LogoImage>)
        ensures
            (r is Some) == self@.contains_key(abbr@),
            r matches Some(img) ==> *img == self@[abbr@],
    {
        let n = self.entries.len();
        let mut i: usize = n;
        while i > 0
            invariant
                i <= n,
                n == self.entries@.len(),
                forall|j: int| i as int <= j < n as int ==> (#[trigger] self.entries@[j]).0@
                    != abbr@,
            decreases i,
        {
            i = i - 1;
            if self.entries[i].0 == *abbr {
                proof {
                    lemma_entries_map_last_match(self.entries@, i as int);
                }
                return Some(&self.entries[i].1);
            }
        }
        proof {
            lemma_entries_map_absent(self.entries@, abbr@);
        }
        None
    }

    /// Whether a logo has been decoded for this abbreviation.
    pub fn contains(&self, abbr: &String) -> (r: bool)
        ensures
            r == self@.contains_key(abbr@),
    {
        self.get(abbr).is_some()
    }
}

} // verus!
