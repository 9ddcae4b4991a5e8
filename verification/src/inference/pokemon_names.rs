//! Looking up Pokémon names by icon file name.

use vstd::prelude::*;
use vstd::string::{StrSliceExecFns, StringExecFns};

use crate::text_match::chars_of;

verus! {

broadcast use vstd::string::group_string_axioms;

/// The map that a list of (key, name) entries makes when the entries are
/// inserted in order, a later entry for the same key replacing an earlier
/// one.
pub open spec fn entries_map(entries: Seq<(String, String)>) -> Map<Seq<char>, Seq<char>>
    decreases entries.len(),
{
    if entries.len() == 0 {
        Map::empty()
    } else {
        entries_map(entries.drop_last()).insert(entries.last().0@, entries.last().1@)
    }
}

/// `i` is the last entry whose key is `key`.
pub open spec fn last_entry_for(entries: Seq<(String, String)>, key: Seq<char>, i: int) -> bool {
    &&& 0 <= i < entries.len()
    &&& entries[i].0@ == key
    &&& forall|j: int| i < j < entries.len() ==> entries[j].0@ != key
}

/// The map holds a key exactly when an entry has it, with the name of the
/// last such entry.
pub proof fn lemma_entries_map_lookup(entries: Seq<(String, String)>, key: Seq<char>)
    ensures
        entries_map(entries).contains_key(key) <==> exists|i: int|
            0 <= i < entries.len() && entries[i].0@ == key,
        forall|i: int| #[trigger]
            last_entry_for(entries, key, i) ==> entries_map(entries)[key] == entries[i].1@,
    decreases entries.len(),
{
    if entries.len() > 0 {
        let rest = entries.drop_last();
        lemma_entries_map_lookup(rest, key);
        if entries.last().0@ != key {
            assert forall|i: int| #[trigger] last_entry_for(entries, key, i) implies entries_map(
                entries,
            )[key] == entries[i].1@ by {
                assert(i < entries.len() - 1);
                assert(last_entry_for(rest, key, i));
            }
            if entries_map(entries).contains_key(key) {
                let i = choose|i: int| 0 <= i < rest.len() && rest[i].0@ == key;
                assert(entries[i].0@ == key);
            }
            if exists|i: int| 0 <= i < entries.len() && entries[i].0@ == key {
                let i = choose|i: int| 0 <= i < entries.len() && entries[i].0@ == key;
                assert(i < entries.len() - 1);
                assert(rest[i].0@ == key);
            }
        } else {
            assert(entries[entries.len() - 1].0@ == key);
        }
    }
}

/// Why name data could not be used.
#[derive(Debug, Clone, Copy, PartialEq, Eq, Structural)]
pub enum NameDataError {
    /// The data holds no entry.
    Empty,
}

/// Pokémon names keyed by icon file name without extension (such as
/// "199_1", national dex number and form number).
pub struct PokemonNameLookup {
    entries: Vec<(String, String)>,
}

/// `s` without a trailing ".png", if it ends with one.
pub open spec fn strip_png(s: Seq<char>) -> Seq<char> {
    if s.len() >= 4 && s[s.len() - 4] == '.' && s[s.len() - 3] == 'p' && s[s.len() - 2] == 'n'
        && s[s.len() - 1] == 'g' {
        s.subrange(0, s.len() - 4)
    } else {
        s
    }
}

/// The name that `names` gives for an icon file name: an empty file name
/// stays empty, a known key (the file name without ".png") gives its name,
/// and an unknown key gives back the file name.
pub open spec fn resolved_name(names: Map<Seq<char>, Seq<char>>, file_name: Seq<char>) -> Seq<char> {
    if file_name.len() == 0 {
        Seq::empty()
    } else if names.contains_key(strip_png(file_name)) {
        names[strip_png(file_name)]
    } else {
        file_name
    }
}

impl PokemonNameLookup {
    /// The names by key.
    pub closed spec fn view(&self) -> Map<Seq<char>, Seq<char>> {
        entries_map(self.entries@)
    }

    /// A lookup without names: `resolve` then gives back every file name as
    /// it is.
    pub fn empty() -> (lookup: Self)
        ensures
            lookup@ == Map::<Seq<char>, Seq<char>>::empty(),
    {
        PokemonNameLookup { entries: Vec::new() }
    }

    /// A lookup from (key, name) entries, a later entry for a key replacing
    /// an earlier one; no entries at all is an error.
    pub fn from_entries(entries: Vec<(String, String)>) -> (r: Result<Self, NameDataError>)
        ensures
            entries@.len() == 0 ==> r == Err::<Self, NameDataError>(NameDataError::Empty),
            entries@.len() > 0 ==> (r matches Ok(lookup) && lookup@ == entries_map(entries@)),
    {
        if entries.len() == 0 {
            return Err(NameDataError::Empty);
        }
        Ok(PokemonNameLookup { entries })
    }

    /// Whether the name data has the key of an icon file name (the file
    /// name without its ".png"); an unknown key is worth a warning, as
    /// `resolve` then gives back the file name.
    pub fn knows(&self, file_name: &str) -> (known: bool)
        ensures
            known == self@.contains_key(strip_png(file_name@)),
    {
        let chars = chars_of(file_name);
        let n = chars.len();
        let key_str = if n >= 4 && chars[n - 4] == '.' && chars[n - 3] == 'p' && chars[n - 2] == 'n'
            && chars[n - 1] == 'g' {
            file_name.substring_char(0, n - 4)
        } else {
            file_name
        };
        let key = String::from_str(key_str);
        assert(key@ == strip_png(file_name@));
        proof {
            lemma_entries_map_lookup(self.entries@, key@);
        }
        let mut i: usize = 0;
        while i < self.entries.len()
            invariant
                i <= self.entries@.len(),
                key@ == strip_png(file_name@),
                forall|j: int| 0 <= j < i ==> self.entries@[j].0@ != key@,
            decreases self.entries@.len() - i,
        {
            if self.entries[i].0 == key {
                proof {
                    assert(self.entries@[i as int].0@ == key@);
                    lemma_entries_map_lookup(self.entries@, key@);
                }
                return true;
            }
            i += 1;
        }
        false
    }

    /// The name for an icon file name such as "199_1.png": the key is the
    /// file name without its ".png"; an unknown key gives back the file name
    /// as it is, and an empty file name (no match) gives back an empty
    /// string.
    pub fn resolve(&self, file_name: &str) -> (name: String)
        ensures
            name@ == resolved_name(self@, file_name@),
    {
        let chars = chars_of(file_name);
        let n = chars.len();
        if n == 0 {
            return String::new();
        }
        let key_str = if n >= 4 && chars[n - 4] == '.' && chars[n - 3] == 'p' && chars[n - 2] == 'n'
            && chars[n - 1] == 'g' {
            file_name.substring_char(0, n - 4)
        } else {
            file_name
        };
        let key = String::from_str(key_str);
        assert(key@ == strip_png(file_name@));
        let mut i = self.entries.len();
        while i > 0
            invariant
                i <= self.entries@.len(),
                key@ == strip_png(file_name@),
                file_name@.len() > 0,
                forall|j: int| i <= j < self.entries@.len() ==> self.entries@[j].0@ != key@,
            decreases i,
        {
            i -= 1;
            if self.entries[i].0 == key {
                proof {
                    lemma_entries_map_lookup(self.entries@, key@);
                    assert(last_entry_for(self.entries@, key@, i as int));
                }
                return self.entries[i].1.clone();
            }
        }
        proof {
            lemma_entries_map_lookup(self.entries@, key@);
        }
        String::from_str(file_name)
    }
}

/// A lookup without names gives back every file name as it is.
pub proof fn lemma_empty_resolves_to_file_name(file_name: Seq<char>)
    ensures
        resolved_name(Map::empty(), file_name) == file_name,
{
}

/// ".png" as characters.
pub open spec fn png_suffix() -> Seq<char> {
    seq!['.', 'p', 'n', 'g']
}

/// An icon file name is looked up by its name without ".png": the file
/// "k.png" gives the name of key "k" when the data has it, and the file
/// name itself when it does not; a file name without a ".png" ending is
/// looked up as it is.
pub proof fn lemma_png_files_resolve_by_key(names: Map<Seq<char>, Seq<char>>, key: Seq<char>)
    ensures
        strip_png(key + png_suffix()) == key,
        names.contains_key(key) ==> resolved_name(names, key + png_suffix()) == names[key],
        !names.contains_key(key) ==> resolved_name(names, key + png_suffix()) == key + png_suffix(),
        (key.len() < 4 || key.subrange(key.len() - 4, key.len() as int) != png_suffix()) ==> strip_png(key)
            == key,
{
    let f = key + png_suffix();
    assert(f.subrange(0, f.len() - 4) =~= key);
    if key.len() >= 4 && strip_png(key) != key {
        assert(key.subrange(key.len() - 4, key.len() as int) =~= png_suffix());
    }
}

} // verus!
