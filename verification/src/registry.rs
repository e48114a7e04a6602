//! The registry: the master password, and for each platform the picture that
//! carries its secret.

use vstd::prelude::*;
use crate::error::VaultError;
use crate::names::same_ignoring_case;

verus! {

/// One platform and the path of the picture that carries its secret.
#[derive(Debug, Clone, PartialEq, Eq)]
pub struct PlatformEntry {
    pub name: String,
    pub path: String,
}

/// A platform entry as mathematics.
pub struct EntryView {
    pub name: Seq<char>,
    pub path: Seq<char>,
}

impl View for PlatformEntry {
    type V = EntryView;

    open spec fn view(&self) -> EntryView {
        EntryView { name: self.name@, path: self.path@ }
    }
}

/// A registry as mathematics: the master password and the entries in the order
/// in which they were added.
pub struct RegistryView {
    pub password: Seq<char>,
    pub entries: Seq<EntryView>,
}

/// Whether an entry of `entries` goes by `name`, whatever the case of its letters.
pub open spec fn knows(entries: Seq<EntryView>, name: Seq<char>) -> bool {
    exists|i: int| 0 <= i < entries.len() && same_ignoring_case(#[trigger] entries[i].name, name)
}

/// Whether entry `i` is the first of `entries` that goes by `name`.
pub open spec fn is_first_match(entries: Seq<EntryView>, name: Seq<char>, i: int) -> bool {
    &&& 0 <= i < entries.len()
    &&& same_ignoring_case(entries[i].name, name)
    &&& forall|j: int| 0 <= j < i ==> !same_ignoring_case(#[trigger] entries[j].name, name)
}

/// Whether no two entries go by names that differ in letter case at most.
pub open spec fn unique_names(entries: Seq<EntryView>) -> bool {
    forall|i: int, j: int|
        0 <= i < j < entries.len() ==> !same_ignoring_case(
            #[trigger] entries[i].name,
            #[trigger] entries[j].name,
        )
}

/// The entries after an attempt to add `name` with `path`: unchanged where the
/// name is taken, else with the new entry at the end.
pub open spec fn added(entries: Seq<EntryView>, name: Seq<char>, path: Seq<char>) -> Seq<
    EntryView,
> {
    if knows(entries, name) {
        entries
    } else {
        entries.push(EntryView { name, path })
    }
}

/// How many entries go by `name`.
pub open spec fn count_named(entries: Seq<EntryView>, name: Seq<char>) -> nat {
    entries.filter(|e: EntryView| same_ignoring_case(e.name, name)).len()
}

/// The views of a sequence of entries.
pub open spec fn entry_views(entries: Seq<PlatformEntry>) -> Seq<EntryView> {
    entries.map_values(|e: PlatformEntry| e@)
}

/// The master password and the platforms it guards. No two platforms go by names
/// that differ in letter case at most.
#[derive(Debug)]
pub struct VaultRegistry {
    password: String,
    entries: Vec<PlatformEntry>,
}

impl View for VaultRegistry {
    type V = RegistryView;

    closed spec fn view(&self) -> RegistryView {
        RegistryView { password: self.password@, entries: entry_views(self.entries@) }
    }
}

impl VaultRegistry {
    #[verifier::type_invariant]
    spec fn well_formed(&self) -> bool {
        unique_names(entry_views(self.entries@))
    }

    /// A registry with a master password and no platform.
    pub fn new(password: String) -> (registry: VaultRegistry)
        ensures
            registry@.password == password@,
            registry@.entries.len() == 0,
    {
        VaultRegistry { password, entries: Vec::new() }
    }

    /// A registry with the given master password and entries. Fails with
    /// `NoMasterPassword` exactly when there is no password; else with
    /// `MalformedRegistry` exactly when two entries go by names that differ in
    /// letter case at most.
    pub fn from_parts(password: Option<String>, entries: Vec<PlatformEntry>) -> (r: Result<
        VaultRegistry,
        VaultError,
    >)
        ensures
            match r {
                Ok(registry) => {
                    &&& password matches Some(p)
                    &&& registry@.password == p@
                    &&& registry@.entries == entry_views(entries@)
                    &&& unique_names(entry_views(entries@))
                },
                Err(e) => if password is None {
                    e == VaultError::NoMasterPassword
                } else {
                    e == VaultError::MalformedRegistry && !unique_names(entry_views(entries@))
                },
            },
    {
        let master = match password {
            Some(p) => p,
            None => { return Err(VaultError::NoMasterPassword); },
        };
        let ghost master_view = master@;
        let mut registry = VaultRegistry::new(master);
        let ghost all = entry_views(entries@);
        let mut i: usize = 0;
        while i < entries.len()
            invariant
                i <= entries@.len(),
                all == entry_views(entries@),
                password is Some,
                registry@.password == master_view,
                registry@.entries == all.take(i as int),
                unique_names(registry@.entries),
            decreases entries@.len() - i,
        {
            let entry = &entries[i];
            let added = registry.add_platform(entry.name.as_str(), entry.path.as_str());
            if added.is_err() {
                proof {
                    let k = choose|k: int|
                        0 <= k < i && same_ignoring_case(
                            #[trigger] all.take(i as int)[k].name,
                            entry.name@,
                        );
                    assert(same_ignoring_case(all[k].name, all[i as int].name));
                }
                return Err(VaultError::MalformedRegistry);
            }
            assert(all.take(i as int).push(all[i as int]) =~= all.take(i + 1));
            i = i + 1;
        }
        assert(all.take(i as int) =~= all);
        Ok(registry)
    }

    /// The master password.
    pub fn password(&self) -> (password: &str)
        ensures
            password@ == self@.password,
    {
        self.password.as_str()
    }

    /// The number of platforms. No two of them go by names that differ in
    /// letter case at most.
    pub fn len(&self) -> (n: usize)
        ensures
            n == self@.entries.len(),
            unique_names(self@.entries),
    {
        proof {
            use_type_invariant(self);
        }
        self.entries.len()
    }

    /// The entry at position `index`, in the order of adding.
    pub fn entry(&self, index: usize) -> (entry: Option<&PlatformEntry>)
        ensures
            index < self@.entries.len() ==> (entry matches Some(e) && e@
                == self@.entries[index as int]),
            index >= self@.entries.len() ==> entry is None,
    {
        if index < self.entries.len() {
            Some(&self.entries[index])
        } else {
            None
        }
    }

    /// The path of the picture of the platform that goes by `name`, whatever the
    /// case of its letters: that of the first such entry. Fails with
    /// `PlatformNotFound` exactly when no entry goes by the name.
    pub fn lookup(&self, name: &str) -> (r: Result<&str, VaultError>)
        ensures
            match r {
                Ok(path) => exists|i: int| #[trigger]
                    is_first_match(self@.entries, name@, i) && path@ == self@.entries[i].path,
                Err(e) => e == VaultError::PlatformNotFound && !knows(self@.entries, name@),
            },
    {
        let mut i: usize = 0;
        while i < self.entries.len()
            invariant
                i <= self.entries@.len(),
                forall|j: int|
                    0 <= j < i ==> !same_ignoring_case(
                        #[trigger] entry_views(self.entries@)[j].name,
                        name@,
                    ),
            decreases self.entries@.len() - i,
        {
            if self.entries[i].name.as_str().eq_ignore_ascii_case(name) {
                assert(is_first_match(self@.entries, name@, i as int));
                return Ok(self.entries[i].path.as_str());
            }
            i = i + 1;
        }
        Err(VaultError::PlatformNotFound)
    }

    /// Adds the platform `name` with the picture at `path`. Fails with
    /// `DuplicatePlatform`, and changes nothing, exactly when an entry already
    /// goes by the name, whatever the case of its letters; else the new entry
    /// comes last.
    pub fn add_platform(&mut self, name: &str, path: &str) -> (r: Result<(), VaultError>)
        ensures
            final(self)@.password == old(self)@.password,
            final(self)@.entries == added(old(self)@.entries, name@, path@),
            unique_names(final(self)@.entries),
            r == if knows(old(self)@.entries, name@) {
                Err::<(), VaultError>(VaultError::DuplicatePlatform)
            } else {
                Ok::<(), VaultError>(())
            },
    {
        proof {
            use_type_invariant(&*self);
        }
        if self.lookup(name).is_ok() {
            return Err(VaultError::DuplicatePlatform);
        }
        let ghost before = entry_views(self.entries@);
        let mut taken = VaultRegistry { password: String::new(), entries: Vec::new() };
        core::mem::swap(self, &mut taken);
        let VaultRegistry { password, mut entries } = taken;
        entries.push(PlatformEntry { name: name.to_owned(), path: path.to_owned() });
        proof {
            let entry = EntryView { name: name@, path: path@ };
            assert(entry_views(entries@) =~= before.push(entry));
            lemma_added_keeps_unique(before, name@, path@);
        }
        *self = VaultRegistry { password, entries };
        Ok(())
    }
}

/// Adding keeps the names unique.
pub proof fn lemma_added_keeps_unique(entries: Seq<EntryView>, name: Seq<char>, path: Seq<char>)
    requires
        unique_names(entries),
    ensures
        unique_names(added(entries, name, path)),
{
    if !knows(entries, name) {
        let after = entries.push(EntryView { name, path });
        assert forall|i: int, j: int| 0 <= i < j < after.len() implies !same_ignoring_case(
            #[trigger] after[i].name,
            #[trigger] after[j].name,
        ) by {
            if j == entries.len() {
                assert(!same_ignoring_case(entries[i].name, name));
            }
        }
    }
}

/// Counting the entries that go by `name` with one more entry at the end.
pub proof fn lemma_count_named_push(entries: Seq<EntryView>, last: EntryView, name: Seq<char>)
    ensures
        count_named(entries.push(last), name) == count_named(entries, name) + (
        if same_ignoring_case(last.name, name) {
            1nat
        } else {
            0nat
        }),
{
    let goes_by = |e: EntryView| same_ignoring_case(e.name, name);
    assert(entries.push(last).drop_last() =~= entries);
    reveal(Seq::filter);
    assert(entries.push(last).filter(goes_by) == if goes_by(last) {
        entries.filter(goes_by).push(last)
    } else {
        entries.filter(goes_by)
    });
}

/// Among unique names, a name that is known is the name of exactly one entry,
/// and a name that is not known of none.
pub proof fn lemma_count_named(entries: Seq<EntryView>, name: Seq<char>)
    requires
        unique_names(entries),
    ensures
        count_named(entries, name) == if knows(entries, name) {
            1nat
        } else {
            0nat
        },
    decreases entries.len(),
{
    if entries.len() == 0 {
        reveal(Seq::filter);
    } else {
        let front = entries.drop_last();
        let last = entries.last();
        assert(front.push(last) =~= entries);
        lemma_count_named(front, name);
        lemma_count_named_push(front, last, name);
        if same_ignoring_case(last.name, name) {
            assert(entries[entries.len() - 1].name == last.name);
            if knows(front, name) {
                let i = choose|i: int|
                    0 <= i < front.len() && same_ignoring_case(#[trigger] front[i].name, name);
                assert(same_ignoring_case(entries[i].name, entries[entries.len() - 1].name));
            }
        } else {
            if knows(entries, name) {
                let i = choose|i: int|
                    0 <= i < entries.len() && same_ignoring_case(#[trigger] entries[i].name, name);
                assert(same_ignoring_case(front[i].name, name));
            }
            if knows(front, name) {
                let i = choose|i: int|
                    0 <= i < front.len() && same_ignoring_case(#[trigger] front[i].name, name);
                assert(same_ignoring_case(entries[i].name, name));
            }
        }
    }
}

/// After a platform was added, its name is taken in every letter case: a second
/// attempt under a name that differs in case at most is refused and changes
/// nothing, and exactly one entry goes by the name.
pub proof fn law_name_is_taken_once(
    entries: Seq<EntryView>,
    name: Seq<char>,
    path: Seq<char>,
    again: Seq<char>,
    other_path: Seq<char>,
)
    requires
        unique_names(entries),
        same_ignoring_case(name, again),
    ensures
        knows(added(entries, name, path), again),
        added(added(entries, name, path), again, other_path) == added(entries, name, path),
        count_named(added(entries, name, path), name) == 1,
        count_named(added(entries, name, path), again) == 1,
{
    let after = added(entries, name, path);
    if knows(entries, name) {
        let i = choose|i: int|
            0 <= i < entries.len() && same_ignoring_case(#[trigger] entries[i].name, name);
        assert(same_ignoring_case(after[i].name, again));
    } else {
        assert(same_ignoring_case(after[entries.len() as int].name, again));
        assert(same_ignoring_case(after[entries.len() as int].name, name));
    }
    lemma_added_keeps_unique(entries, name, path);
    lemma_count_named(after, name);
    lemma_count_named(after, again);
}

} // verus!
