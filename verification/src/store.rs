//! A model of the snippet store: the storage directory's existence and its
//! entries, with the four operations the store supports.
//!
//! The store keeps short text snippets as individual files, direct children
//! of one storage directory. This type carries the state those operations
//! act on — whether the directory exists yet, and which entries it holds —
//! and gives each operation an exact contract: what is created, what is
//! read back, what the listing shows, and on which inputs each operation
//! fails. Callers that bind the store to a real filesystem perform one
//! filesystem action per operation and propagate its failures; the
//! contracts here state what every successful run of those actions leaves
//! behind.

use vstd::prelude::*;
use vstd::string::StringExecFns;
use crate::errors::SnippetStoreError;
use crate::listing::Entry;
use crate::listing::EntryView;
use crate::listing::listing_lines;
use crate::listing::render_listing;
use crate::listing::views_of;

verus! {

/// Well-formedness of a directory's entries: every name is non-empty, and
/// no two entries share a name.
pub open spec fn entries_wf(s: Seq<EntryView>) -> bool {
    &&& forall|i: int| 0 <= i < s.len() ==> (#[trigger] s[i]).name.len() > 0
    &&& forall|i: int, j: int|
        0 <= i < j < s.len() ==> (#[trigger] s[i]).name != (#[trigger] s[j]).name
}

/// The mathematical image of a [`Store`].
pub ghost struct StoreView {
    pub exists: bool,
    pub entries: Seq<EntryView>,
}

/// Well-formedness of the whole store: its entries are well-formed, and a
/// directory that does not exist yet holds nothing.
pub open spec fn store_wf(s: StoreView) -> bool {
    entries_wf(s.entries) && (!s.exists ==> s.entries.len() == 0)
}

/// Whether some snippet file named `n` is among the entries `s`.
pub open spec fn has_file(s: Seq<EntryView>, n: Seq<char>) -> bool {
    exists|i: int| 0 <= i < s.len() && !(#[trigger] s[i]).is_dir && s[i].name == n
}

/// Whether some subdirectory named `n` is among the entries `s`.
pub open spec fn has_dir(s: Seq<EntryView>, n: Seq<char>) -> bool {
    exists|i: int| 0 <= i < s.len() && (#[trigger] s[i]).is_dir && s[i].name == n
}

/// The position of the snippet file named `n` among the entries `s`;
/// meaningful only when `has_file(s, n)` holds.
pub open spec fn file_index(s: Seq<EntryView>, n: Seq<char>) -> int {
    choose|i: int| 0 <= i < s.len() && !(#[trigger] s[i]).is_dir && s[i].name == n
}

/// What reading the snippet named `n` from the entries `s` yields: the
/// content of the file of that name, or nothing when there is no such file.
pub open spec fn read_spec(s: Seq<EntryView>, n: Seq<char>) -> Option<Seq<char>> {
    if has_file(s, n) {
        Some(s[file_index(s, n)].content)
    } else {
        None
    }
}

/// Whether writing a snippet named `n` among the entries `s` can succeed:
/// the name must be non-empty and must not collide with a subdirectory.
pub open spec fn can_create(s: Seq<EntryView>, n: Seq<char>) -> bool {
    n.len() > 0 && !has_dir(s, n)
}

/// The snippet-file entry named `n` with content `c`.
pub open spec fn file_entry(n: Seq<char>, c: Seq<char>) -> EntryView {
    EntryView { name: n, content: c, is_dir: false }
}

/// The entries after writing the snippet named `n` with content `c`: the
/// file of that name is overwritten in place when it exists, else a new
/// entry is appended.
pub open spec fn upsert(s: Seq<EntryView>, n: Seq<char>, c: Seq<char>) -> Seq<EntryView> {
    if has_file(s, n) {
        s.update(file_index(s, n), file_entry(n, c))
    } else {
        s.push(file_entry(n, c))
    }
}

/// The store after the directory has been made to exist; its entries are
/// untouched.
pub open spec fn after_initialize(s: StoreView) -> StoreView {
    StoreView { exists: true, entries: s.entries }
}

/// Among well-formed entries, the file named `n` sits at one position only:
/// `file_index` is that position.
pub proof fn lemma_file_index_at(s: Seq<EntryView>, n: Seq<char>, i: int)
    requires
        entries_wf(s),
        0 <= i < s.len(),
        !s[i].is_dir,
        s[i].name == n,
    ensures
        has_file(s, n),
        file_index(s, n) == i,
{
    assert(has_file(s, n));
    let j = file_index(s, n);
    assert(0 <= j < s.len() && !s[j].is_dir && s[j].name == n);
    if i < j {
        assert(s[i].name != s[j].name);
    } else if j < i {
        assert(s[j].name != s[i].name);
    }
}

/// Among well-formed entries, at most one entry carries a given name: any
/// entry named like entry `i` is entry `i`.
pub proof fn lemma_name_unique(s: Seq<EntryView>, i: int, j: int)
    requires
        entries_wf(s),
        0 <= i < s.len(),
        0 <= j < s.len(),
        s[i].name == s[j].name,
    ensures
        i == j,
{
    if i < j {
        assert(s[i].name != s[j].name);
    } else if j < i {
        assert(s[j].name != s[i].name);
    }
}

/// The snippet store: whether its storage directory exists, and the entries
/// the directory holds. Every operation resolves the directory first and
/// creates it when it is missing, so each operation leaves `exists` true.
pub struct Store {
    exists: bool,
    entries: Vec<Entry>,
}

impl View for Store {
    type V = StoreView;

    closed spec fn view(&self) -> StoreView {
        StoreView { exists: self.exists, entries: self.entries@.map_values(|e: Entry| e@) }
    }
}

impl Store {
    /// A store whose directory does not exist yet and which holds nothing.
    pub fn new() -> (r: Store)
        ensures
            !r@.exists,
            r@.entries == Seq::<EntryView>::empty(),
            store_wf(r@),
    {
        let r = Store { exists: false, entries: Vec::new() };
        proof {
            assert(r@.entries =~= Seq::<EntryView>::empty());
        }
        r
    }

    /// A store whose directory already exists and holds the given entries,
    /// as a directory enumeration reports them. Fails when the entries
    /// could not have come from one directory: an entry with an empty
    /// name, or one name borne by two entries.
    pub fn from_snapshot(entries: Vec<Entry>) -> (r: Result<Store, SnippetStoreError>)
        ensures
            entries_wf(entries@.map_values(|e: Entry| e@)) ==> (r matches Ok(st) && st@.exists
                && st@.entries == entries@.map_values(|e: Entry| e@) && store_wf(st@)),
            !entries_wf(entries@.map_values(|e: Entry| e@)) ==> (r matches Err(e) && e is IOError),
    {
        let ghost s = entries@.map_values(|e: Entry| e@);
        let mut i: usize = 0;
        while i < entries.len()
            invariant
                s == entries@.map_values(|e: Entry| e@),
                i <= entries@.len(),
                forall|p: int| 0 <= p < i ==> (#[trigger] s[p]).name.len() > 0,
                forall|p: int, q: int|
                    0 <= p < q < i ==> (#[trigger] s[p]).name != (#[trigger] s[q]).name,
            decreases entries@.len() - i,
        {
            if entries[i].name.as_str().is_empty() {
                proof {
                    assert(s[i as int].name.len() == 0);
                }
                return Err(
                    SnippetStoreError::IOError(String::from_str("an entry has an empty name")),
                );
            }
            let mut j: usize = 0;
            while j < i
                invariant
                    s == entries@.map_values(|e: Entry| e@),
                    j <= i < entries@.len(),
                    forall|q: int| 0 <= q < j ==> (#[trigger] s[q]).name != s[i as int].name,
                decreases i - j,
            {
                if entries[j].name == entries[i].name {
                    proof {
                        assert(s[j as int].name == s[i as int].name);
                    }
                    return Err(
                        SnippetStoreError::IOError(String::from_str("two entries share a name")),
                    );
                }
                j = j + 1;
            }
            i = i + 1;
        }
        Ok(Store { exists: true, entries })
    }

    /// Makes the storage directory exist; entries are untouched. Doing
    /// this twice is the same as doing it once: see
    /// [`crate::laws::lemma_initialize_idempotent`].
    pub fn initialize(&mut self)
        requires
            store_wf(old(self)@),
        ensures
            final(self)@ == after_initialize(old(self)@),
            store_wf(final(self)@),
    {
        self.exists = true;
    }

    /// Resolves the storage directory before an operation, creating it when
    /// it is missing; the result says whether it was missing, in which case
    /// the caller owes the user one guidance message.
    pub fn ensure_present(&mut self) -> (guidance: bool)
        requires
            store_wf(old(self)@),
        ensures
            final(self)@ == after_initialize(old(self)@),
            store_wf(final(self)@),
            guidance == !old(self)@.exists,
    {
        let guidance = !self.exists;
        self.exists = true;
        guidance
    }

    /// Writes the snippet named `name` with text `content`, overwriting a
    /// file of the same name without warning; the directory is created
    /// first when it is missing. Writing fails — as the underlying
    /// filesystem write would — exactly when the name is empty or collides
    /// with a subdirectory, and then changes nothing.
    pub fn create(&mut self, name: &str, content: &str) -> (r: Result<(), SnippetStoreError>)
        requires
            store_wf(old(self)@),
        ensures
            store_wf(final(self)@),
            final(self)@.exists,
            can_create(old(self)@.entries, name@) ==> (r is Ok && final(self)@.entries == upsert(
                old(self)@.entries,
                name@,
                content@,
            )),
            !can_create(old(self)@.entries, name@) ==> (r matches Err(e) && e is IOError
                && final(self)@.entries == old(self)@.entries),
    {
        self.exists = true;
        let ghost s = old(self)@.entries;
        proof {
            assert(self@.entries =~= s);
        }
        if name.is_empty() {
            return Err(
                SnippetStoreError::IOError(
                    String::from_str("cannot write a snippet whose name is empty"),
                ),
            );
        }
        let name_owned = String::from_str(name);
        let mut i: usize = 0;
        while i < self.entries.len()
            invariant
                self.exists,
                name_owned@ == name@,
                s == old(self)@.entries,
                self@.entries == s,
                entries_wf(s),
                i <= s.len(),
                s.len() == self.entries@.len(),
                forall|j: int| 0 <= j < i ==> (#[trigger] s[j]).name != name@,
            decreases self.entries@.len() - i,
        {
            if self.entries[i].name == name_owned {
                if self.entries[i].is_dir {
                    proof {
                        assert(s[i as int].is_dir && s[i as int].name == name@);
                        assert(has_dir(s, name@));
                    }
                    return Err(
                        SnippetStoreError::IOError(
                            String::from_str("a directory of that name is in the way"),
                        ),
                    );
                }
                proof {
                    lemma_file_index_at(s, name@, i as int);
                    assert forall|j: int|
                        0 <= j < s.len() && (#[trigger] s[j]).is_dir implies s[j].name != name@ by {
                        if s[j].name == name@ {
                            lemma_name_unique(s, j, i as int);
                        }
                    }
                    assert(!has_dir(s, name@));
                    assert(s[i as int].name.len() > 0);
                }
                self.entries[i] = Entry {
                    name: name_owned,
                    content: String::from_str(content),
                    is_dir: false,
                };
                proof {
                    assert(self@.entries =~= s.update(i as int, file_entry(name@, content@)));
                    assert(self@.entries =~= upsert(s, name@, content@));
                    assert forall|p: int, q: int|
                        0 <= p < q < self@.entries.len() implies (#[trigger] self@.entries[p]).name
                        != (#[trigger] self@.entries[q]).name by {
                        if p != i as int && q != i as int {
                            assert(s[p].name != s[q].name);
                        } else if p == i as int {
                            if s[q].name == name@ {
                                lemma_name_unique(s, q, i as int);
                            }
                        } else {
                            if s[p].name == name@ {
                                lemma_name_unique(s, p, i as int);
                            }
                        }
                    }
                }
                return Ok(());
            }
            i = i + 1;
        }
        proof {
            assert(forall|j: int| 0 <= j < s.len() ==> (#[trigger] s[j]).name != name@);
            assert(!has_file(s, name@));
            assert(!has_dir(s, name@));
        }
        self.entries.push(
            Entry { name: name_owned, content: String::from_str(content), is_dir: false },
        );
        proof {
            assert(self@.entries =~= s.push(file_entry(name@, content@)));
            assert(self@.entries =~= upsert(s, name@, content@));
            assert forall|p: int, q: int|
                0 <= p < q < self@.entries.len() implies (#[trigger] self@.entries[p]).name
                != (#[trigger] self@.entries[q]).name by {
                if q == s.len() as int {
                    assert(s[p].name != name@);
                } else {
                    assert(s[p].name != s[q].name);
                }
            }
        }
        Ok(())
    }

    /// Reads back the snippet named `name`; the directory is created first
    /// when it is missing. Reading fails — as the underlying filesystem
    /// read would — exactly when no snippet file of that name is there, and
    /// it never changes the entries.
    pub fn read(&mut self, name: &str) -> (r: Result<String, SnippetStoreError>)
        requires
            store_wf(old(self)@),
        ensures
            store_wf(final(self)@),
            final(self)@ == after_initialize(old(self)@),
            read_spec(old(self)@.entries, name@) matches Some(c) ==> (r matches Ok(t) && t@ == c),
            read_spec(old(self)@.entries, name@) is None ==> (r matches Err(e) && e is IOError),
    {
        self.exists = true;
        let ghost s = old(self)@.entries;
        proof {
            assert(self@.entries =~= s);
        }
        let name_owned = String::from_str(name);
        let mut i: usize = 0;
        while i < self.entries.len()
            invariant
                self.exists,
                name_owned@ == name@,
                s == old(self)@.entries,
                self@.entries == s,
                entries_wf(s),
                i <= s.len(),
                s.len() == self.entries@.len(),
                forall|j: int| 0 <= j < i ==> (#[trigger] s[j]).name != name@,
            decreases self.entries@.len() - i,
        {
            if self.entries[i].name == name_owned {
                if self.entries[i].is_dir {
                    proof {
                        assert forall|j: int|
                            0 <= j < s.len() && !(#[trigger] s[j]).is_dir implies s[j].name
                            != name@ by {
                            if s[j].name == name@ {
                                lemma_name_unique(s, j, i as int);
                            }
                        }
                        assert(!has_file(s, name@));
                    }
                    return Err(
                        SnippetStoreError::IOError(
                            String::from_str("a directory of that name is in the way"),
                        ),
                    );
                }
                proof {
                    lemma_file_index_at(s, name@, i as int);
                }
                return Ok(self.entries[i].content.clone());
            }
            i = i + 1;
        }
        proof {
            assert(!has_file(s, name@));
        }
        Err(SnippetStoreError::IOError(String::from_str("no snippet of that name is stored")))
    }

    /// Lists the stored snippets: one line per snippet file, skipping
    /// subdirectories, each line `<index>: <name>` with the entry's
    /// position among all entries; the directory is created first when it
    /// is missing, and the entries are never changed.
    pub fn list(&mut self) -> (r: Vec<String>)
        requires
            store_wf(old(self)@),
        ensures
            store_wf(final(self)@),
            final(self)@ == after_initialize(old(self)@),
            views_of(r@) == listing_lines(old(self)@.entries),
    {
        self.exists = true;
        render_listing(&self.entries)
    }
}

} // verus!
