//! The listing operation: which entries of the storage directory are shown,
//! and the exact line printed for each.
//!
//! An entry of the storage directory is either a snippet file or a
//! subdirectory. The listing shows one line per file, `<index>: <name>`,
//! and skips subdirectories; the index counts every entry in enumeration
//! order, skipped subdirectories included, so indices need not be
//! contiguous whenever a subdirectory is present. That numbering is the
//! store's contract, stated here exactly rather than silently rebased.

use vstd::prelude::*;
use vstd::string::StringExecFns;
use crate::decimal::dec_digits;
use crate::decimal::usize_to_string;

verus! {

/// One entry of the storage directory: its file name, its text when it is a
/// snippet file, and whether it is itself a directory. A snippet is an
/// entry that is not a directory; the content of a directory entry is
/// meaningless and kept empty. Enumeration alone does not know contents, so
/// code that only lists a directory fills `content` with the empty string.
pub struct Entry {
    pub name: String,
    pub content: String,
    pub is_dir: bool,
}

/// The mathematical image of an [`Entry`].
pub ghost struct EntryView {
    pub name: Seq<char>,
    pub content: Seq<char>,
    pub is_dir: bool,
}

impl View for Entry {
    type V = EntryView;

    open spec fn view(&self) -> EntryView {
        EntryView { name: self.name@, content: self.content@, is_dir: self.is_dir }
    }
}

/// The listing line for the entry named `name` at position `idx`.
pub open spec fn line_of(idx: nat, name: Seq<char>) -> Seq<char> {
    dec_digits(idx) + ": "@ + name
}

/// The listing lines contributed by the first `k` entries of `s`: one line
/// per non-directory entry, indexed by its position among all entries.
pub open spec fn listing_upto(s: Seq<EntryView>, k: int) -> Seq<Seq<char>>
    decreases k,
{
    if k <= 0 {
        Seq::empty()
    } else if s[k - 1].is_dir {
        listing_upto(s, k - 1)
    } else {
        listing_upto(s, k - 1) + seq![line_of((k - 1) as nat, s[k - 1].name)]
    }
}

/// The listing lines for the whole directory `s`.
pub open spec fn listing_lines(s: Seq<EntryView>) -> Seq<Seq<char>> {
    listing_upto(s, s.len() as int)
}

/// The views of a sequence of rendered lines.
pub open spec fn views_of(lines: Seq<String>) -> Seq<Seq<char>> {
    lines.map_values(|l: String| l@)
}

/// Renders the listing line for the entry named `name` at position `idx`.
pub fn render_line(idx: usize, name: &str) -> (r: String)
    ensures
        r@ == line_of(idx as nat, name@),
{
    let r = usize_to_string(idx).concat(": ").concat(name);
    proof {
        assert(r@ =~= line_of(idx as nat, name@));
    }
    r
}

/// Renders the listing of a directory: one line per snippet file, skipping
/// subdirectories, each line carrying the entry's position among all
/// entries.
pub fn render_listing(entries: &Vec<Entry>) -> (r: Vec<String>)
    ensures
        views_of(r@) == listing_lines(entries@.map_values(|e: Entry| e@)),
{
    let ghost s = entries@.map_values(|e: Entry| e@);
    let mut r: Vec<String> = Vec::new();
    let mut i: usize = 0;
    while i < entries.len()
        invariant
            i <= entries@.len(),
            s == entries@.map_values(|e: Entry| e@),
            views_of(r@) == listing_upto(s, i as int),
        decreases entries@.len() - i,
    {
        let ghost prev = r@;
        if !entries[i].is_dir {
            let line = render_line(i, entries[i].name.as_str());
            r.push(line);
            proof {
                assert(views_of(r@) =~= views_of(prev) + seq![line_of(i as nat, s[i as int].name)]);
            }
        }
        i = i + 1;
        proof {
            assert(views_of(r@) =~= listing_upto(s, i as int));
        }
    }
    proof {
        assert(views_of(r@) =~= listing_lines(s));
    }
    r
}

/// Whether `x` is the listing line of some non-directory entry among the
/// first `bound` entries of `s`, at that entry's own position.
pub open spec fn is_file_line(s: Seq<EntryView>, bound: int, x: Seq<char>) -> bool {
    exists|i: int| 0 <= i < bound && !(#[trigger] s[i]).is_dir && x == line_of(i as nat, s[i].name)
}

/// The listing never shows a directory and misses no snippet: every line of
/// the listing is the line of some non-directory entry at its own position,
/// and every non-directory entry's line is in the listing.
pub proof fn lemma_listing_excludes_directories(s: Seq<EntryView>)
    ensures
        forall|j: int|
            0 <= j < listing_lines(s).len() ==> is_file_line(s, s.len() as int, #[trigger] listing_lines(s)[j]),
        forall|i: int|
            0 <= i < s.len() && !(#[trigger] s[i]).is_dir ==> listing_lines(s).contains(
                line_of(i as nat, s[i].name),
            ),
{
    lemma_listing_upto_shape(s, s.len() as int);
}

/// The two directions of [`lemma_listing_excludes_directories`], proved by
/// induction over the prefix length.
proof fn lemma_listing_upto_shape(s: Seq<EntryView>, k: int)
    requires
        k <= s.len(),
    ensures
        forall|j: int|
            0 <= j < listing_upto(s, k).len() ==> is_file_line(s, k, #[trigger] listing_upto(s, k)[j]),
        forall|i: int|
            0 <= i < k && !(#[trigger] s[i]).is_dir ==> listing_upto(s, k).contains(
                line_of(i as nat, s[i].name),
            ),
    decreases k,
{
    if k <= 0 {
    } else {
        lemma_listing_upto_shape(s, k - 1);
        assert forall|j: int| 0 <= j < listing_upto(s, k).len() implies is_file_line(
            s,
            k,
            listing_upto(s, k)[j],
        ) by {
            if j < listing_upto(s, k - 1).len() {
                assert(is_file_line(s, k - 1, listing_upto(s, k - 1)[j]));
                let i = choose|i: int|
                    0 <= i < k - 1 && !(#[trigger] s[i]).is_dir && listing_upto(s, k - 1)[j]
                        == line_of(i as nat, s[i].name);
                assert(listing_upto(s, k)[j] == listing_upto(s, k - 1)[j]);
                assert(0 <= i < k && !s[i].is_dir && listing_upto(s, k)[j] == line_of(
                    i as nat,
                    s[i].name,
                ));
            } else {
                assert(!s[k - 1].is_dir);
                assert(listing_upto(s, k)[j] == line_of((k - 1) as nat, s[k - 1].name));
            }
        }
        assert forall|i: int| 0 <= i < k && !(#[trigger] s[i]).is_dir implies listing_upto(
            s,
            k,
        ).contains(line_of(i as nat, s[i].name)) by {
            if i < k - 1 {
                let j = choose|j: int|
                    0 <= j < listing_upto(s, k - 1).len() && #[trigger] listing_upto(s, k - 1)[j]
                        == line_of(i as nat, s[i].name);
                assert(listing_upto(s, k)[j] == line_of(i as nat, s[i].name));
            } else {
                assert(listing_upto(s, k)[listing_upto(s, k).len() - 1] == line_of(
                    i as nat,
                    s[i].name,
                ));
            }
        }
    }
}

} // verus!
