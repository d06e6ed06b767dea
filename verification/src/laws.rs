//! The store's guarantees, stated once for all inputs and proved.
//!
//! Each law here speaks of the spec-level transitions that the store's
//! operations are contracted to perform, so it holds of every run of those
//! operations on well-formed state.

use vstd::prelude::*;
use crate::listing::EntryView;
use crate::store::StoreView;
use crate::store::after_initialize;
use crate::store::can_create;
use crate::store::entries_wf;
use crate::store::file_entry;
use crate::store::file_index;
use crate::store::has_dir;
use crate::store::has_file;
use crate::store::lemma_file_index_at;
use crate::store::read_spec;
use crate::store::upsert;

verus! {

/// Initializing the store twice leaves exactly what initializing it once
/// leaves: initialization is idempotent, and in particular a second
/// initialization with the same path never fails over the directory
/// already being there.
pub proof fn lemma_initialize_idempotent(s: StoreView)
    ensures
        after_initialize(after_initialize(s)) == after_initialize(s),
{
}

/// Round-trip: whenever writing the snippet named `n` with content `c` can
/// succeed, reading `n` back afterwards yields exactly `c` — and the
/// entries stay well-formed.
pub proof fn lemma_create_then_read(s: Seq<EntryView>, n: Seq<char>, c: Seq<char>)
    requires
        entries_wf(s),
        can_create(s, n),
    ensures
        entries_wf(upsert(s, n, c)),
        read_spec(upsert(s, n, c), n) == Some(c),
{
    let s2 = upsert(s, n, c);
    if has_file(s, n) {
        let i = file_index(s, n);
        assert(0 <= i < s.len() && !s[i].is_dir && s[i].name == n);
        assert(s2 == s.update(i, file_entry(n, c)));
        assert forall|p: int| 0 <= p < s2.len() implies (#[trigger] s2[p]).name.len() > 0 by {
            assert(s[p].name.len() > 0);
        }
        assert forall|p: int, q: int| 0 <= p < q < s2.len() implies (#[trigger] s2[p]).name != (
        #[trigger] s2[q]).name by {
            assert(s[p].name != s[q].name);
        }
        lemma_file_index_at(s2, n, i);
        assert(s2[i].content == c);
    } else {
        assert forall|j: int| 0 <= j < s.len() implies (#[trigger] s[j]).name != n by {
            if s[j].name == n {
                if s[j].is_dir {
                    assert(has_dir(s, n));
                } else {
                    assert(has_file(s, n));
                }
            }
        }
        assert(s2 == s.push(file_entry(n, c)));
        assert forall|p: int, q: int| 0 <= p < q < s2.len() implies (#[trigger] s2[p]).name != (
        #[trigger] s2[q]).name by {
            if q == s.len() as int {
                assert(s[p].name != n);
            } else {
                assert(s[p].name != s[q].name);
            }
        }
        lemma_file_index_at(s2, n, s.len() as int);
        assert(s2[s.len() as int].content == c);
    }
}

/// Overwrite: writing `n` with `c1` and then with `c2` can always go on to
/// the second write, and reading `n` back afterwards yields `c2`, not `c1`.
pub proof fn lemma_overwrite(s: Seq<EntryView>, n: Seq<char>, c1: Seq<char>, c2: Seq<char>)
    requires
        entries_wf(s),
        can_create(s, n),
    ensures
        can_create(upsert(s, n, c1), n),
        read_spec(upsert(upsert(s, n, c1), n, c2), n) == Some(c2),
{
    lemma_create_then_read(s, n, c1);
    let s2 = upsert(s, n, c1);
    if has_dir(s2, n) {
        let j = choose|j: int|
            0 <= j < s2.len() && (#[trigger] s2[j]).is_dir && s2[j].name == n;
        if has_file(s, n) {
            let i = file_index(s, n);
            assert(0 <= i < s.len() && !s[i].is_dir && s[i].name == n);
            assert(j != i);
            assert(s2[j] == s[j]);
            assert(has_dir(s, n));
        } else {
            assert(j != s.len() as int);
            assert(s2[j] == s[j]);
            assert(has_dir(s, n));
        }
        assert(false);
    }
    lemma_create_then_read(s2, n, c2);
}

} // verus!
